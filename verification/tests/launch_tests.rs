use worker_launch::bundle::{Handle, ProcessInfo, SynchronizationBundle, CHANNEL_SIZE};
use worker_launch::channel::{Op, Outcome, Progress, Side, Stage};
use worker_launch::error::{ChannelError, Error, OsError};
use worker_launch::launch::{LaunchStage, Launcher, Reply, Request};

fn handle(id: u64) -> Handle {
    Handle { id }
}

fn process(process: u64, thread: u64, process_id: u32, thread_id: u32) -> ProcessInfo {
    ProcessInfo { process: handle(process), thread: handle(thread), process_id, thread_id }
}

fn event_request() -> Request {
    Request::CreateEvent { manual_reset: true, signaled: false, inheritable: true }
}

fn lock_request() -> Request {
    Request::CreateLock { initially_owned: true, inheritable: true }
}

fn channel_error(error: ChannelError) -> Request {
    Request::Done(Err(Error::ChannelErr(error)))
}

/// Launches `exe` with the four primitives numbered from `base` and the
/// process and thread right after them.
fn launch_one(launcher: &mut Launcher, exe: &str, base: u64, process_id: u32) {
    assert_eq!(
        launcher.launch(exe.to_string()),
        Request::CreateMemory { size: CHANNEL_SIZE, inheritable: true }
    );
    assert_eq!(launcher.advance(Reply::Created(handle(base))), lock_request());
    assert_eq!(launcher.advance(Reply::Created(handle(base + 1))), event_request());
    assert_eq!(launcher.advance(Reply::Created(handle(base + 2))), event_request());
    let spawn = launcher.advance(Reply::Created(handle(base + 3)));
    assert!(matches!(spawn, Request::CreateProcess { .. }));
    assert_eq!(
        launcher.advance(Reply::Spawned(process(base + 4, base + 5, process_id, process_id + 1))),
        Request::Done(Ok(()))
    );
}

#[test]
fn new_launcher_is_empty_and_idle() {
    let launcher = Launcher::new();
    assert_eq!(launcher.len(), 0);
    assert_eq!(launcher.stage(), LaunchStage::Idle);
    assert!(launcher.child(0).is_none());
    assert!(!launcher.owns(handle(1)));
    assert!(!launcher.has_process_id(1));
}

#[test]
fn launch_asks_for_memory_lock_events_process_in_order() {
    let mut launcher = Launcher::new();
    assert_eq!(
        launcher.launch("C:\\bin\\worker.exe".to_string()),
        Request::CreateMemory { size: 4096, inheritable: true }
    );
    assert_eq!(launcher.stage(), LaunchStage::CreatingMemory);
    assert_eq!(launcher.advance(Reply::Created(handle(100))), lock_request());
    assert_eq!(launcher.stage(), LaunchStage::CreatingLock);
    assert_eq!(launcher.advance(Reply::Created(handle(104))), event_request());
    assert_eq!(launcher.stage(), LaunchStage::CreatingReadyEvent);
    assert_eq!(launcher.advance(Reply::Created(handle(108))), event_request());
    assert_eq!(launcher.stage(), LaunchStage::CreatingAckEvent);
    assert_eq!(
        launcher.advance(Reply::Created(handle(112))),
        Request::CreateProcess {
            command_line: "\"C:\\bin\\worker.exe\" 100 104 108 112".to_string(),
            inherit_handles: true,
        }
    );
    assert_eq!(launcher.stage(), LaunchStage::CreatingProcess);
    assert_eq!(launcher.len(), 0);
    assert_eq!(
        launcher.advance(Reply::Spawned(process(200, 204, 4242, 4243))),
        Request::Done(Ok(()))
    );
    assert_eq!(launcher.stage(), LaunchStage::Idle);
    assert_eq!(launcher.len(), 1);
    let child = launcher.child(0).unwrap();
    assert_eq!(child.info, process(200, 204, 4242, 4243));
    assert_eq!(
        child.channel.bundle(),
        SynchronizationBundle {
            memory: handle(100),
            lock: handle(104),
            ready_event: handle(108),
            ack_event: handle(112),
        }
    );
    assert_eq!(child.channel.side(), Side::Creator);
    assert_eq!(child.channel.stage(), Stage::Owning);
    assert_eq!(child.channel.size(), 4096);
    for id in [100u64, 104, 108, 112, 200, 204] {
        assert!(launcher.owns(handle(id)));
        assert!(child.holds(handle(id)));
    }
    assert!(!launcher.owns(handle(101)));
    assert!(launcher.has_process_id(4242));
    assert!(!launcher.has_process_id(4243));
}

#[test]
fn third_creation_failing_closes_the_first_two_and_reports_the_os_error() {
    let mut launcher = Launcher::new();
    launch_one(&mut launcher, "first.exe", 10, 1);
    assert_eq!(launcher.len(), 1);
    launcher.launch("second.exe".to_string());
    assert_eq!(launcher.advance(Reply::Created(handle(100))), lock_request());
    assert_eq!(launcher.advance(Reply::Created(handle(101))), event_request());
    let failure = OsError { code: -2147024888 };
    assert_eq!(launcher.advance(Reply::Failed(failure)), Request::Close { handle: handle(101) });
    assert_eq!(launcher.stage(), LaunchStage::RollingBack(Error::Windows(failure)));
    assert_eq!(launcher.advance(Reply::Closed), Request::Close { handle: handle(100) });
    assert_eq!(launcher.advance(Reply::Closed), Request::Done(Err(Error::Windows(failure))));
    assert_eq!(launcher.stage(), LaunchStage::Idle);
    assert_eq!(launcher.len(), 1);
    assert!(!launcher.owns(handle(100)));
    assert!(!launcher.owns(handle(101)));
}

#[test]
fn first_creation_failing_ends_the_launch_at_once() {
    let mut launcher = Launcher::new();
    launcher.launch("worker.exe".to_string());
    let failure = OsError { code: 5 };
    assert_eq!(launcher.advance(Reply::Failed(failure)), Request::Done(Err(Error::Windows(failure))));
    assert_eq!(launcher.len(), 0);
    assert_eq!(launcher.stage(), LaunchStage::Idle);
}

#[test]
fn process_creation_failing_closes_all_four_primitives_last_first() {
    let mut launcher = Launcher::new();
    launcher.launch("worker.exe".to_string());
    launcher.advance(Reply::Created(handle(1)));
    launcher.advance(Reply::Created(handle(2)));
    launcher.advance(Reply::Created(handle(3)));
    launcher.advance(Reply::Created(handle(4)));
    let failure = OsError { code: 2 };
    assert_eq!(launcher.advance(Reply::Failed(failure)), Request::Close { handle: handle(4) });
    assert_eq!(launcher.advance(Reply::Closed), Request::Close { handle: handle(3) });
    assert_eq!(launcher.advance(Reply::Closed), Request::Close { handle: handle(2) });
    assert_eq!(launcher.advance(Reply::Closed), Request::Close { handle: handle(1) });
    assert_eq!(launcher.advance(Reply::Closed), Request::Done(Err(Error::Windows(failure))));
    assert_eq!(launcher.len(), 0);
}

#[test]
fn a_failing_close_does_not_stop_the_rollback_nor_change_the_error() {
    let mut launcher = Launcher::new();
    launcher.launch("worker.exe".to_string());
    launcher.advance(Reply::Created(handle(1)));
    launcher.advance(Reply::Created(handle(2)));
    let failure = OsError { code: 8 };
    assert_eq!(launcher.advance(Reply::Failed(failure)), Request::Close { handle: handle(2) });
    assert_eq!(
        launcher.advance(Reply::Failed(OsError { code: 6 })),
        Request::Close { handle: handle(1) }
    );
    assert_eq!(
        launcher.advance(Reply::Failed(OsError { code: 6 })),
        Request::Done(Err(Error::Windows(failure)))
    );
}

#[test]
fn an_unsafe_executable_is_refused_once_the_bundle_exists() {
    let mut launcher = Launcher::new();
    launcher.launch("bad\"name.exe".to_string());
    launcher.advance(Reply::Created(handle(1)));
    launcher.advance(Reply::Created(handle(2)));
    launcher.advance(Reply::Created(handle(3)));
    assert_eq!(launcher.advance(Reply::Created(handle(4))), Request::Close { handle: handle(4) });
    assert_eq!(
        launcher.stage(),
        LaunchStage::RollingBack(Error::ChannelErr(ChannelError::UnsafeExecutable))
    );
    assert_eq!(launcher.advance(Reply::Closed), Request::Close { handle: handle(3) });
    assert_eq!(launcher.advance(Reply::Closed), Request::Close { handle: handle(2) });
    assert_eq!(launcher.advance(Reply::Closed), Request::Close { handle: handle(1) });
    assert_eq!(launcher.advance(Reply::Closed), channel_error(ChannelError::UnsafeExecutable));
    assert_eq!(launcher.len(), 0);
}

#[test]
fn an_unusable_identity_ends_the_launch_with_a_channel_error() {
    let mut launcher = Launcher::new();
    launcher.launch("worker.exe".to_string());
    launcher.advance(Reply::Created(handle(1)));
    assert_eq!(launcher.advance(Reply::Created(handle(0))), Request::Close { handle: handle(1) });
    assert_eq!(launcher.advance(Reply::Closed), channel_error(ChannelError::InvalidIdentity));

    launcher.launch("worker.exe".to_string());
    assert_eq!(
        launcher.advance(Reply::Created(handle(u64::MAX))),
        channel_error(ChannelError::InvalidIdentity)
    );
}

#[test]
fn an_identity_handed_over_twice_ends_the_launch_and_is_closed_once() {
    let mut launcher = Launcher::new();
    launcher.launch("worker.exe".to_string());
    launcher.advance(Reply::Created(handle(7)));
    assert_eq!(launcher.advance(Reply::Created(handle(7))), Request::Close { handle: handle(7) });
    assert_eq!(launcher.advance(Reply::Closed), channel_error(ChannelError::DuplicateIdentity));
}

#[test]
fn an_identity_of_an_earlier_child_is_refused_and_left_alone() {
    let mut launcher = Launcher::new();
    launch_one(&mut launcher, "first.exe", 10, 1);
    launcher.launch("second.exe".to_string());
    launcher.advance(Reply::Created(handle(100)));
    assert_eq!(launcher.advance(Reply::Created(handle(12))), Request::Close { handle: handle(100) });
    assert_eq!(launcher.advance(Reply::Closed), channel_error(ChannelError::DuplicateIdentity));
    assert_eq!(launcher.len(), 1);
    assert!(launcher.owns(handle(12)));
}

#[test]
fn a_second_child_with_the_process_number_of_the_first_is_refused() {
    let mut launcher = Launcher::new();
    launch_one(&mut launcher, "first.exe", 10, 77);
    launcher.launch("second.exe".to_string());
    launcher.advance(Reply::Created(handle(100)));
    launcher.advance(Reply::Created(handle(101)));
    launcher.advance(Reply::Created(handle(102)));
    launcher.advance(Reply::Created(handle(103)));
    assert_eq!(
        launcher.advance(Reply::Spawned(process(104, 105, 77, 500))),
        Request::Close { handle: handle(105) }
    );
    let mut closed = vec![105u64];
    loop {
        match launcher.advance(Reply::Closed) {
            Request::Close { handle } => closed.push(handle.id),
            done => {
                assert_eq!(done, channel_error(ChannelError::DuplicateIdentity));
                break;
            }
        }
    }
    assert_eq!(closed, vec![105, 104, 103, 102, 101, 100]);
    assert_eq!(launcher.len(), 1);
}

#[test]
fn a_process_whose_thread_is_the_process_is_refused() {
    let mut launcher = Launcher::new();
    launcher.launch("worker.exe".to_string());
    launcher.advance(Reply::Created(handle(1)));
    launcher.advance(Reply::Created(handle(2)));
    launcher.advance(Reply::Created(handle(3)));
    launcher.advance(Reply::Created(handle(4)));
    assert_eq!(
        launcher.advance(Reply::Spawned(process(9, 9, 1, 2))),
        Request::Close { handle: handle(9) }
    );
    assert_eq!(launcher.advance(Reply::Closed), Request::Close { handle: handle(4) });
    assert_eq!(
        launcher.stage(),
        LaunchStage::RollingBack(Error::ChannelErr(ChannelError::DuplicateIdentity))
    );
}

#[test]
fn a_process_with_an_unusable_thread_is_refused_and_the_process_closed() {
    let mut launcher = Launcher::new();
    launcher.launch("worker.exe".to_string());
    launcher.advance(Reply::Created(handle(1)));
    launcher.advance(Reply::Created(handle(2)));
    launcher.advance(Reply::Created(handle(3)));
    launcher.advance(Reply::Created(handle(4)));
    assert_eq!(
        launcher.advance(Reply::Spawned(process(9, 0, 1, 2))),
        Request::Close { handle: handle(9) }
    );
    assert_eq!(
        launcher.stage(),
        LaunchStage::RollingBack(Error::ChannelErr(ChannelError::InvalidIdentity))
    );
}

#[test]
fn a_reply_that_answers_another_request_ends_the_launch() {
    let mut launcher = Launcher::new();
    launcher.launch("worker.exe".to_string());
    launcher.advance(Reply::Created(handle(1)));
    assert_eq!(launcher.advance(Reply::Closed), Request::Close { handle: handle(1) });
    assert_eq!(launcher.advance(Reply::Closed), channel_error(ChannelError::UnexpectedReply));

    launcher.launch("worker.exe".to_string());
    assert_eq!(
        launcher.advance(Reply::Spawned(process(5, 6, 1, 2))),
        Request::Close { handle: handle(6) }
    );
    assert_eq!(launcher.advance(Reply::Closed), Request::Close { handle: handle(5) });
    assert_eq!(launcher.advance(Reply::Closed), channel_error(ChannelError::UnexpectedReply));
    assert_eq!(launcher.len(), 0);
}

#[test]
fn an_identity_handed_over_during_rollback_is_closed_too() {
    let mut launcher = Launcher::new();
    launcher.launch("worker.exe".to_string());
    launcher.advance(Reply::Created(handle(1)));
    let failure = OsError { code: 14 };
    assert_eq!(launcher.advance(Reply::Failed(failure)), Request::Close { handle: handle(1) });
    assert_eq!(launcher.advance(Reply::Created(handle(50))), Request::Close { handle: handle(50) });
    assert_eq!(launcher.advance(Reply::Closed), Request::Done(Err(Error::Windows(failure))));
}

#[test]
fn a_reply_without_a_launch_is_refused() {
    let mut launcher = Launcher::new();
    assert_eq!(launcher.advance(Reply::Closed), channel_error(ChannelError::UnexpectedReply));
    assert_eq!(launcher.advance(Reply::Created(handle(3))), Request::Close { handle: handle(3) });
    assert_eq!(launcher.advance(Reply::Closed), channel_error(ChannelError::UnexpectedReply));
    assert_eq!(launcher.stage(), LaunchStage::Idle);
}

#[test]
fn a_second_launch_during_a_launch_is_refused_and_changes_nothing() {
    let mut launcher = Launcher::new();
    launcher.launch("first.exe".to_string());
    launcher.advance(Reply::Created(handle(1)));
    assert_eq!(launcher.launch("second.exe".to_string()), channel_error(ChannelError::Busy));
    assert_eq!(launcher.stage(), LaunchStage::CreatingLock);
    launcher.advance(Reply::Created(handle(2)));
    launcher.advance(Reply::Created(handle(3)));
    assert_eq!(
        launcher.advance(Reply::Created(handle(4))),
        Request::CreateProcess {
            command_line: "\"first.exe\" 1 2 3 4".to_string(),
            inherit_handles: true,
        }
    );
}

#[test]
fn children_are_kept_in_launch_order_and_share_nothing() {
    let mut launcher = Launcher::new();
    launch_one(&mut launcher, "a.exe", 10, 1);
    launch_one(&mut launcher, "b.exe", 20, 3);
    launch_one(&mut launcher, "c.exe", 30, 5);
    assert_eq!(launcher.len(), 3);
    for (index, base) in [10u64, 20, 30].iter().enumerate() {
        let child = launcher.child(index).unwrap();
        assert_eq!(child.channel.bundle().memory, handle(*base));
        assert_eq!(child.info.process, handle(base + 4));
        for other in 0..3 {
            if other != index {
                let sibling = launcher.child(other).unwrap();
                assert_ne!(sibling.info.process_id, child.info.process_id);
                assert_ne!(sibling.info.process, child.info.process);
                for id in *base..base + 6 {
                    assert!(!sibling.holds(handle(id)));
                }
            }
        }
    }
}

#[test]
fn discard_hands_back_the_six_identities_and_closes_the_gap() {
    let mut launcher = Launcher::new();
    launch_one(&mut launcher, "a.exe", 10, 1);
    launch_one(&mut launcher, "b.exe", 20, 3);
    launch_one(&mut launcher, "c.exe", 30, 5);
    assert_eq!(launcher.discard(3), None);
    let released = launcher.discard(1).unwrap();
    assert_eq!(released, (20u64..26).map(handle).collect::<Vec<_>>());
    assert_eq!(launcher.len(), 2);
    assert_eq!(launcher.child(0).unwrap().info.process_id, 1);
    assert_eq!(launcher.child(1).unwrap().info.process_id, 5);
    assert!(!launcher.owns(handle(22)));
    launch_one(&mut launcher, "b.exe", 20, 3);
    assert_eq!(launcher.len(), 3);
}

#[test]
fn the_launcher_drives_the_channel_of_the_child_it_is_asked_for() {
    let mut launcher = Launcher::new();
    launch_one(&mut launcher, "a.exe", 10, 1);
    launch_one(&mut launcher, "b.exe", 20, 3);
    assert_eq!(launcher.pending(1), Some(Op::ReleaseLock));
    assert_eq!(launcher.pending(2), None);
    assert_eq!(launcher.begin_write(1, &vec![1, 2, 3]), Err(ChannelError::Busy));
    assert_eq!(launcher.complete(1, Outcome::Completed), Progress::Released);
    assert_eq!(launcher.pending(1), None);
    assert_eq!(launcher.begin_write(1, &vec![1, 2, 3]), Ok(()));
    assert_eq!(launcher.pending(1), Some(Op::AcquireLock));
    assert_eq!(launcher.child(1).unwrap().channel.stage(), Stage::WriteLocking);
    assert_eq!(launcher.child(0).unwrap().channel.stage(), Stage::Owning);
    assert_eq!(launcher.complete(1, Outcome::Completed), Progress::More);
    assert_eq!(launcher.pending(1), Some(Op::Store(vec![3, 0, 0, 0, 1, 2, 3])));
    assert_eq!(launcher.begin_read(1), Err(ChannelError::Busy));
    assert_eq!(launcher.complete(0, Outcome::Completed), Progress::Released);
    assert_eq!(launcher.begin_read(0), Ok(()));
    assert_eq!(launcher.pending(0), Some(Op::WaitReady));
}

#[test]
fn a_child_that_does_not_exist_cannot_be_driven() {
    let mut launcher = Launcher::new();
    assert_eq!(launcher.begin_write(0, &vec![1]), Err(ChannelError::NoSuchChild));
    assert_eq!(launcher.begin_read(0), Err(ChannelError::NoSuchChild));
    assert_eq!(
        launcher.complete(0, Outcome::Completed),
        Progress::Failed(Error::ChannelErr(ChannelError::NoSuchChild))
    );
    assert_eq!(launcher.pending(0), None);
}

/// An operating system that only counts: it hands out identities in order and
/// fails the call of a given number.
struct Counting {
    calls: usize,
    failing: Option<usize>,
    next: u64,
    created: Vec<u64>,
    closed: Vec<u64>,
}

impl Counting {
    fn new(failing: Option<usize>) -> Counting {
        Counting { calls: 0, failing, next: 1000, created: Vec::new(), closed: Vec::new() }
    }

    fn fresh(&mut self) -> Handle {
        self.next += 4;
        self.created.push(self.next);
        handle(self.next)
    }

    fn answer(&mut self, request: &Request) -> Reply {
        let call = self.calls;
        self.calls += 1;
        match request {
            Request::Close { handle } => {
                self.closed.push(handle.id);
                Reply::Closed
            }
            _ if self.failing == Some(call) => Reply::Failed(OsError { code: -2147024882 }),
            Request::CreateProcess { .. } => {
                let process = self.fresh();
                let thread = self.fresh();
                Reply::Spawned(ProcessInfo {
                    process,
                    thread,
                    process_id: process.id as u32,
                    thread_id: thread.id as u32,
                })
            }
            _ => Reply::Created(self.fresh()),
        }
    }

    fn launch(&mut self, launcher: &mut Launcher, exe: &str) -> Result<(), Error> {
        let mut request = launcher.launch(exe.to_string());
        loop {
            if let Request::Done(result) = request {
                return result;
            }
            let reply = self.answer(&request);
            request = launcher.advance(reply);
        }
    }
}

#[test]
fn a_launch_that_succeeds_creates_four_primitives_and_closes_nothing() {
    let mut launcher = Launcher::new();
    let mut os = Counting::new(None);
    assert_eq!(os.launch(&mut launcher, "worker.exe"), Ok(()));
    assert_eq!(os.calls, 5);
    assert_eq!(os.created.len(), 6);
    assert!(os.closed.is_empty());
    assert_eq!(launcher.len(), 1);
    let child = launcher.child(0).unwrap();
    let bundle = child.channel.bundle();
    assert_eq!(
        [bundle.memory.id, bundle.lock.id, bundle.ready_event.id, bundle.ack_event.id],
        os.created[..4]
    );
    assert_eq!([child.info.process.id, child.info.thread.id], os.created[4..]);
}

#[test]
fn a_launch_that_fails_closes_each_identity_it_was_handed_once() {
    for failing in 0..5 {
        let mut launcher = Launcher::new();
        let mut os = Counting::new(None);
        assert_eq!(os.launch(&mut launcher, "first.exe"), Ok(()));
        let before = os.created.clone();
        os.failing = Some(os.calls + failing);
        assert_eq!(
            os.launch(&mut launcher, "second.exe"),
            Err(Error::Windows(OsError { code: -2147024882 }))
        );
        assert_eq!(launcher.len(), 1);
        assert_eq!(launcher.stage(), LaunchStage::Idle);
        let taken: Vec<u64> = os.created[before.len()..].to_vec();
        assert_eq!(taken.len(), failing);
        let mut closed = os.closed.clone();
        closed.reverse();
        assert_eq!(closed, taken);
        for id in before {
            assert!(launcher.owns(handle(id)));
        }
    }
}

#[test]
fn many_launches_give_children_with_identities_of_their_own() {
    let mut launcher = Launcher::new();
    let mut os = Counting::new(None);
    for round in 0..20 {
        if round % 3 == 2 {
            os.failing = Some(os.calls + round % 5);
            assert!(os.launch(&mut launcher, "worker.exe").is_err());
            os.failing = None;
        } else {
            assert_eq!(os.launch(&mut launcher, "worker.exe"), Ok(()));
        }
    }
    assert_eq!(launcher.len(), 14);
    let mut seen = Vec::new();
    let mut numbers = Vec::new();
    for index in 0..launcher.len() {
        let child = launcher.child(index).unwrap();
        let bundle = child.channel.bundle();
        for id in [
            bundle.memory.id,
            bundle.lock.id,
            bundle.ready_event.id,
            bundle.ack_event.id,
            child.info.process.id,
            child.info.thread.id,
        ] {
            assert!(!seen.contains(&id));
            seen.push(id);
        }
        assert!(!numbers.contains(&child.info.process_id));
        numbers.push(child.info.process_id);
    }
    assert_eq!(seen.len() + os.closed.len(), os.created.len());
}
