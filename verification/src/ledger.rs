//! What a whole launch does with the identities it is handed.
//!
//! A launch is followed from its first request through any sequence of
//! replies. Every identity that the launcher takes is either closed again or
//! ends up with the recorded child: a launch that fails has asked for the
//! closing of all it took, and a launch that succeeds has taken exactly the
//! four primitives, the process and its thread, and closed none of them.

use vstd::prelude::*;
use vstd::seq_lib::{lemma_multiset_commutative, to_multiset_build};
use crate::bundle::{Handle, CHANNEL_SIZE};
use crate::cmdline::command_line;
use crate::launch::{bundle_of, event_request, LaunchStage, LauncherView, Reply, RequestView};

verus! {

/// The launcher and its latest request once a launch of `exe` was started at
/// `start` and `replies` were reported in order.
pub open spec fn run(start: LauncherView, exe: Seq<char>, replies: Seq<Reply>) -> (
    LauncherView,
    RequestView,
)
    decreases replies.len(),
{
    if replies.len() == 0 {
        start.launched(exe)
    } else {
        run(start, exe, replies.drop_last()).0.advanced(replies.last())
    }
}

/// Whether no request before the latest one was `Done`: the replies all belong
/// to the one launch.
pub open spec fn unfinished(start: LauncherView, exe: Seq<char>, replies: Seq<Reply>) -> bool
    decreases replies.len(),
{
    if replies.len() == 0 {
        true
    } else {
        unfinished(start, exe, replies.drop_last()) && !(run(
            start,
            exe,
            replies.drop_last(),
        ).1 is Done)
    }
}

/// The identities that a reply adds to what the launcher holds.
pub open spec fn handed_over(launcher: LauncherView, reply: Reply) -> Seq<Handle> {
    launcher.absorbed(reply).held.skip(launcher.held.len() as int)
}

/// The identities that the launcher took over the run, in order.
pub open spec fn taken(start: LauncherView, exe: Seq<char>, replies: Seq<Reply>) -> Seq<Handle>
    decreases replies.len(),
{
    if replies.len() == 0 {
        Seq::empty()
    } else {
        taken(start, exe, replies.drop_last()) + handed_over(
            run(start, exe, replies.drop_last()).0,
            replies.last(),
        )
    }
}

/// The identities that the launcher asked to close over the run, in order.
pub open spec fn closed(start: LauncherView, exe: Seq<char>, replies: Seq<Reply>) -> Seq<Handle>
    decreases replies.len(),
{
    if replies.len() == 0 {
        Seq::empty()
    } else {
        match run(start, exe, replies).1 {
            RequestView::Close { handle } => closed(start, exe, replies.drop_last()).push(handle),
            _ => closed(start, exe, replies.drop_last()),
        }
    }
}

/// The request that is outstanding at a stage of a launch that has not failed.
spec fn request_at(stage: LaunchStage, exe: Seq<char>, held: Seq<Handle>) -> RequestView {
    match stage {
        LaunchStage::CreatingMemory => RequestView::CreateMemory {
            size: CHANNEL_SIZE,
            inheritable: true,
        },
        LaunchStage::CreatingLock => RequestView::CreateLock {
            initially_owned: true,
            inheritable: true,
        },
        LaunchStage::CreatingReadyEvent | LaunchStage::CreatingAckEvent => event_request(),
        _ => RequestView::CreateProcess {
            command_line: command_line(exe, bundle_of(held)),
            inherit_handles: true,
        },
    }
}

/// The number of replies after which a launch that has not failed is at a
/// stage.
spec fn position(stage: LaunchStage) -> int {
    match stage {
        LaunchStage::CreatingMemory => 0,
        LaunchStage::CreatingLock => 1,
        LaunchStage::CreatingReadyEvent => 2,
        LaunchStage::CreatingAckEvent => 3,
        LaunchStage::CreatingProcess => 4,
        _ => -1,
    }
}

spec fn step_accounted(launcher: LauncherView, reply: Reply) -> bool {
    let all = launcher.absorbed(reply).held;
    let (next, request) = launcher.advanced(reply);
    &&& all == launcher.held + handed_over(launcher, reply)
    &&& next.wf()
    &&& match request {
        RequestView::Close { handle } => {
            &&& all == next.held.push(handle)
            &&& next.children == launcher.children
            &&& next.exe == launcher.exe
            &&& next.stage is RollingBack
        },
        RequestView::Done(Err(_)) => {
            &&& all.len() == 0
            &&& next.held.len() == 0
            &&& next.children == launcher.children
        },
        RequestView::Done(Ok(_)) => {
            &&& launcher.stage == LaunchStage::CreatingProcess
            &&& next.held.len() == 0
            &&& all.len() == 6
            &&& next.children.len() == launcher.children.len() + 1
            &&& next.children.drop_last() == launcher.children
            &&& next.children.last().handles() == all
        },
        _ => {
            &&& next.held == all
            &&& next.children == launcher.children
            &&& next.exe == launcher.exe
            &&& position(launcher.stage) >= 0
            &&& position(next.stage) == position(launcher.stage) + 1
            &&& request == request_at(next.stage, next.exe, next.held)
        },
    }
}

proof fn lemma_step_accounted(launcher: LauncherView, reply: Reply)
    requires
        launcher.wf(),
    ensures
        step_accounted(launcher, reply),
{
    let all = launcher.absorbed(reply).held;
    let (next, request) = launcher.advanced(reply);
    assert(all =~= launcher.held + handed_over(launcher, reply));
    if all.len() > 0 {
        assert(all =~= all.drop_last().push(all.last()));
    }
    match request {
        RequestView::Done(Ok(_)) => {
            let info = reply->Spawned_0;
            assert(all =~= bundle_of(all).handles().push(info.process).push(info.thread)) by {
                let first = launcher.holding(info.process);
                assert forall|k: int| 0 <= k < first.held.len() implies first.held[k]
                    != info.thread by {}
            }
            assert(next.children.drop_last() =~= launcher.children);
        },
        _ => {},
    }
}

spec fn in_progress(start: LauncherView, exe: Seq<char>, replies: Seq<Reply>) -> bool {
    let (now, request) = run(start, exe, replies);
    let taken = taken(start, exe, replies);
    let closed = closed(start, exe, replies);
    &&& now.wf()
    &&& now.children == start.children
    &&& now.exe == exe
    &&& now.stage != LaunchStage::Idle
    &&& taken.to_multiset() == now.held.to_multiset().add(closed.to_multiset())
    &&& now.stage is RollingBack ==> request is Close
    &&& !(now.stage is RollingBack) ==> {
        &&& closed.len() == 0
        &&& taken == now.held
        &&& position(now.stage) == replies.len()
        &&& request == request_at(now.stage, exe, now.held)
    }
}

proof fn lemma_in_progress(start: LauncherView, exe: Seq<char>, replies: Seq<Reply>)
    requires
        start.wf(),
        start.stage == LaunchStage::Idle,
        unfinished(start, exe, replies),
        !(run(start, exe, replies).1 is Done),
    ensures
        in_progress(start, exe, replies),
    decreases replies.len(),
{
    if replies.len() == 0 {
        assert(taken(start, exe, replies).to_multiset() =~= start.held.to_multiset().add(
            closed(start, exe, replies).to_multiset(),
        )) by {
            broadcast use vstd::multiset::group_multiset_axioms;

            assert(start.held =~= Seq::empty());
            Seq::<Handle>::empty().to_multiset_ensures();
        }
    } else {
        let before = replies.drop_last();
        let reply = replies.last();
        lemma_in_progress(start, exe, before);
        let (prev, _) = run(start, exe, before);
        let (now, request) = run(start, exe, replies);
        lemma_step_accounted(prev, reply);
        let over = handed_over(prev, reply);
        let all = prev.held + over;
        let taken_before = taken(start, exe, before);
        let closed_before = closed(start, exe, before);
        lemma_multiset_commutative(taken_before, over);
        lemma_multiset_commutative(prev.held, over);
        assert(taken(start, exe, replies).to_multiset() =~= all.to_multiset().add(
            closed_before.to_multiset(),
        ));
        match request {
            RequestView::Close { handle } => {
                to_multiset_build(now.held, handle);
                to_multiset_build(closed_before, handle);
                assert(taken(start, exe, replies).to_multiset() =~= now.held.to_multiset().add(
                    closed(start, exe, replies).to_multiset(),
                ));
            },
            _ => {},
        }
    }
}

/// A launch accounts for every identity it takes.
///
/// Follow one launch from a well-formed launcher through any replies. When it
/// ends in failure, the children are as before, nothing is held, and the
/// identities asked to be closed are, each as often as it was taken, the
/// identities taken. When it ends in success, none was closed, and the six
/// identities taken are those of the one child added. Until then, what was
/// taken is what is held together with what was asked to be closed.
pub proof fn lemma_launch_accounts_for_every_identity(
    start: LauncherView,
    exe: Seq<char>,
    replies: Seq<Reply>,
)
    requires
        start.wf(),
        start.stage == LaunchStage::Idle,
        unfinished(start, exe, replies),
    ensures
        ({
            let (end, request) = run(start, exe, replies);
            let taken = taken(start, exe, replies);
            let closed = closed(start, exe, replies);
            match request {
                RequestView::Done(Err(_)) => {
                    &&& end.children == start.children
                    &&& end.held.len() == 0
                    &&& taken.to_multiset() == closed.to_multiset()
                },
                RequestView::Done(Ok(_)) => {
                    &&& closed.len() == 0
                    &&& end.held.len() == 0
                    &&& taken.len() == 6
                    &&& end.children.len() == start.children.len() + 1
                    &&& end.children.drop_last() == start.children
                    &&& end.children.last().handles() == taken
                },
                _ => {
                    &&& end.children == start.children
                    &&& taken.to_multiset() == end.held.to_multiset().add(closed.to_multiset())
                },
            }
        }),
{
    let (end, request) = run(start, exe, replies);
    if !(request is Done) {
        lemma_in_progress(start, exe, replies);
    } else {
        let before = replies.drop_last();
        let reply = replies.last();
        lemma_in_progress(start, exe, before);
        let (prev, _) = run(start, exe, before);
        lemma_multiset_commutative(prev.held, handed_over(prev, reply));
        if request is Done && request->Done_0 is Err {
            assert(taken(start, exe, replies).to_multiset() =~= closed(
                start,
                exe,
                replies,
            ).to_multiset());
        }
    }
}

/// A launch that succeeds has made exactly six requests before it is done:
/// the memory, the lock, the two events, the process, in this order, each
/// answered once. What it asked of each is fixed; the command line is that of
/// the executable and the four identities created.
pub proof fn lemma_success_creates_four(
    start: LauncherView,
    exe: Seq<char>,
    replies: Seq<Reply>,
)
    requires
        start.wf(),
        start.stage == LaunchStage::Idle,
        unfinished(start, exe, replies),
        run(start, exe, replies).1 == RequestView::Done(Ok(())),
    ensures
        replies.len() == 5,
        run(start, exe, replies.take(0)).1 == (RequestView::CreateMemory {
            size: CHANNEL_SIZE,
            inheritable: true,
        }),
        run(start, exe, replies.take(1)).1 == (RequestView::CreateLock {
            initially_owned: true,
            inheritable: true,
        }),
        run(start, exe, replies.take(2)).1 == event_request(),
        run(start, exe, replies.take(3)).1 == event_request(),
        run(start, exe, replies.take(4)).1 == (RequestView::CreateProcess {
            command_line: command_line(exe, run(start, exe, replies).0.children.last().channel.bundle),
            inherit_handles: true,
        }),
        forall|k: int|
            0 <= k < 4 ==> #[trigger] replies[k] == Reply::Created(
                run(start, exe, replies).0.children.last().channel.bundle.handles()[k],
            ),
        replies[4] == Reply::Spawned(run(start, exe, replies).0.children.last().info),
{
    let r4 = replies.drop_last();
    lemma_in_progress(start, exe, r4);
    assert(unfinished(start, exe, r4));
    let r3 = r4.drop_last();
    assert(unfinished(start, exe, r3));
    assert(r3 =~= replies.take(3));
    let r2 = r3.drop_last();
    assert(unfinished(start, exe, r2));
    assert(r2 =~= replies.take(2));
    let r1 = r2.drop_last();
    assert(r1 =~= replies.take(1));
}

/// No two children are the same process: they differ in the process's handle
/// and in its number, and no identity of one is an identity of the other.
pub proof fn lemma_process_identity_unique(launcher: LauncherView, i: int, j: int)
    requires
        launcher.wf(),
        0 <= i < launcher.children.len(),
        0 <= j < launcher.children.len(),
        i != j,
    ensures
        launcher.children[i].info.process != launcher.children[j].info.process,
        launcher.children[i].info.process_id != launcher.children[j].info.process_id,
        forall|h: Handle| !(launcher.children[i].holds(h) && launcher.children[j].holds(h)),
{
    let a = launcher.children[i];
    let b = launcher.children[j];
    assert(b.holds(b.info.process));
    assert forall|h: Handle| !(a.holds(h) && b.holds(h)) by {}
}

} // verus!
