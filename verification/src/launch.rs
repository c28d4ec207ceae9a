//! The launcher: one transaction per child, from the first primitive to the
//! recorded child.
//!
//! The launcher decides; it makes no call to the operating system. A launch
//! starts with [`Launcher::launch`], which hands back the first [`Request`].
//! Whoever drives the launcher carries each request out and reports the
//! [`Reply`] to [`Launcher::advance`], which hands back the next request, until
//! that request is [`Request::Done`].
//!
//! A launch creates the shared memory, the lock and the two events, encodes
//! their identities into the child's command line, creates the process and
//! records the child. The first failure ends it: every identity taken so far is
//! closed, last taken first, and the failure is reported once none is left.

use vstd::prelude::*;
use crate::bundle::{Handle, ProcessInfo, SynchronizationBundle, CHANNEL_SIZE};
use crate::channel::{
    creation, Channel, ChannelView, Op, Outcome, OutcomeView, Progress, ProgressView,
};
use crate::cmdline::{command_line, safe_executable, ChannelArgs};
use crate::error::{result_from_channel, ChannelError, Error, OsError};

verus! {

/// A launched child: the process and the channel to it.
#[derive(Debug)]
pub struct Child {
    /// The process and its first thread.
    pub info: ProcessInfo,
    /// The creator's end of the channel.
    pub channel: Channel,
}

/// A [`Child`] as a mathematical value.
pub struct ChildView {
    pub info: ProcessInfo,
    pub channel: ChannelView,
}

impl View for Child {
    type V = ChildView;

    open spec fn view(&self) -> ChildView {
        ChildView { info: self.info, channel: self.channel@ }
    }
}

impl ChildView {
    /// Whether `h` is one of the child's six identities: the four primitives,
    /// the process, the thread.
    pub open spec fn holds(self, h: Handle) -> bool {
        self.channel.bundle.holds(h) || h == self.info.process || h == self.info.thread
    }

    /// The six identities, in the order in which they were taken.
    pub open spec fn handles(self) -> Seq<Handle> {
        self.channel.bundle.handles().push(self.info.process).push(self.info.thread)
    }

    /// Six usable identities of six different objects, and a sound channel end.
    pub open spec fn wf(self) -> bool {
        &&& self.channel.wf()
        &&& self.channel.bundle.wf()
        &&& self.info.process.is_valid()
        &&& self.info.thread.is_valid()
        &&& self.info.process != self.info.thread
        &&& !self.channel.bundle.holds(self.info.process)
        &&& !self.channel.bundle.holds(self.info.thread)
    }
}

impl Child {
    /// Whether `h` is one of the child's six identities.
    pub fn holds(&self, h: Handle) -> (b: bool)
        ensures
            b == self@.holds(h),
    {
        let bundle = self.channel.bundle();
        h == bundle.memory || h == bundle.lock || h == bundle.ready_event || h == bundle.ack_event
            || h == self.info.process || h == self.info.thread
    }
}

/// How far a launch has come. Each stage but `Idle` awaits the reply to one
/// request.
#[derive(Clone, Copy, Debug, PartialEq, Eq, Structural)]
pub enum LaunchStage {
    /// No launch is in progress.
    Idle,
    /// The shared memory was asked for.
    CreatingMemory,
    /// The lock was asked for.
    CreatingLock,
    /// The ready event was asked for.
    CreatingReadyEvent,
    /// The ack event was asked for.
    CreatingAckEvent,
    /// The process was asked for.
    CreatingProcess,
    /// The launch has failed with this error; an identity is being closed.
    RollingBack(Error),
}

/// What the launcher asks of the operating system.
#[derive(Debug, PartialEq, Eq)]
pub enum Request {
    /// Create a shared memory segment of `size` bytes, backed by the paging
    /// file.
    CreateMemory { size: u32, inheritable: bool },
    /// Create a lock, owned by the caller if `initially_owned`.
    CreateLock { initially_owned: bool, inheritable: bool },
    /// Create an event.
    CreateEvent { manual_reset: bool, signaled: bool, inheritable: bool },
    /// Create a process from this command line. The process takes over the
    /// caller's variables and working directory.
    CreateProcess { command_line: String, inherit_handles: bool },
    /// Close this identity.
    Close { handle: Handle },
    /// Nothing more: the launch has ended with this result.
    Done(Result<(), Error>),
}

/// A [`Request`] with its text as a sequence.
pub enum RequestView {
    CreateMemory { size: u32, inheritable: bool },
    CreateLock { initially_owned: bool, inheritable: bool },
    CreateEvent { manual_reset: bool, signaled: bool, inheritable: bool },
    CreateProcess { command_line: Seq<char>, inherit_handles: bool },
    Close { handle: Handle },
    Done(Result<(), Error>),
}

impl View for Request {
    type V = RequestView;

    open spec fn view(&self) -> RequestView {
        match self {
            Request::CreateMemory { size, inheritable } => RequestView::CreateMemory {
                size: *size,
                inheritable: *inheritable,
            },
            Request::CreateLock { initially_owned, inheritable } => RequestView::CreateLock {
                initially_owned: *initially_owned,
                inheritable: *inheritable,
            },
            Request::CreateEvent { manual_reset, signaled, inheritable } => RequestView::CreateEvent {
                manual_reset: *manual_reset,
                signaled: *signaled,
                inheritable: *inheritable,
            },
            Request::CreateProcess { command_line, inherit_handles } => RequestView::CreateProcess {
                command_line: command_line@,
                inherit_handles: *inherit_handles,
            },
            Request::Close { handle } => RequestView::Close { handle: *handle },
            Request::Done(result) => RequestView::Done(*result),
        }
    }
}

/// What the operating system answered.
#[derive(Clone, Copy, Debug, PartialEq, Eq, Structural)]
pub enum Reply {
    /// A primitive was created; this is its identity.
    Created(Handle),
    /// The process was created.
    Spawned(ProcessInfo),
    /// An identity was closed.
    Closed,
    /// The call failed.
    Failed(OsError),
}

/// The request for a primitive's event: reset by hand, unsignaled at first,
/// inheritable.
pub open spec fn event_request() -> RequestView {
    RequestView::CreateEvent { manual_reset: true, signaled: false, inheritable: true }
}

/// The bundle made of the first four identities of `held`.
pub open spec fn bundle_of(held: Seq<Handle>) -> SynchronizationBundle
    recommends
        held.len() >= 4,
{
    SynchronizationBundle {
        memory: held[0],
        lock: held[1],
        ready_event: held[2],
        ack_event: held[3],
    }
}

/// A launcher as a mathematical value.
pub struct LauncherView {
    /// The children, in the order in which they were launched.
    pub children: Seq<ChildView>,
    /// How far the launch in progress has come.
    pub stage: LaunchStage,
    /// The executable of the launch in progress.
    pub exe: Seq<char>,
    /// The identities that the launch in progress has taken and not yet
    /// closed, in the order in which they were taken.
    pub held: Seq<Handle>,
}

impl LauncherView {
    /// A launcher without children and without a launch in progress.
    pub open spec fn empty() -> LauncherView {
        LauncherView {
            children: Seq::empty(),
            stage: LaunchStage::Idle,
            exe: Seq::empty(),
            held: Seq::empty(),
        }
    }

    /// Whether `h` belongs to one of the children.
    pub open spec fn owns(self, h: Handle) -> bool {
        exists|i: int| 0 <= i < self.children.len() && #[trigger] self.children[i].holds(h)
    }

    /// Whether one of the children runs as process number `id`.
    pub open spec fn has_process_id(self, id: u32) -> bool {
        exists|i: int|
            0 <= i < self.children.len() && (#[trigger] self.children[i]).info.process_id == id
    }

    /// Whether `h` can be taken: it can name an object, and neither the launch
    /// in progress nor a child has it already.
    pub open spec fn fresh(self, h: Handle) -> bool {
        h.is_valid() && !self.held.contains(h) && !self.owns(h)
    }

    /// Why `h` cannot be taken, if it cannot.
    pub open spec fn refusal_of(self, h: Handle) -> Option<ChannelError> {
        if !h.is_valid() {
            Some(ChannelError::InvalidIdentity)
        } else if self.held.contains(h) || self.owns(h) {
            Some(ChannelError::DuplicateIdentity)
        } else {
            None
        }
    }

    /// The launcher once it has taken `h`, if `h` can be taken.
    pub open spec fn holding(self, h: Handle) -> LauncherView {
        if self.fresh(h) {
            LauncherView { held: self.held.push(h), ..self }
        } else {
            self
        }
    }

    /// The launcher once it has taken every identity of `reply` that can be
    /// taken. Whatever a reply hands over is taken, so that it gets closed if
    /// the launch fails.
    pub open spec fn absorbed(self, reply: Reply) -> LauncherView {
        match reply {
            Reply::Created(h) => self.holding(h),
            Reply::Spawned(info) => self.holding(info.process).holding(info.thread),
            Reply::Closed | Reply::Failed(_) => self,
        }
    }

    /// Why a process cannot be recorded, if it cannot: an identity is
    /// unusable, or the process, its thread or its number is already known.
    pub open spec fn refusal_of_process(self, info: ProcessInfo) -> Option<ChannelError> {
        if !info.process.is_valid() || !info.thread.is_valid() {
            Some(ChannelError::InvalidIdentity)
        } else if info.process == info.thread || self.held.contains(info.process) || self.owns(
            info.process,
        ) || self.held.contains(info.thread) || self.owns(info.thread) || self.has_process_id(
            info.process_id,
        ) {
            Some(ChannelError::DuplicateIdentity)
        } else {
            None
        }
    }

    /// The error with which `reply` ends the launch, or `None` if the launch
    /// goes on.
    ///
    /// A reply that reports a failure ends it with that failure. A reply that
    /// does not answer the outstanding request, or hands over something that
    /// cannot be taken, ends it with an error of the channel layer. A launch
    /// that has failed keeps its first error.
    pub open spec fn verdict(self, reply: Reply) -> Option<Error> {
        match self.stage {
            LaunchStage::Idle => Some(Error::ChannelErr(ChannelError::UnexpectedReply)),
            LaunchStage::RollingBack(error) => Some(error),
            LaunchStage::CreatingProcess => match reply {
                Reply::Spawned(info) => match self.refusal_of_process(info) {
                    Some(refusal) => Some(Error::ChannelErr(refusal)),
                    None => None,
                },
                Reply::Failed(error) => Some(Error::Windows(error)),
                _ => Some(Error::ChannelErr(ChannelError::UnexpectedReply)),
            },
            _ => match reply {
                Reply::Created(h) => match self.refusal_of(h) {
                    Some(refusal) => Some(Error::ChannelErr(refusal)),
                    None => None,
                },
                Reply::Failed(error) => Some(Error::Windows(error)),
                _ => Some(Error::ChannelErr(ChannelError::UnexpectedReply)),
            },
        }
    }

    /// The next step of a launch that has failed with `error`: close the
    /// identity taken last, or, with none left, end the launch.
    pub open spec fn rolled_back(self, error: Error) -> (LauncherView, RequestView) {
        if self.held.len() > 0 {
            (
                LauncherView {
                    stage: LaunchStage::RollingBack(error),
                    held: self.held.drop_last(),
                    ..self
                },
                RequestView::Close { handle: self.held.last() },
            )
        } else {
            (
                LauncherView { stage: LaunchStage::Idle, exe: Seq::empty(), ..self },
                RequestView::Done(Err(error)),
            )
        }
    }

    /// The next step of a launch that goes on, once the reply's identities are
    /// taken.
    pub open spec fn proceeded(self, reply: Reply) -> (LauncherView, RequestView) {
        match self.stage {
            LaunchStage::CreatingMemory => (
                LauncherView { stage: LaunchStage::CreatingLock, ..self },
                RequestView::CreateLock { initially_owned: true, inheritable: true },
            ),
            LaunchStage::CreatingLock => (
                LauncherView { stage: LaunchStage::CreatingReadyEvent, ..self },
                event_request(),
            ),
            LaunchStage::CreatingReadyEvent => (
                LauncherView { stage: LaunchStage::CreatingAckEvent, ..self },
                event_request(),
            ),
            LaunchStage::CreatingAckEvent => if safe_executable(self.exe) {
                (
                    LauncherView { stage: LaunchStage::CreatingProcess, ..self },
                    RequestView::CreateProcess {
                        command_line: command_line(self.exe, bundle_of(self.held)),
                        inherit_handles: true,
                    },
                )
            } else {
                self.rolled_back(Error::ChannelErr(ChannelError::UnsafeExecutable))
            },
            LaunchStage::CreatingProcess => match (reply, creation(bundle_of(self.held))) {
                (Reply::Spawned(info), Ok(channel)) => (
                    LauncherView {
                        children: self.children.push(ChildView { info, channel }),
                        stage: LaunchStage::Idle,
                        exe: Seq::empty(),
                        held: Seq::empty(),
                    },
                    RequestView::Done(Ok(())),
                ),
                (_, Err(refusal)) => self.rolled_back(Error::ChannelErr(refusal)),
                _ => self.rolled_back(Error::ChannelErr(ChannelError::UnexpectedReply)),
            },
            _ => self.rolled_back(Error::ChannelErr(ChannelError::UnexpectedReply)),
        }
    }

    /// The launcher after `reply`, and its next request.
    pub open spec fn advanced(self, reply: Reply) -> (LauncherView, RequestView) {
        match self.verdict(reply) {
            Some(error) => self.absorbed(reply).rolled_back(error),
            None => self.absorbed(reply).proceeded(reply),
        }
    }

    /// The launcher after a launch of `exe` was asked for, and its first
    /// request. While a launch is in progress another is refused and nothing
    /// changes.
    pub open spec fn launched(self, exe: Seq<char>) -> (LauncherView, RequestView) {
        if self.stage != LaunchStage::Idle {
            (self, RequestView::Done(Err(Error::ChannelErr(ChannelError::Busy))))
        } else {
            (
                LauncherView { stage: LaunchStage::CreatingMemory, exe, ..self },
                RequestView::CreateMemory { size: CHANNEL_SIZE, inheritable: true },
            )
        }
    }

    /// The launcher with the channel to child number `index` replaced.
    pub open spec fn with_channel(self, index: int, channel: ChannelView) -> LauncherView
        recommends
            0 <= index < self.children.len(),
    {
        LauncherView {
            children: self.children.update(
                index,
                ChildView { info: self.children[index].info, channel },
            ),
            ..self
        }
    }

    /// The launcher without child number `index`; the children after it move
    /// up by one.
    pub open spec fn without_child(self, index: int) -> LauncherView
        recommends
            0 <= index < self.children.len(),
    {
        LauncherView { children: self.children.remove(index), ..self }
    }

    /// What asking for a write to child number `index` leads to: the launcher
    /// with that child's end begun to write, or the refusal.
    pub open spec fn write_begun(self, index: int, payload: Seq<u8>) -> Result<
        LauncherView,
        ChannelError,
    > {
        if !(0 <= index < self.children.len()) {
            Err(ChannelError::NoSuchChild)
        } else {
            match self.children[index].channel.write_begun(payload) {
                Ok(channel) => Ok(self.with_channel(index, channel)),
                Err(refusal) => Err(refusal),
            }
        }
    }

    /// What asking for a read from child number `index` leads to.
    pub open spec fn read_begun(self, index: int) -> Result<LauncherView, ChannelError> {
        if !(0 <= index < self.children.len()) {
            Err(ChannelError::NoSuchChild)
        } else {
            match self.children[index].channel.read_begun() {
                Ok(channel) => Ok(self.with_channel(index, channel)),
                Err(refusal) => Err(refusal),
            }
        }
    }

    /// The launcher after the operation that was due on the channel to child
    /// number `index` ended with `outcome`, and what the transfer has reached.
    /// Without such a child nothing changes.
    pub open spec fn completed(self, index: int, outcome: OutcomeView) -> (
        LauncherView,
        ProgressView,
    ) {
        if !(0 <= index < self.children.len()) {
            (self, ProgressView::Failed(Error::ChannelErr(ChannelError::NoSuchChild)))
        } else {
            let (channel, progress) = self.children[index].channel.completed(outcome);
            (self.with_channel(index, channel), progress)
        }
    }

    /// What holds of every launcher.
    ///
    /// No identity belongs to two children or twice to one, no two children
    /// run as the same process number, and what the launch in progress holds
    /// is usable, held once and not a child's. The number of identities held
    /// is the number of primitives created so far.
    pub open spec fn wf(self) -> bool {
        &&& forall|i: int| 0 <= i < self.children.len() ==> (#[trigger] self.children[i]).wf()
        &&& forall|i: int, j: int, h: Handle|
            0 <= i < j < self.children.len() && #[trigger] self.children[i].holds(h)
                ==> !#[trigger] self.children[j].holds(h)
        &&& forall|i: int, j: int|
            0 <= i < j < self.children.len() ==> (#[trigger] self.children[i]).info.process_id
                != (#[trigger] self.children[j]).info.process_id
        &&& forall|k: int|
            0 <= k < self.held.len() ==> (#[trigger] self.held[k]).is_valid() && !self.owns(
                self.held[k],
            )
        &&& self.held.no_duplicates()
        &&& match self.stage {
            LaunchStage::Idle | LaunchStage::CreatingMemory => self.held.len() == 0,
            LaunchStage::CreatingLock => self.held.len() == 1,
            LaunchStage::CreatingReadyEvent => self.held.len() == 2,
            LaunchStage::CreatingAckEvent => self.held.len() == 3,
            LaunchStage::CreatingProcess => self.held.len() == 4,
            LaunchStage::RollingBack(_) => true,
        }
    }
}

/// The launcher: the children launched so far, and the launch in progress.
#[derive(Debug)]
pub struct Launcher {
    children: Vec<Child>,
    stage: LaunchStage,
    exe: String,
    held: Vec<Handle>,
}

impl View for Launcher {
    type V = LauncherView;

    closed spec fn view(&self) -> LauncherView {
        LauncherView {
            children: Seq::new(self.children@.len(), |i: int| self.children@[i]@),
            stage: self.stage,
            exe: self.exe@,
            held: self.held@,
        }
    }
}

impl Launcher {
    /// A launcher without children.
    pub fn new() -> (launcher: Launcher)
        ensures
            launcher@ == LauncherView::empty(),
            launcher@.wf(),
    {
        let launcher = Launcher {
            children: Vec::new(),
            stage: LaunchStage::Idle,
            exe: String::new(),
            held: Vec::new(),
        };
        assert(launcher@.children =~= Seq::empty());
        launcher
    }

    /// The number of children.
    pub fn len(&self) -> (n: usize)
        ensures
            n == self@.children.len(),
    {
        self.children.len()
    }

    /// The child launched as number `index`, counting from zero.
    pub fn child(&self, index: usize) -> (child: Option<&Child>)
        ensures
            match child {
                Some(c) => index < self@.children.len() && c@ == self@.children[index as int],
                None => index >= self@.children.len(),
            },
    {
        if index < self.children.len() {
            Some(&self.children[index])
        } else {
            None
        }
    }

    /// The operation that is due on the channel to child number `index`, if
    /// there is such a child and something is due.
    pub fn pending(&self, index: usize) -> (due: Option<Op>)
        ensures
            match due {
                Some(op) => {
                    &&& index < self@.children.len()
                    &&& self@.children[index as int].channel.pending() == Some(op@)
                },
                None => {
                    ||| index >= self@.children.len()
                    ||| self@.children[index as int].channel.pending().is_none()
                },
            },
    {
        if index < self.children.len() {
            self.children[index].channel.pending()
        } else {
            None
        }
    }

    /// Begins writing `payload` to child number `index`.
    ///
    /// Refused with [`ChannelError::NoSuchChild`] if there is no such child,
    /// else as [`Channel::begin_write`] refuses. A refusal changes nothing;
    /// otherwise only that child's end of the channel changes.
    pub fn begin_write(&mut self, index: usize, payload: &Vec<u8>) -> (begun: Result<
        (),
        ChannelError,
    >)
        requires
            old(self)@.wf(),
        ensures
            final(self)@.wf(),
            match begun {
                Ok(_) => old(self)@.write_begun(index as int, payload@) == Ok::<
                    LauncherView,
                    ChannelError,
                >(final(self)@),
                Err(refusal) => old(self)@.write_begun(index as int, payload@) == Err::<
                    LauncherView,
                    ChannelError,
                >(refusal) && final(self)@ == old(self)@,
            },
    {
        if index >= self.children.len() {
            return Err(ChannelError::NoSuchChild);
        }
        let begun = self.children[index].channel.begin_write(payload);
        proof {
            let channel = self.children@[index as int].channel@;
            assert(self@.children =~= old(self)@.with_channel(index as int, channel).children);
            lemma_with_channel_wf(old(self)@, index as int, channel);
            if begun is Err {
                assert(self@.children =~= old(self)@.children);
            }
        }
        begun
    }

    /// Begins reading from child number `index`.
    ///
    /// Refused with [`ChannelError::NoSuchChild`] if there is no such child,
    /// else as [`Channel::begin_read`] refuses. A refusal changes nothing;
    /// otherwise only that child's end of the channel changes.
    pub fn begin_read(&mut self, index: usize) -> (begun: Result<(), ChannelError>)
        requires
            old(self)@.wf(),
        ensures
            final(self)@.wf(),
            match begun {
                Ok(_) => old(self)@.read_begun(index as int) == Ok::<LauncherView, ChannelError>(
                    final(self)@,
                ),
                Err(refusal) => old(self)@.read_begun(index as int) == Err::<
                    LauncherView,
                    ChannelError,
                >(refusal) && final(self)@ == old(self)@,
            },
    {
        if index >= self.children.len() {
            return Err(ChannelError::NoSuchChild);
        }
        let begun = self.children[index].channel.begin_read();
        proof {
            let channel = self.children@[index as int].channel@;
            assert(self@.children =~= old(self)@.with_channel(index as int, channel).children);
            lemma_with_channel_wf(old(self)@, index as int, channel);
            if begun is Err {
                assert(self@.children =~= old(self)@.children);
            }
        }
        begun
    }

    /// Accounts for the end of the operation that was due on the channel to
    /// child number `index`.
    ///
    /// Without such a child nothing changes and the result is `Failed` with
    /// [`ChannelError::NoSuchChild`]. Otherwise that child's end moves on as
    /// [`ChannelView::completed`] says, and nothing else changes.
    pub fn complete(&mut self, index: usize, outcome: Outcome) -> (progress: Progress)
        requires
            old(self)@.wf(),
        ensures
            final(self)@.wf(),
            (final(self)@, progress@) == old(self)@.completed(index as int, outcome@),
    {
        if index >= self.children.len() {
            return Progress::Failed(Error::ChannelErr(ChannelError::NoSuchChild));
        }
        let progress = self.children[index].channel.complete(outcome);
        proof {
            let channel = self.children@[index as int].channel@;
            assert(self@.children =~= old(self)@.with_channel(index as int, channel).children);
            lemma_with_channel_wf(old(self)@, index as int, channel);
        }
        progress
    }

    /// Gives up child number `index`: the child leaves the launcher, and its
    /// six identities are handed back for closing, in the order in which they
    /// were taken. The children after it move up by one.
    pub fn discard(&mut self, index: usize) -> (released: Option<Vec<Handle>>)
        requires
            old(self)@.wf(),
        ensures
            final(self)@.wf(),
            match released {
                Some(handles) => {
                    &&& index < old(self)@.children.len()
                    &&& handles@ == old(self)@.children[index as int].handles()
                    &&& final(self)@ == old(self)@.without_child(index as int)
                },
                None => index >= old(self)@.children.len() && final(self)@ == old(self)@,
            },
    {
        if index >= self.children.len() {
            return None;
        }
        let child = self.children.remove(index);
        let bundle = child.channel.bundle();
        let mut handles: Vec<Handle> = Vec::new();
        handles.push(bundle.memory);
        handles.push(bundle.lock);
        handles.push(bundle.ready_event);
        handles.push(bundle.ack_event);
        handles.push(child.info.process);
        handles.push(child.info.thread);
        proof {
            assert(self@.children =~= old(self)@.children.remove(index as int));
        }
        Some(handles)
    }

    /// How far the launch in progress has come.
    pub fn stage(&self) -> (stage: LaunchStage)
        ensures
            stage == self@.stage,
    {
        self.stage
    }

    /// Whether `h` belongs to one of the children.
    pub fn owns(&self, h: Handle) -> (b: bool)
        ensures
            b == self@.owns(h),
    {
        let mut i: usize = 0;
        while i < self.children.len()
            invariant
                i <= self.children@.len(),
                forall|k: int| 0 <= k < i ==> !(#[trigger] self@.children[k]).holds(h),
            decreases self.children@.len() - i,
        {
            if self.children[i].holds(h) {
                assert(self@.children[i as int].holds(h));
                return true;
            }
            i = i + 1;
        }
        false
    }

    /// Whether one of the children runs as process number `id`.
    pub fn has_process_id(&self, id: u32) -> (b: bool)
        ensures
            b == self@.has_process_id(id),
    {
        let mut i: usize = 0;
        while i < self.children.len()
            invariant
                i <= self.children@.len(),
                forall|k: int| 0 <= k < i ==> (#[trigger] self@.children[k]).info.process_id != id,
            decreases self.children@.len() - i,
        {
            if self.children[i].info.process_id == id {
                assert(self@.children[i as int].info.process_id == id);
                return true;
            }
            i = i + 1;
        }
        false
    }

    fn holds(&self, h: Handle) -> (b: bool)
        ensures
            b == self@.held.contains(h),
    {
        let mut i: usize = 0;
        while i < self.held.len()
            invariant
                i <= self.held@.len(),
                forall|k: int| 0 <= k < i ==> self.held@[k] != h,
            decreases self.held@.len() - i,
        {
            if self.held[i] == h {
                return true;
            }
            i = i + 1;
        }
        false
    }

    fn refusal_of(&self, h: Handle) -> (refusal: Option<ChannelError>)
        ensures
            refusal == self@.refusal_of(h),
    {
        if !h.valid() {
            Some(ChannelError::InvalidIdentity)
        } else if self.holds(h) || self.owns(h) {
            Some(ChannelError::DuplicateIdentity)
        } else {
            None
        }
    }

    fn refusal_of_process(&self, info: ProcessInfo) -> (refusal: Option<ChannelError>)
        ensures
            refusal == self@.refusal_of_process(info),
    {
        if !info.process.valid() || !info.thread.valid() {
            Some(ChannelError::InvalidIdentity)
        } else if info.process == info.thread || self.holds(info.process) || self.owns(
            info.process,
        ) || self.holds(info.thread) || self.owns(info.thread) || self.has_process_id(
            info.process_id,
        ) {
            Some(ChannelError::DuplicateIdentity)
        } else {
            None
        }
    }

    fn verdict(&self, reply: Reply) -> (verdict: Option<Error>)
        ensures
            verdict == self@.verdict(reply),
    {
        match self.stage {
            LaunchStage::Idle => Some(Error::ChannelErr(ChannelError::UnexpectedReply)),
            LaunchStage::RollingBack(error) => Some(error),
            LaunchStage::CreatingProcess => match reply {
                Reply::Spawned(info) => match self.refusal_of_process(info) {
                    Some(refusal) => Some(Error::ChannelErr(refusal)),
                    None => None,
                },
                Reply::Failed(error) => Some(Error::Windows(error)),
                _ => Some(Error::ChannelErr(ChannelError::UnexpectedReply)),
            },
            _ => match reply {
                Reply::Created(h) => match self.refusal_of(h) {
                    Some(refusal) => Some(Error::ChannelErr(refusal)),
                    None => None,
                },
                Reply::Failed(error) => Some(Error::Windows(error)),
                _ => Some(Error::ChannelErr(ChannelError::UnexpectedReply)),
            },
        }
    }

    fn hold(&mut self, h: Handle)
        ensures
            final(self)@ == old(self)@.holding(h),
    {
        if h.valid() && !self.holds(h) && !self.owns(h) {
            self.held.push(h);
        }
    }

    fn absorb(&mut self, reply: Reply)
        ensures
            final(self)@ == old(self)@.absorbed(reply),
    {
        match reply {
            Reply::Created(h) => {
                self.hold(h);
            },
            Reply::Spawned(info) => {
                self.hold(info.process);
                self.hold(info.thread);
            },
            Reply::Closed | Reply::Failed(_) => {},
        }
    }

    fn roll_back(&mut self, error: Error) -> (request: Request)
        ensures
            (final(self)@, request@) == old(self)@.rolled_back(error),
    {
        match self.held.pop() {
            Some(handle) => {
                self.stage = LaunchStage::RollingBack(error);
                Request::Close { handle }
            },
            None => {
                self.stage = LaunchStage::Idle;
                self.exe = String::new();
                Request::Done(Err(error))
            },
        }
    }

    fn bundle(&self) -> (bundle: SynchronizationBundle)
        requires
            self@.held.len() >= 4,
        ensures
            bundle == bundle_of(self@.held),
    {
        SynchronizationBundle {
            memory: self.held[0],
            lock: self.held[1],
            ready_event: self.held[2],
            ack_event: self.held[3],
        }
    }

    fn proceed(&mut self, reply: Reply) -> (request: Request)
        requires
            old(self)@.stage != LaunchStage::Idle,
            !(old(self)@.stage is RollingBack),
            old(self)@.held.len() >= 4 || (old(self)@.stage != LaunchStage::CreatingAckEvent
                && old(self)@.stage != LaunchStage::CreatingProcess),
        ensures
            (final(self)@, request@) == old(self)@.proceeded(reply),
    {
        match self.stage {
            LaunchStage::CreatingMemory => {
                self.stage = LaunchStage::CreatingLock;
                Request::CreateLock { initially_owned: true, inheritable: true }
            },
            LaunchStage::CreatingLock => {
                self.stage = LaunchStage::CreatingReadyEvent;
                Request::CreateEvent { manual_reset: true, signaled: false, inheritable: true }
            },
            LaunchStage::CreatingReadyEvent => {
                self.stage = LaunchStage::CreatingAckEvent;
                Request::CreateEvent { manual_reset: true, signaled: false, inheritable: true }
            },
            LaunchStage::CreatingAckEvent => {
                let args = ChannelArgs { exe: self.exe.clone(), bundle: self.bundle() };
                match result_from_channel(args.to_cmd_line()) {
                    Ok(command_line) => {
                        self.stage = LaunchStage::CreatingProcess;
                        Request::CreateProcess { command_line, inherit_handles: true }
                    },
                    Err(error) => self.roll_back(error),
                }
            },
            LaunchStage::CreatingProcess => {
                let args = ChannelArgs { exe: self.exe.clone(), bundle: self.bundle() };
                match reply {
                    Reply::Spawned(info) => match result_from_channel(Channel::create(args)) {
                        Ok(channel) => {
                            self.children.push(Child { info, channel });
                            self.stage = LaunchStage::Idle;
                            self.exe = String::new();
                            self.held = Vec::new();
                            assert(final(self)@.children =~= old(self)@.children.push(
                                ChildView { info, channel: channel@ },
                            ));
                            Request::Done(Ok(()))
                        },
                        Err(error) => self.roll_back(error),
                    },
                    _ => match result_from_channel(Channel::create(args)) {
                        Ok(_) => self.roll_back(Error::ChannelErr(ChannelError::UnexpectedReply)),
                        Err(error) => self.roll_back(error),
                    },
                }
            },
            _ => self.roll_back(Error::ChannelErr(ChannelError::UnexpectedReply)),
        }
    }

    /// Starts the launch of `exe` and hands back its first request: the shared
    /// memory of `CHANNEL_SIZE` bytes, inheritable.
    ///
    /// While a launch is in progress nothing changes and the request is
    /// `Done` with [`ChannelError::Busy`].
    pub fn launch(&mut self, exe: String) -> (request: Request)
        requires
            old(self)@.wf(),
        ensures
            final(self)@.wf(),
            (final(self)@, request@) == old(self)@.launched(exe@),
    {
        if self.stage != LaunchStage::Idle {
            return Request::Done(Err(Error::ChannelErr(ChannelError::Busy)));
        }
        self.stage = LaunchStage::CreatingMemory;
        self.exe = exe;
        Request::CreateMemory { size: CHANNEL_SIZE, inheritable: true }
    }

    /// Takes the reply to the outstanding request and hands back the next
    /// request.
    ///
    /// The launcher moves on as [`LauncherView::advanced`] says. The launch
    /// has ended when the request is `Done`: with `Ok`, the child is the last
    /// of the children and owns all that the launch took; with `Err`, the
    /// children are as before the launch and nothing is held any more.
    pub fn advance(&mut self, reply: Reply) -> (request: Request)
        requires
            old(self)@.wf(),
        ensures
            final(self)@.wf(),
            (final(self)@, request@) == old(self)@.advanced(reply),
            request@ is Done ==> final(self)@.stage == LaunchStage::Idle,
            request@ is Done ==> final(self)@.held.len() == 0,
            request@ matches RequestView::Done(Ok(_)) ==> final(self)@.children.drop_last()
                == old(self)@.children,
            request@ matches RequestView::Done(Ok(_)) ==> final(self)@.children.len()
                == old(self)@.children.len() + 1,
            !(request@ matches RequestView::Done(Ok(_))) ==> final(self)@.children
                == old(self)@.children,
    {
        let verdict = self.verdict(reply);
        self.absorb(reply);
        match verdict {
            Some(error) => self.roll_back(error),
            None => self.proceed(reply),
        }
    }
}

/// Moving one child's end of its channel on, over the same bundle, keeps the
/// launcher well formed.
pub proof fn lemma_with_channel_wf(launcher: LauncherView, index: int, channel: ChannelView)
    requires
        launcher.wf(),
        0 <= index < launcher.children.len(),
        channel.wf(),
        channel.bundle == launcher.children[index].channel.bundle,
    ensures
        launcher.with_channel(index, channel).wf(),
{
    let next = launcher.with_channel(index, channel);
    assert forall|i: int, h: Handle| 0 <= i < next.children.len() implies (
    #[trigger] next.children[i].holds(h)) == launcher.children[i].holds(h) by {}
    assert forall|i: int| 0 <= i < next.children.len() implies (#[trigger] next.children[i]).wf() by {}
    assert forall|i: int, j: int| 0 <= i < j < next.children.len() implies (
    #[trigger] next.children[i]).info.process_id != (#[trigger] next.children[j]).info.process_id by {}
    assert forall|h: Handle| next.owns(h) == launcher.owns(h) by {
        if launcher.owns(h) {
            let i = choose|i: int|
                0 <= i < launcher.children.len() && #[trigger] launcher.children[i].holds(h);
            assert(next.children[i].holds(h));
        }
    }
}

/// A step of a launch keeps the launcher well formed.
pub proof fn lemma_advanced_wf(launcher: LauncherView, reply: Reply)
    requires
        launcher.wf(),
    ensures
        launcher.advanced(reply).0.wf(),
{
}

} // verus!
