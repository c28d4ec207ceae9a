//! One end of a channel and its half of the handshake.
//!
//! A [`Channel`] never touches a primitive itself. It says which operation is
//! due next ([`Channel::pending`]), and is told how that operation ended
//! ([`Channel::complete`]). Whoever drives it performs the operation, blocking
//! where the operation blocks.
//!
//! Writing a message: acquire the lock, store the frame, release the lock,
//! signal the ready event, wait for the ack event, reset it. Reading one: wait
//! for the ready event, reset it, acquire the lock, load the slot, release the
//! lock, signal the ack event.

use vstd::prelude::*;
use crate::bundle::{SynchronizationBundle, CHANNEL_SIZE};
use crate::cmdline::ChannelArgs;
use crate::error::{ChannelError, Error, OsError};
use crate::frame::{decode_frame, encode_frame, fits, frame_of, payload_in};

verus! {

/// Which of the two processes an end belongs to.
#[derive(Clone, Copy, Debug, PartialEq, Eq, Structural)]
pub enum Side {
    /// The process that created the bundle.
    Creator,
    /// The process that inherited it.
    Peer,
}

/// Where an end stands: each stage but `Idle` names the one operation that is
/// due next.
#[derive(Clone, Copy, Debug, PartialEq, Eq, Structural)]
pub enum Stage {
    /// The creator still owns the lock it created; releasing it is due.
    Owning,
    /// Nothing is in progress.
    Idle,
    /// Writing: acquiring the lock is due.
    WriteLocking,
    /// Writing: the lock is held; storing the frame is due.
    WriteStoring,
    /// Writing: the frame is stored; releasing the lock is due.
    WriteUnlocking,
    /// Writing: signaling the ready event is due.
    WriteSignaling,
    /// Writing: waiting for the ack event is due.
    WriteWaiting,
    /// Writing: the ack event was seen; resetting it is due.
    WriteClearing,
    /// Reading: waiting for the ready event is due.
    ReadWaiting,
    /// Reading: the ready event was seen; resetting it is due.
    ReadClearing,
    /// Reading: acquiring the lock is due.
    ReadLocking,
    /// Reading: the lock is held; loading the slot is due.
    ReadLoading,
    /// Reading: the payload is taken; releasing the lock is due.
    ReadUnlocking,
    /// Reading: signaling the ack event is due.
    ReadAcking,
    /// A transfer failed while the lock was held; releasing the lock is due.
    Aborting,
}

/// The coarse state of an end.
#[derive(Clone, Copy, Debug, PartialEq, Eq, Structural)]
pub enum Phase {
    /// Not holding the lock, nothing stored or taken yet.
    Idle,
    /// Holding the lock.
    HoldingLock,
    /// Done with the slot and about to signal the other end.
    Signaled,
    /// A writer that has signaled and has not yet cleared the acknowledgment.
    AwaitingAck,
}

/// An operation on the bundle's primitives.
#[derive(Debug, PartialEq, Eq)]
pub enum Op {
    /// Block until the lock is free, then own it.
    AcquireLock,
    /// Give the lock up.
    ReleaseLock,
    /// Copy these bytes to the start of the slot.
    Store(Vec<u8>),
    /// Copy the slot out.
    Load,
    /// Signal the ready event.
    SetReady,
    /// Return the ready event to unsignaled.
    ResetReady,
    /// Block until the ready event is signaled.
    WaitReady,
    /// Signal the ack event.
    SetAck,
    /// Return the ack event to unsignaled.
    ResetAck,
    /// Block until the ack event is signaled.
    WaitAck,
}

/// An [`Op`] with its bytes as a sequence.
pub enum OpView {
    AcquireLock,
    ReleaseLock,
    Store(Seq<u8>),
    Load,
    SetReady,
    ResetReady,
    WaitReady,
    SetAck,
    ResetAck,
    WaitAck,
}

impl View for Op {
    type V = OpView;

    open spec fn view(&self) -> OpView {
        match self {
            Op::AcquireLock => OpView::AcquireLock,
            Op::ReleaseLock => OpView::ReleaseLock,
            Op::Store(bytes) => OpView::Store(bytes@),
            Op::Load => OpView::Load,
            Op::SetReady => OpView::SetReady,
            Op::ResetReady => OpView::ResetReady,
            Op::WaitReady => OpView::WaitReady,
            Op::SetAck => OpView::SetAck,
            Op::ResetAck => OpView::ResetAck,
            Op::WaitAck => OpView::WaitAck,
        }
    }
}

/// How an operation ended.
#[derive(Debug, PartialEq, Eq)]
pub enum Outcome {
    /// It was carried out.
    Completed,
    /// A load was carried out and found these bytes in the slot.
    Loaded(Vec<u8>),
    /// The lock was acquired, but only because its last owner ended without
    /// releasing it.
    Abandoned,
    /// The operating system refused it, or a wait was given up: whoever
    /// waits with a time limit reports its expiry so.
    Failed(OsError),
}

/// An [`Outcome`] with its bytes as a sequence.
pub enum OutcomeView {
    Completed,
    Loaded(Seq<u8>),
    Abandoned,
    Failed(OsError),
}

impl View for Outcome {
    type V = OutcomeView;

    open spec fn view(&self) -> OutcomeView {
        match self {
            Outcome::Completed => OutcomeView::Completed,
            Outcome::Loaded(bytes) => OutcomeView::Loaded(bytes@),
            Outcome::Abandoned => OutcomeView::Abandoned,
            Outcome::Failed(error) => OutcomeView::Failed(*error),
        }
    }
}

/// What an end has reached once an operation is accounted for.
#[derive(Debug, PartialEq, Eq)]
pub enum Progress {
    /// Another operation is due.
    More,
    /// The creator has given up the lock it was created with.
    Released,
    /// The message was taken by the other end and acknowledged.
    Written,
    /// A message was taken out of the slot: this is its payload.
    Received(Vec<u8>),
    /// The transfer was given up.
    Failed(Error),
}

/// A [`Progress`] with its bytes as a sequence.
pub enum ProgressView {
    More,
    Released,
    Written,
    Received(Seq<u8>),
    Failed(Error),
}

impl View for Progress {
    type V = ProgressView;

    open spec fn view(&self) -> ProgressView {
        match self {
            Progress::More => ProgressView::More,
            Progress::Released => ProgressView::Released,
            Progress::Written => ProgressView::Written,
            Progress::Received(payload) => ProgressView::Received(payload@),
            Progress::Failed(error) => ProgressView::Failed(*error),
        }
    }
}

/// Whether an end at this stage owns the lock.
pub open spec fn holds_lock(stage: Stage) -> bool {
    stage == Stage::Owning || stage == Stage::WriteStoring || stage == Stage::WriteUnlocking
        || stage == Stage::ReadLoading || stage == Stage::ReadUnlocking || stage
        == Stage::Aborting
}

/// The coarse state that a stage belongs to.
pub open spec fn phase_of(stage: Stage) -> Phase {
    match stage {
        Stage::Idle | Stage::WriteLocking | Stage::ReadWaiting | Stage::ReadClearing
        | Stage::ReadLocking => Phase::Idle,
        Stage::Owning | Stage::WriteStoring | Stage::WriteUnlocking | Stage::ReadLoading
        | Stage::ReadUnlocking | Stage::Aborting => Phase::HoldingLock,
        Stage::WriteSignaling | Stage::ReadAcking => Phase::Signaled,
        Stage::WriteWaiting | Stage::WriteClearing => Phase::AwaitingAck,
    }
}

/// One end of a channel as a mathematical value.
pub struct ChannelView {
    /// The primitives behind the channel.
    pub bundle: SynchronizationBundle,
    /// The process this end belongs to.
    pub side: Side,
    /// The size of the slot in bytes.
    pub size: nat,
    /// Where the end stands.
    pub stage: Stage,
    /// The frame of the message being written; empty outside a write.
    pub outgoing: Seq<u8>,
    /// The payload taken out of the slot; empty until a read has loaded one.
    pub incoming: Seq<u8>,
    /// Why the transfer is being given up; set only while aborting.
    pub failure: Option<Error>,
}

impl ChannelView {
    /// The creator's end right after the bundle was created: it owns the lock.
    pub open spec fn created(bundle: SynchronizationBundle) -> ChannelView {
        ChannelView {
            bundle,
            side: Side::Creator,
            size: CHANNEL_SIZE as nat,
            stage: Stage::Owning,
            outgoing: Seq::empty(),
            incoming: Seq::empty(),
            failure: None,
        }
    }

    /// The peer's end right after it attached to an inherited bundle.
    pub open spec fn attached(bundle: SynchronizationBundle) -> ChannelView {
        ChannelView {
            bundle,
            side: Side::Peer,
            size: CHANNEL_SIZE as nat,
            stage: Stage::Idle,
            outgoing: Seq::empty(),
            incoming: Seq::empty(),
            failure: None,
        }
    }

    /// This end at another stage, all else unchanged.
    pub open spec fn at(self, stage: Stage) -> ChannelView {
        ChannelView { stage, ..self }
    }

    /// This end with nothing in progress.
    pub open spec fn rested(self) -> ChannelView {
        ChannelView {
            stage: Stage::Idle,
            outgoing: Seq::empty(),
            incoming: Seq::empty(),
            failure: None,
            ..self
        }
    }

    /// The operation that is due, if any.
    pub open spec fn pending(self) -> Option<OpView> {
        match self.stage {
            Stage::Idle => None,
            Stage::Owning | Stage::WriteUnlocking | Stage::ReadUnlocking | Stage::Aborting => Some(
                OpView::ReleaseLock,
            ),
            Stage::WriteLocking | Stage::ReadLocking => Some(OpView::AcquireLock),
            Stage::WriteStoring => Some(OpView::Store(self.outgoing)),
            Stage::WriteSignaling => Some(OpView::SetReady),
            Stage::WriteWaiting => Some(OpView::WaitAck),
            Stage::WriteClearing => Some(OpView::ResetAck),
            Stage::ReadWaiting => Some(OpView::WaitReady),
            Stage::ReadClearing => Some(OpView::ResetReady),
            Stage::ReadLoading => Some(OpView::Load),
            Stage::ReadAcking => Some(OpView::SetAck),
        }
    }

    /// What asking this end to write `payload` leads to: the end with the write
    /// begun, or the refusal.
    pub open spec fn write_begun(self, payload: Seq<u8>) -> Result<ChannelView, ChannelError> {
        if self.stage != Stage::Idle {
            Err(ChannelError::Busy)
        } else if !fits(payload, self.size) {
            Err(ChannelError::PayloadTooLarge)
        } else {
            Ok(ChannelView { stage: Stage::WriteLocking, outgoing: frame_of(payload), ..self })
        }
    }

    /// What asking this end to read leads to.
    pub open spec fn read_begun(self) -> Result<ChannelView, ChannelError> {
        if self.stage != Stage::Idle {
            Err(ChannelError::Busy)
        } else {
            Ok(ChannelView { stage: Stage::ReadWaiting, ..self })
        }
    }

    /// The end after the due operation was carried out, and what that reaches.
    /// For a load, see [`ChannelView::completed`].
    pub open spec fn advanced(self) -> (ChannelView, ProgressView) {
        match self.stage {
            Stage::Owning => (self.rested(), ProgressView::Released),
            Stage::WriteLocking => (self.at(Stage::WriteStoring), ProgressView::More),
            Stage::WriteStoring => (self.at(Stage::WriteUnlocking), ProgressView::More),
            Stage::WriteUnlocking => (self.at(Stage::WriteSignaling), ProgressView::More),
            Stage::WriteSignaling => (self.at(Stage::WriteWaiting), ProgressView::More),
            Stage::WriteWaiting => (self.at(Stage::WriteClearing), ProgressView::More),
            Stage::WriteClearing => (self.rested(), ProgressView::Written),
            Stage::ReadWaiting => (self.at(Stage::ReadClearing), ProgressView::More),
            Stage::ReadClearing => (self.at(Stage::ReadLocking), ProgressView::More),
            Stage::ReadLocking => (self.at(Stage::ReadLoading), ProgressView::More),
            Stage::ReadUnlocking => (self.at(Stage::ReadAcking), ProgressView::More),
            Stage::ReadAcking => (self.rested(), ProgressView::Received(self.incoming)),
            Stage::Idle | Stage::ReadLoading | Stage::Aborting => (self, ProgressView::More),
        }
    }

    /// The end after the transfer broke with `error`: if the lock is held and
    /// its release is not what just ended, releasing it comes first.
    pub open spec fn broken(self, error: Error) -> (ChannelView, ProgressView) {
        if self.stage == Stage::WriteStoring || self.stage == Stage::ReadLoading {
            (
                ChannelView {
                    stage: Stage::Aborting,
                    outgoing: Seq::empty(),
                    incoming: Seq::empty(),
                    failure: Some(error),
                    ..self
                },
                ProgressView::More,
            )
        } else {
            (self.rested(), ProgressView::Failed(error))
        }
    }

    /// The end after it was handed a lock that the other end had left behind:
    /// the transfer is given up, and releasing the lock comes first. An end
    /// that had not asked for the lock takes the outcome as out of place.
    pub open spec fn orphaned(self) -> (ChannelView, ProgressView) {
        if self.stage == Stage::WriteLocking || self.stage == Stage::ReadLocking {
            (
                ChannelView {
                    stage: Stage::Aborting,
                    outgoing: Seq::empty(),
                    incoming: Seq::empty(),
                    failure: Some(Error::ChannelErr(ChannelError::Abandoned)),
                    ..self
                },
                ProgressView::More,
            )
        } else {
            self.broken(Error::ChannelErr(ChannelError::UnexpectedReply))
        }
    }

    /// The end after the due operation ended with `outcome`, and what that
    /// reaches.
    ///
    /// With nothing due, the end stays as it is and the outcome is refused.
    /// While aborting, the release ends the transfer with the first failure,
    /// however the release itself went. A load must hand back bytes that hold
    /// a frame; every other operation must simply be carried out. Anything
    /// else breaks the transfer.
    pub open spec fn completed(self, outcome: OutcomeView) -> (ChannelView, ProgressView) {
        match self.stage {
            Stage::Idle => (self, ProgressView::Failed(Error::ChannelErr(ChannelError::UnexpectedReply))),
            Stage::Aborting => (
                self.rested(),
                ProgressView::Failed(
                    match self.failure {
                        Some(error) => error,
                        None => Error::ChannelErr(ChannelError::UnexpectedReply),
                    },
                ),
            ),
            Stage::ReadLoading => match outcome {
                OutcomeView::Loaded(bytes) => match payload_in(bytes) {
                    Some(payload) => (
                        ChannelView { stage: Stage::ReadUnlocking, incoming: payload, ..self },
                        ProgressView::More,
                    ),
                    None => self.broken(Error::ChannelErr(ChannelError::MalformedFrame)),
                },
                OutcomeView::Failed(error) => self.broken(Error::Windows(error)),
                OutcomeView::Completed | OutcomeView::Abandoned => self.broken(
                    Error::ChannelErr(ChannelError::UnexpectedReply),
                ),
            },
            _ => match outcome {
                OutcomeView::Completed => self.advanced(),
                OutcomeView::Abandoned => self.orphaned(),
                OutcomeView::Failed(error) => self.broken(Error::Windows(error)),
                OutcomeView::Loaded(_) => self.broken(
                    Error::ChannelErr(ChannelError::UnexpectedReply),
                ),
            },
        }
    }

    /// What holds of every end: payload bytes are kept only while the stage
    /// needs them, and a frame in flight fits the slot.
    pub open spec fn wf(self) -> bool {
        &&& self.size < 0x1_0000_0000
        &&& self.failure.is_some() <==> self.stage == Stage::Aborting
        &&& (self.stage == Stage::ReadUnlocking || self.stage == Stage::ReadAcking
            || self.incoming.len() == 0)
        &&& match self.stage {
            Stage::WriteLocking | Stage::WriteStoring | Stage::WriteUnlocking
            | Stage::WriteSignaling | Stage::WriteWaiting | Stage::WriteClearing => exists|
                payload: Seq<u8>,
            |
                fits(payload, self.size) && self.outgoing == #[trigger] frame_of(payload),
            _ => self.outgoing.len() == 0,
        }
    }
}

/// One end of a channel: the bundle it runs over and its place in the
/// handshake.
#[derive(Debug)]
pub struct Channel {
    bundle: SynchronizationBundle,
    side: Side,
    size: u32,
    stage: Stage,
    outgoing: Vec<u8>,
    incoming: Vec<u8>,
    failure: Option<Error>,
}

impl View for Channel {
    type V = ChannelView;

    closed spec fn view(&self) -> ChannelView {
        ChannelView {
            bundle: self.bundle,
            side: self.side,
            size: self.size as nat,
            stage: self.stage,
            outgoing: self.outgoing@,
            incoming: self.incoming@,
            failure: self.failure,
        }
    }
}

/// What [`Channel::create`] makes of a bundle: the creator's end, unless an
/// identity is unusable or stands for two primitives.
pub open spec fn creation(bundle: SynchronizationBundle) -> Result<ChannelView, ChannelError> {
    if !bundle.all_valid() {
        Err(ChannelError::InvalidIdentity)
    } else if !bundle.all_distinct() {
        Err(ChannelError::DuplicateIdentity)
    } else {
        Ok(ChannelView::created(bundle))
    }
}

fn copy_of(bytes: &Vec<u8>) -> (copy: Vec<u8>)
    ensures
        copy@ == bytes@,
{
    let mut copy: Vec<u8> = Vec::new();
    let mut i: usize = 0;
    while i < bytes.len()
        invariant
            i <= bytes@.len(),
            copy@ == bytes@.subrange(0, i as int),
        decreases bytes@.len() - i,
    {
        copy.push(bytes[i]);
        i = i + 1;
    }
    copy
}

impl Channel {
    /// The creator's end of a channel over a freshly created bundle.
    ///
    /// The end owns the lock, as the bundle's creator does. The bundle is
    /// refused with [`ChannelError::InvalidIdentity`] if one of its identities
    /// cannot name an object, else with [`ChannelError::DuplicateIdentity`] if
    /// two of them coincide.
    pub fn create(args: ChannelArgs) -> (made: Result<Channel, ChannelError>)
        ensures
            match made {
                Ok(channel) => creation(args.bundle) == Ok::<ChannelView, ChannelError>(channel@),
                Err(refusal) => creation(args.bundle) == Err::<ChannelView, ChannelError>(
                    refusal,
                ),
            },
            made matches Ok(channel) ==> channel@.wf(),
    {
        if !args.bundle.is_all_valid() {
            return Err(ChannelError::InvalidIdentity);
        }
        if !args.bundle.is_all_distinct() {
            return Err(ChannelError::DuplicateIdentity);
        }
        Ok(
            Channel {
                bundle: args.bundle,
                side: Side::Creator,
                size: CHANNEL_SIZE,
                stage: Stage::Owning,
                outgoing: Vec::new(),
                incoming: Vec::new(),
                failure: None,
            },
        )
    }

    /// The peer's end of a channel over an inherited bundle, refused as
    /// [`Channel::create`] refuses. The peer starts with nothing in progress.
    pub fn attach(bundle: SynchronizationBundle) -> (made: Result<Channel, ChannelError>)
        ensures
            match made {
                Ok(channel) => bundle.wf() && channel@ == ChannelView::attached(bundle),
                Err(refusal) => creation(bundle) == Err::<ChannelView, ChannelError>(refusal),
            },
            made matches Ok(channel) ==> channel@.wf(),
    {
        if !bundle.is_all_valid() {
            return Err(ChannelError::InvalidIdentity);
        }
        if !bundle.is_all_distinct() {
            return Err(ChannelError::DuplicateIdentity);
        }
        Ok(
            Channel {
                bundle,
                side: Side::Peer,
                size: CHANNEL_SIZE,
                stage: Stage::Idle,
                outgoing: Vec::new(),
                incoming: Vec::new(),
                failure: None,
            },
        )
    }

    /// The primitives behind the channel.
    pub fn bundle(&self) -> (bundle: SynchronizationBundle)
        ensures
            bundle == self@.bundle,
    {
        self.bundle
    }

    /// The process this end belongs to.
    pub fn side(&self) -> (side: Side)
        ensures
            side == self@.side,
    {
        self.side
    }

    /// The size of the slot in bytes.
    pub fn size(&self) -> (size: u32)
        ensures
            size == self@.size,
    {
        self.size
    }

    /// Where the end stands.
    pub fn stage(&self) -> (stage: Stage)
        ensures
            stage == self@.stage,
    {
        self.stage
    }

    /// The coarse state of the end.
    pub fn phase(&self) -> (phase: Phase)
        ensures
            phase == phase_of(self@.stage),
    {
        match self.stage {
            Stage::Idle | Stage::WriteLocking | Stage::ReadWaiting | Stage::ReadClearing
            | Stage::ReadLocking => Phase::Idle,
            Stage::Owning | Stage::WriteStoring | Stage::WriteUnlocking | Stage::ReadLoading
            | Stage::ReadUnlocking | Stage::Aborting => Phase::HoldingLock,
            Stage::WriteSignaling | Stage::ReadAcking => Phase::Signaled,
            Stage::WriteWaiting | Stage::WriteClearing => Phase::AwaitingAck,
        }
    }

    /// The operation that is due, if any.
    pub fn pending(&self) -> (due: Option<Op>)
        ensures
            match due {
                Some(op) => self@.pending() == Some(op@),
                None => self@.pending().is_none(),
            },
    {
        match self.stage {
            Stage::Idle => None,
            Stage::Owning | Stage::WriteUnlocking | Stage::ReadUnlocking | Stage::Aborting => Some(
                Op::ReleaseLock,
            ),
            Stage::WriteLocking | Stage::ReadLocking => Some(Op::AcquireLock),
            Stage::WriteStoring => Some(Op::Store(copy_of(&self.outgoing))),
            Stage::WriteSignaling => Some(Op::SetReady),
            Stage::WriteWaiting => Some(Op::WaitAck),
            Stage::WriteClearing => Some(Op::ResetAck),
            Stage::ReadWaiting => Some(Op::WaitReady),
            Stage::ReadClearing => Some(Op::ResetReady),
            Stage::ReadLoading => Some(Op::Load),
            Stage::ReadAcking => Some(Op::SetAck),
        }
    }

    /// Begins writing `payload`: acquiring the lock becomes due.
    ///
    /// Refused with [`ChannelError::Busy`] unless the end is idle, else with
    /// [`ChannelError::PayloadTooLarge`] if the frame does not fit the slot. A
    /// refusal leaves the end as it was.
    pub fn begin_write(&mut self, payload: &Vec<u8>) -> (begun: Result<(), ChannelError>)
        requires
            old(self)@.wf(),
        ensures
            final(self)@.wf(),
            match begun {
                Ok(_) => old(self)@.write_begun(payload@) == Ok::<ChannelView, ChannelError>(
                    final(self)@,
                ),
                Err(refusal) => old(self)@.write_begun(payload@) == Err::<
                    ChannelView,
                    ChannelError,
                >(refusal) && final(self)@ == old(self)@,
            },
    {
        if self.stage != Stage::Idle {
            return Err(ChannelError::Busy);
        }
        match encode_frame(payload, self.size) {
            Ok(frame) => {
                self.outgoing = frame;
                self.stage = Stage::WriteLocking;
                Ok(())
            },
            Err(refusal) => Err(refusal),
        }
    }

    /// Begins reading: waiting for the ready event becomes due.
    ///
    /// Refused with [`ChannelError::Busy`] unless the end is idle; a refusal
    /// leaves the end as it was.
    pub fn begin_read(&mut self) -> (begun: Result<(), ChannelError>)
        requires
            old(self)@.wf(),
        ensures
            final(self)@.wf(),
            match begun {
                Ok(_) => old(self)@.read_begun() == Ok::<ChannelView, ChannelError>(final(self)@),
                Err(refusal) => old(self)@.read_begun() == Err::<ChannelView, ChannelError>(
                    refusal,
                ) && final(self)@ == old(self)@,
            },
    {
        if self.stage != Stage::Idle {
            return Err(ChannelError::Busy);
        }
        self.stage = Stage::ReadWaiting;
        Ok(())
    }

    fn rest(&mut self)
        ensures
            final(self)@ == old(self)@.rested(),
    {
        self.stage = Stage::Idle;
        self.outgoing = Vec::new();
        self.incoming = Vec::new();
        self.failure = None;
    }

    fn fail(&mut self, error: Error) -> (progress: Progress)
        ensures
            (final(self)@, progress@) == old(self)@.broken(error),
    {
        if self.stage == Stage::WriteStoring || self.stage == Stage::ReadLoading {
            self.stage = Stage::Aborting;
            self.outgoing = Vec::new();
            self.incoming = Vec::new();
            self.failure = Some(error);
            Progress::More
        } else {
            self.rest();
            Progress::Failed(error)
        }
    }

    fn orphan(&mut self) -> (progress: Progress)
        ensures
            (final(self)@, progress@) == old(self)@.orphaned(),
    {
        if self.stage == Stage::WriteLocking || self.stage == Stage::ReadLocking {
            self.stage = Stage::Aborting;
            self.outgoing = Vec::new();
            self.incoming = Vec::new();
            self.failure = Some(Error::ChannelErr(ChannelError::Abandoned));
            Progress::More
        } else {
            self.fail(Error::ChannelErr(ChannelError::UnexpectedReply))
        }
    }

    fn advance(&mut self) -> (progress: Progress)
        requires
            old(self)@.stage != Stage::Idle,
            old(self)@.stage != Stage::ReadLoading,
            old(self)@.stage != Stage::Aborting,
        ensures
            (final(self)@, progress@) == old(self)@.advanced(),
    {
        match self.stage {
            Stage::Owning => {
                self.rest();
                Progress::Released
            },
            Stage::WriteLocking => {
                self.stage = Stage::WriteStoring;
                Progress::More
            },
            Stage::WriteStoring => {
                self.stage = Stage::WriteUnlocking;
                Progress::More
            },
            Stage::WriteUnlocking => {
                self.stage = Stage::WriteSignaling;
                Progress::More
            },
            Stage::WriteSignaling => {
                self.stage = Stage::WriteWaiting;
                Progress::More
            },
            Stage::WriteWaiting => {
                self.stage = Stage::WriteClearing;
                Progress::More
            },
            Stage::WriteClearing => {
                self.rest();
                Progress::Written
            },
            Stage::ReadWaiting => {
                self.stage = Stage::ReadClearing;
                Progress::More
            },
            Stage::ReadClearing => {
                self.stage = Stage::ReadLocking;
                Progress::More
            },
            Stage::ReadLocking => {
                self.stage = Stage::ReadLoading;
                Progress::More
            },
            Stage::ReadUnlocking => {
                self.stage = Stage::ReadAcking;
                Progress::More
            },
            Stage::ReadAcking => {
                let payload = copy_of(&self.incoming);
                self.rest();
                Progress::Received(payload)
            },
            Stage::Idle | Stage::ReadLoading | Stage::Aborting => Progress::More,
        }
    }

    /// Accounts for the end of the operation that was due.
    ///
    /// The end moves on as [`ChannelView::completed`] says; the result tells
    /// whether another operation is due or what the transfer came to.
    pub fn complete(&mut self, outcome: Outcome) -> (progress: Progress)
        requires
            old(self)@.wf(),
        ensures
            final(self)@.wf(),
            (final(self)@, progress@) == old(self)@.completed(outcome@),
    {
        match self.stage {
            Stage::Idle => Progress::Failed(Error::ChannelErr(ChannelError::UnexpectedReply)),
            Stage::Aborting => {
                let error = match self.failure {
                    Some(error) => error,
                    None => Error::ChannelErr(ChannelError::UnexpectedReply),
                };
                self.rest();
                Progress::Failed(error)
            },
            Stage::ReadLoading => match outcome {
                Outcome::Loaded(bytes) => match decode_frame(&bytes) {
                    Ok(payload) => {
                        self.incoming = payload;
                        self.stage = Stage::ReadUnlocking;
                        Progress::More
                    },
                    Err(refusal) => self.fail(Error::ChannelErr(refusal)),
                },
                Outcome::Failed(error) => self.fail(Error::Windows(error)),
                Outcome::Completed | Outcome::Abandoned => self.fail(
                    Error::ChannelErr(ChannelError::UnexpectedReply),
                ),
            },
            _ => match outcome {
                Outcome::Completed => self.advance(),
                Outcome::Abandoned => self.orphan(),
                Outcome::Failed(error) => self.fail(Error::Windows(error)),
                Outcome::Loaded(_) => self.fail(Error::ChannelErr(ChannelError::UnexpectedReply)),
            },
        }
    }
}

} // verus!
