//! What the handshake takes the four primitives to do.
//!
//! [`PrimitivesView`] is the state of a bundle's lock, events and slot, and
//! says what each operation makes of it. [`Primitives`] is the same as a value
//! in memory, so that two ends can be run against each other within one
//! process. The lock is taken as not reentrant: an end that owns it does not
//! ask for it again.

use vstd::prelude::*;
use crate::channel::{Op, OpView, Outcome, OutcomeView, Side};
use crate::error::OsError;

verus! {

/// The code with which releasing a lock is refused to one that does not own
/// it.
pub const NOT_OWNER: i32 = -2147024608;

/// The code with which bytes are refused that do not fit the slot.
pub const INVALID_PARAMETER: i32 = -2147024809;

/// The state of a bundle's primitives.
pub struct PrimitivesView {
    /// The bytes of the shared memory.
    pub slot: Seq<u8>,
    /// The end that owns the lock, if one does.
    pub owner: Option<Side>,
    /// Whether the ready event is signaled.
    pub ready: bool,
    /// Whether the ack event is signaled.
    pub ack: bool,
}

impl PrimitivesView {
    /// A bundle right after its creation: the memory zeroed, the lock owned by
    /// the creator, both events unsignaled.
    pub open spec fn created(size: nat) -> PrimitivesView {
        PrimitivesView {
            slot: Seq::new(size, |i: int| 0u8),
            owner: Some(Side::Creator),
            ready: false,
            ack: false,
        }
    }

    /// Whether `op` cannot be carried out yet: the lock is owned, or the event
    /// waited for is unsignaled.
    pub open spec fn blocks(self, op: OpView) -> bool {
        match op {
            OpView::AcquireLock => self.owner.is_some(),
            OpView::WaitReady => !self.ready,
            OpView::WaitAck => !self.ack,
            _ => false,
        }
    }

    /// The state after `side` carried out `op`, and how the operation ended.
    /// Meant for an operation that is not blocked.
    pub open spec fn performed(self, side: Side, op: OpView) -> (PrimitivesView, OutcomeView) {
        match op {
            OpView::AcquireLock => (
                PrimitivesView { owner: Some(side), ..self },
                OutcomeView::Completed,
            ),
            OpView::ReleaseLock => if self.owner == Some(side) {
                (PrimitivesView { owner: None, ..self }, OutcomeView::Completed)
            } else {
                (self, OutcomeView::Failed(OsError { code: NOT_OWNER }))
            },
            OpView::Store(bytes) => if bytes.len() <= self.slot.len() {
                (
                    PrimitivesView { slot: bytes + self.slot.skip(bytes.len() as int), ..self },
                    OutcomeView::Completed,
                )
            } else {
                (self, OutcomeView::Failed(OsError { code: INVALID_PARAMETER }))
            },
            OpView::Load => (self, OutcomeView::Loaded(self.slot)),
            OpView::SetReady => (PrimitivesView { ready: true, ..self }, OutcomeView::Completed),
            OpView::ResetReady => (PrimitivesView { ready: false, ..self }, OutcomeView::Completed),
            OpView::SetAck => (PrimitivesView { ack: true, ..self }, OutcomeView::Completed),
            OpView::ResetAck => (PrimitivesView { ack: false, ..self }, OutcomeView::Completed),
            OpView::WaitReady | OpView::WaitAck => (self, OutcomeView::Completed),
        }
    }
}

/// A bundle's primitives as a value in memory.
#[derive(Debug)]
pub struct Primitives {
    slot: Vec<u8>,
    owner: Option<Side>,
    ready: bool,
    ack: bool,
}

impl View for Primitives {
    type V = PrimitivesView;

    closed spec fn view(&self) -> PrimitivesView {
        PrimitivesView { slot: self.slot@, owner: self.owner, ready: self.ready, ack: self.ack }
    }
}

impl Primitives {
    /// The primitives of a bundle with `size` bytes of memory, as they are
    /// right after creation.
    pub fn new(size: u32) -> (primitives: Primitives)
        ensures
            primitives@ == PrimitivesView::created(size as nat),
    {
        let mut slot: Vec<u8> = Vec::new();
        let mut i: u32 = 0;
        while i < size
            invariant
                i <= size,
                slot@ == Seq::new(i as nat, |k: int| 0u8),
            decreases size - i,
        {
            slot.push(0u8);
            i = i + 1;
        }
        Primitives { slot, owner: Some(Side::Creator), ready: false, ack: false }
    }

    /// The end that owns the lock, if one does.
    pub fn owner(&self) -> (owner: Option<Side>)
        ensures
            owner == self@.owner,
    {
        self.owner
    }

    /// Whether the ready event is signaled.
    pub fn ready(&self) -> (ready: bool)
        ensures
            ready == self@.ready,
    {
        self.ready
    }

    /// Whether the ack event is signaled.
    pub fn ack(&self) -> (ack: bool)
        ensures
            ack == self@.ack,
    {
        self.ack
    }

    /// The bytes of the shared memory.
    pub fn slot(&self) -> (slot: &Vec<u8>)
        ensures
            slot@ == self@.slot,
    {
        &self.slot
    }

    fn owned_by(&self, side: Side) -> (b: bool)
        ensures
            b == (self@.owner == Some(side)),
    {
        match self.owner {
            Some(owner) => owner == side,
            None => false,
        }
    }

    fn store(&mut self, bytes: &Vec<u8>)
        requires
            bytes@.len() <= old(self)@.slot.len(),
        ensures
            final(self)@ == (PrimitivesView {
                slot: bytes@ + old(self)@.slot.skip(bytes@.len() as int),
                ..old(self)@
            }),
    {
        let n: usize = bytes.len();
        let mut i: usize = 0;
        while i < n
            invariant
                n == bytes@.len(),
                i <= n,
                n <= self.slot@.len(),
                self.slot@.len() == old(self).slot@.len(),
                self.owner == old(self).owner,
                self.ready == old(self).ready,
                self.ack == old(self).ack,
                self.slot@ == bytes@.subrange(0, i as int) + old(self).slot@.skip(i as int),
            decreases n - i,
        {
            self.slot.set(i, bytes[i]);
            i = i + 1;
        }
        assert(bytes@.subrange(0, n as int) =~= bytes@);
    }

    fn load(&self) -> (bytes: Vec<u8>)
        ensures
            bytes@ == self@.slot,
    {
        let mut bytes: Vec<u8> = Vec::new();
        let mut i: usize = 0;
        while i < self.slot.len()
            invariant
                i <= self.slot@.len(),
                bytes@ == self.slot@.subrange(0, i as int),
            decreases self.slot@.len() - i,
        {
            bytes.push(self.slot[i]);
            assert(self.slot@.subrange(0, i + 1) =~= self.slot@.subrange(0, i as int).push(
                self.slot@[i as int],
            ));
            i = i + 1;
        }
        bytes
    }

    /// Carries out `op` for `side`, unless it is blocked.
    ///
    /// A blocked operation changes nothing and yields `None`; the caller may
    /// try again once the other end has moved. Otherwise the state changes as
    /// [`PrimitivesView::performed`] says and the outcome is handed back.
    pub fn perform(&mut self, side: Side, op: &Op) -> (outcome: Option<Outcome>)
        ensures
            match outcome {
                None => old(self)@.blocks(op@) && final(self)@ == old(self)@,
                Some(ended) => !old(self)@.blocks(op@) && (final(self)@, ended@) == old(self)@.performed(side, op@),
            },
    {
        match op {
            Op::AcquireLock => {
                if self.owner.is_some() {
                    None
                } else {
                    self.owner = Some(side);
                    Some(Outcome::Completed)
                }
            },
            Op::ReleaseLock => {
                if self.owned_by(side) {
                    self.owner = None;
                    Some(Outcome::Completed)
                } else {
                    Some(Outcome::Failed(OsError { code: NOT_OWNER }))
                }
            },
            Op::Store(bytes) => {
                if bytes.len() <= self.slot.len() {
                    self.store(bytes);
                    Some(Outcome::Completed)
                } else {
                    Some(Outcome::Failed(OsError { code: INVALID_PARAMETER }))
                }
            },
            Op::Load => Some(Outcome::Loaded(self.load())),
            Op::SetReady => {
                self.ready = true;
                Some(Outcome::Completed)
            },
            Op::ResetReady => {
                self.ready = false;
                Some(Outcome::Completed)
            },
            Op::WaitReady => {
                if self.ready {
                    Some(Outcome::Completed)
                } else {
                    None
                }
            },
            Op::SetAck => {
                self.ack = true;
                Some(Outcome::Completed)
            },
            Op::ResetAck => {
                self.ack = false;
                Some(Outcome::Completed)
            },
            Op::WaitAck => {
                if self.ack {
                    Some(Outcome::Completed)
                } else {
                    None
                }
            },
        }
    }
}

} // verus!
