//! The identities that cross the process boundary, and the bundle of four of
//! them that backs one channel.

use vstd::prelude::*;

verus! {

/// The size in bytes of the shared memory segment behind a channel.
pub const CHANNEL_SIZE: u32 = 4096;

/// The identity of a kernel object, as the number by which a process names it.
///
/// A child started with handle inheritance names the same object by the same
/// number, which is why the number alone can be handed over.
#[derive(Clone, Copy, Debug, PartialEq, Eq, Structural)]
pub struct Handle {
    pub id: u64,
}

impl Handle {
    /// Neither the null value nor the invalid-handle sentinel (all bits set).
    pub open spec fn is_valid(self) -> bool {
        self.id != 0 && self.id != u64::MAX
    }

    /// Whether the identity can name an object at all.
    pub fn valid(&self) -> (b: bool)
        ensures
            b == self.is_valid(),
    {
        self.id != 0 && self.id != u64::MAX
    }
}

/// The four primitives of one channel: the shared memory, the lock that guards
/// it, and the two events of the handshake.
#[derive(Clone, Copy, Debug, PartialEq, Eq, Structural)]
pub struct SynchronizationBundle {
    /// The shared memory segment.
    pub memory: Handle,
    /// The mutual-exclusion lock; its creator owns it from the start.
    pub lock: Handle,
    /// Signaled by a writer once a message is in the slot.
    pub ready_event: Handle,
    /// Signaled by a reader once it has taken the message out.
    pub ack_event: Handle,
}

impl SynchronizationBundle {
    /// The four identities, in the order in which they are created and handed
    /// over.
    pub open spec fn handles(self) -> Seq<Handle> {
        seq![self.memory, self.lock, self.ready_event, self.ack_event]
    }

    /// Whether `h` is one of the four.
    pub open spec fn holds(self, h: Handle) -> bool {
        h == self.memory || h == self.lock || h == self.ready_event || h == self.ack_event
    }

    /// Every identity can name an object.
    pub open spec fn all_valid(self) -> bool {
        &&& self.memory.is_valid()
        &&& self.lock.is_valid()
        &&& self.ready_event.is_valid()
        &&& self.ack_event.is_valid()
    }

    /// No identity stands for two primitives.
    pub open spec fn all_distinct(self) -> bool {
        &&& self.memory != self.lock
        &&& self.memory != self.ready_event
        &&& self.memory != self.ack_event
        &&& self.lock != self.ready_event
        &&& self.lock != self.ack_event
        &&& self.ready_event != self.ack_event
    }

    /// Four usable identities of four different objects.
    pub open spec fn wf(self) -> bool {
        self.all_valid() && self.all_distinct()
    }

    /// Whether every identity can name an object.
    pub fn is_all_valid(&self) -> (b: bool)
        ensures
            b == self.all_valid(),
    {
        self.memory.valid() && self.lock.valid() && self.ready_event.valid()
            && self.ack_event.valid()
    }

    /// Whether the four identities differ from one another.
    pub fn is_all_distinct(&self) -> (b: bool)
        ensures
            b == self.all_distinct(),
    {
        self.memory.id != self.lock.id && self.memory.id != self.ready_event.id && self.memory.id
            != self.ack_event.id && self.lock.id != self.ready_event.id && self.lock.id
            != self.ack_event.id && self.ready_event.id != self.ack_event.id
    }
}

/// What process creation hands back: the process and its first thread, each by
/// handle and by system-wide number.
#[derive(Clone, Copy, Debug, PartialEq, Eq, Structural)]
pub struct ProcessInfo {
    pub process: Handle,
    pub thread: Handle,
    pub process_id: u32,
    pub thread_id: u32,
}

} // verus!
