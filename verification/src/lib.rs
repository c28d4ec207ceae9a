//! Launching worker processes over a private shared-memory channel.
//!
//! A parent creates, for each child, a bundle of four primitives: a shared
//! memory segment, a lock that guards it, and two events. The child inherits
//! them and learns their identities from its command line. Both ends then
//! pass one message at a time through the memory, by a handshake over the
//! lock and the events.
//!
//! The crate holds the decisions of the launcher and of the handshake as
//! state machines over plain values. It makes no call to the operating
//! system: a driver performs the calls that the machines ask for and reports
//! what came back.
//!
//! - [`error`]: the errors of the two layers.
//! - [`bundle`]: identities, the bundle, what process creation hands back.
//! - [`cmdline`]: the command line that carries a bundle to the child.
//! - [`startup`]: reading that command line back in the child.
//! - [`frame`]: how a message lies in the slot.
//! - [`channel`]: one end of a channel and its half of the handshake.
//! - [`launch`]: the launcher and its transaction per child.
//! - [`ledger`]: a whole launch accounts for every identity it takes.
//! - [`primitives`]: what the handshake takes the primitives to do.
//! - [`protocol`]: both ends run against each other, in every order.

pub mod bundle;
pub mod channel;
pub mod cmdline;
pub mod error;
pub mod frame;
pub mod launch;
pub mod ledger;
pub mod primitives;
pub mod protocol;
pub mod startup;
