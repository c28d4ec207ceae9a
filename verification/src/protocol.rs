//! The two ends of a channel run against each other.
//!
//! A [`System`] is the state of the primitives together with both ends, and a
//! record of what was written and what was delivered. It moves when an end
//! begins a transfer or carries out the operation that is due, in any order in
//! which the primitives allow it: an operation that is blocked is no move.
//! What is proved here holds however the two ends are interleaved.

use vstd::prelude::*;
use crate::bundle::{SynchronizationBundle, CHANNEL_SIZE};
use crate::channel::{holds_lock, ChannelView, ProgressView, Side, Stage};
use crate::frame::{fits, frame_of, lemma_frame_round_trip, payload_in};
use crate::primitives::PrimitivesView;

verus! {

/// The end opposite to `side`.
pub open spec fn other(side: Side) -> Side {
    match side {
        Side::Creator => Side::Peer,
        Side::Peer => Side::Creator,
    }
}

/// Whether a stage belongs to the writing of a message.
pub open spec fn writing(stage: Stage) -> bool {
    stage == Stage::WriteLocking || stage == Stage::WriteStoring || stage
        == Stage::WriteUnlocking || stage == Stage::WriteSignaling || stage
        == Stage::WriteWaiting || stage == Stage::WriteClearing
}

/// Whether a stage belongs to the reading of a message.
pub open spec fn reading(stage: Stage) -> bool {
    stage == Stage::ReadWaiting || stage == Stage::ReadClearing || stage == Stage::ReadLocking
        || stage == Stage::ReadLoading || stage == Stage::ReadUnlocking || stage
        == Stage::ReadAcking
}

/// Whether the slot begins with `frame`.
pub open spec fn starts_with(slot: Seq<u8>, frame: Seq<u8>) -> bool {
    frame.len() <= slot.len() && slot.take(frame.len() as int) == frame
}

/// Both ends of one channel and the primitives between them.
pub struct System {
    /// The state of the primitives.
    pub shared: PrimitivesView,
    /// The creator's end.
    pub creator: ChannelView,
    /// The peer's end.
    pub peer: ChannelView,
    /// The end whose messages are recorded.
    pub writer: Side,
    /// The payloads that the writer began to write, in order.
    pub written: Seq<Seq<u8>>,
    /// The number of writes that have returned to the writer.
    pub returned: nat,
    /// The payloads that reads have handed to the other end, in order.
    pub delivered: Seq<Seq<u8>>,
}

/// What an end can do next.
pub enum Move {
    /// The end begins to write this payload.
    BeginWrite(Side, Seq<u8>),
    /// The end begins to read.
    BeginRead(Side),
    /// The end carries out the operation that is due and accounts for it.
    Advance(Side),
}

/// Whether a move keeps to one direction: the writer writes, the other end
/// reads.
pub open spec fn simplex(writer: Side, m: Move) -> bool {
    match m {
        Move::BeginWrite(side, _) => side == writer,
        Move::BeginRead(side) => side == other(writer),
        Move::Advance(_) => true,
    }
}

impl System {
    /// The system right after the bundle was created and inherited: the
    /// creator owns the lock, the peer is idle, nothing was written.
    pub open spec fn fresh(bundle: SynchronizationBundle, writer: Side) -> System {
        System {
            shared: PrimitivesView::created(CHANNEL_SIZE as nat),
            creator: ChannelView::created(bundle),
            peer: ChannelView::attached(bundle),
            writer,
            written: Seq::empty(),
            returned: 0,
            delivered: Seq::empty(),
        }
    }

    /// The end of `side`.
    pub open spec fn end(self, side: Side) -> ChannelView {
        match side {
            Side::Creator => self.creator,
            Side::Peer => self.peer,
        }
    }

    /// The system with the end of `side` replaced.
    pub open spec fn with_end(self, side: Side, end: ChannelView) -> System {
        match side {
            Side::Creator => System { creator: end, ..self },
            Side::Peer => System { peer: end, ..self },
        }
    }

    /// The end that reads what the writer writes.
    pub open spec fn reader(self) -> Side {
        other(self.writer)
    }

    /// The system after `side` carried out the operation that is due, or
    /// `None` if nothing is due or the operation is blocked.
    pub open spec fn advanced(self, side: Side) -> Option<System> {
        match self.end(side).pending() {
            None => None,
            Some(op) => if self.shared.blocks(op) {
                None
            } else {
                let (shared, outcome) = self.shared.performed(side, op);
                let (end, progress) = self.end(side).completed(outcome);
                let moved = System { shared, ..self.with_end(side, end) };
                Some(
                    match progress {
                        ProgressView::Written => if side == self.writer {
                            System { returned: self.returned + 1, ..moved }
                        } else {
                            moved
                        },
                        ProgressView::Received(payload) => if side == self.reader() {
                            System { delivered: self.delivered.push(payload), ..moved }
                        } else {
                            moved
                        },
                        _ => moved,
                    },
                )
            },
        }
    }

    /// The system after a move, or `None` if the move cannot be made.
    pub open spec fn moved(self, m: Move) -> Option<System> {
        match m {
            Move::BeginWrite(side, payload) => match self.end(side).write_begun(payload) {
                Ok(end) => Some(
                    if side == self.writer {
                        System { written: self.written.push(payload), ..self.with_end(side, end) }
                    } else {
                        self.with_end(side, end)
                    },
                ),
                Err(_) => None,
            },
            Move::BeginRead(side) => match self.end(side).read_begun() {
                Ok(end) => Some(self.with_end(side, end)),
                Err(_) => None,
            },
            Move::Advance(side) => self.advanced(side),
        }
    }

    /// What holds however the ends are used: each end is sound and sized as
    /// the slot is, and an end is at a stage that holds the lock exactly when
    /// the lock is owned by it.
    pub open spec fn consistent(self) -> bool {
        &&& self.creator.side == Side::Creator
        &&& self.peer.side == Side::Peer
        &&& self.creator.wf()
        &&& self.peer.wf()
        &&& self.creator.size == self.shared.slot.len()
        &&& self.peer.size == self.shared.slot.len()
        &&& self.peer.stage != Stage::Owning
        &&& holds_lock(self.creator.stage) <==> self.shared.owner == Some(Side::Creator)
        &&& holds_lock(self.peer.stage) <==> self.shared.owner == Some(Side::Peer)
    }

    /// What holds as long as the writer only writes and the other end only
    /// reads.
    ///
    /// A message is in one of three states. While it is composed, nothing is
    /// signaled and all earlier messages are delivered. Once it is published,
    /// the slot holds its frame until the reader has taken it. Once it is
    /// acknowledged, it is delivered and the writer is about to return.
    pub open spec fn steady(self) -> bool {
        let w = self.end(self.writer);
        let r = self.end(self.reader());
        let m = self.returned as int;
        let n = self.delivered.len() as int;
        &&& self.consistent()
        &&& (w.stage == Stage::Owning || w.stage == Stage::Idle || writing(w.stage))
        &&& (r.stage == Stage::Owning || r.stage == Stage::Idle || reading(r.stage))
        &&& n <= self.written.len()
        &&& self.delivered == self.written.take(n)
        &&& self.written.len() == m + (if writing(w.stage) {
            1int
        } else {
            0int
        })
        &&& writing(w.stage) ==> w.outgoing == frame_of(self.written[m]) && fits(
            self.written[m],
            w.size,
        )
        &&& self.creator.stage == Stage::Owning ==> m == 0 && (self.peer.stage == Stage::Idle
            || self.peer.stage == Stage::WriteLocking || self.peer.stage == Stage::ReadWaiting)
        &&& if w.stage == Stage::WriteWaiting && !self.shared.ack {
            &&& n == m
            &&& starts_with(self.shared.slot, w.outgoing)
            &&& match r.stage {
                Stage::Idle | Stage::ReadWaiting | Stage::ReadClearing => self.shared.ready,
                Stage::ReadLocking | Stage::ReadLoading => !self.shared.ready,
                Stage::ReadUnlocking | Stage::ReadAcking => !self.shared.ready && r.incoming
                    == self.written[m],
                _ => false,
            }
        } else if w.stage == Stage::WriteWaiting || w.stage == Stage::WriteClearing {
            &&& self.shared.ack
            &&& !self.shared.ready
            &&& n == m + 1
            &&& (r.stage == Stage::Idle || r.stage == Stage::ReadWaiting)
        } else {
            &&& !self.shared.ready
            &&& !self.shared.ack
            &&& n == m
            &&& (r.stage == Stage::Owning || r.stage == Stage::Idle || r.stage
                == Stage::ReadWaiting)
            &&& (w.stage == Stage::WriteUnlocking || w.stage == Stage::WriteSignaling)
                ==> starts_with(self.shared.slot, w.outgoing)
        }
    }
}

/// A fresh system over a sound bundle is consistent and steady.
pub proof fn lemma_fresh_is_steady(bundle: SynchronizationBundle, writer: Side)
    ensures
        System::fresh(bundle, writer).consistent(),
        System::fresh(bundle, writer).steady(),
{
    let s = System::fresh(bundle, writer);
    assert(s.delivered =~= s.written.take(0));
}

/// Every move keeps a consistent system consistent, and only the end that is
/// storing under the lock changes the slot.
pub proof fn lemma_move_keeps_consistent(s: System, m: Move)
    requires
        s.consistent(),
        s.moved(m).is_some(),
    ensures
        s.moved(m).unwrap().consistent(),
        s.moved(m).unwrap().writer == s.writer,
        s.moved(m).unwrap().shared.slot.len() == s.shared.slot.len(),
        s.moved(m).unwrap().shared.slot != s.shared.slot ==> exists|side: Side|
            m == Move::Advance(side) && s.end(side).stage == Stage::WriteStoring
                && s.shared.owner == Some(side),
{
    if let Move::Advance(side) = m {
        let before = s.end(side);
        if writing(before.stage) {
            // The frame in flight is that of a payload that fits: it can be
            // stored, and it stays with the end until the write returns.
            let payload = choose|payload: Seq<u8>|
                fits(payload, before.size) && before.outgoing == #[trigger] frame_of(payload);
            assert(before.outgoing.len() == payload.len() + 4);
        }
    }
}

/// Every move in one direction keeps a steady system steady.
pub proof fn lemma_move_keeps_steady(s: System, m: Move)
    requires
        s.steady(),
        simplex(s.writer, m),
        s.moved(m).is_some(),
    ensures
        s.moved(m).unwrap().steady(),
{
    let t = s.moved(m).unwrap();
    let w = s.end(s.writer);
    let r = s.end(s.reader());
    let k = s.returned as int;
    let n = s.delivered.len() as int;
    match m {
        Move::BeginWrite(_, _) => {
            assert(t.delivered =~= t.written.take(n));
        },
        Move::BeginRead(_) => {},
        Move::Advance(side) => {
            if side == s.writer {
                if w.stage == Stage::WriteStoring {
                    assert(t.shared.slot.take(w.outgoing.len() as int) =~= w.outgoing);
                }
            } else {
                if r.stage == Stage::ReadLoading {
                    // The slot still begins with the frame that was published.
                    let rest = s.shared.slot.skip(w.outgoing.len() as int);
                    lemma_frame_round_trip(s.written[k], rest);
                    assert(payload_in(s.shared.slot) == Some(s.written[k]));
                }
                if r.stage == Stage::ReadAcking {
                    assert(t.delivered =~= t.written.take(n + 1));
                }
            }
        },
    }
}

/// Whether `states` is what `moves` lead through from `start`: each state
/// results from the one before it by the move of the same number.
pub open spec fn is_run(start: System, moves: Seq<Move>, states: Seq<System>) -> bool {
    &&& states.len() == moves.len() + 1
    &&& states[0] == start
    &&& forall|i: int|
        0 <= i < moves.len() ==> #[trigger] states[i].moved(moves[i]) == Some(states[i + 1])
}

/// Every state that moves lead to from a consistent system is consistent.
pub proof fn lemma_run_consistent(start: System, moves: Seq<Move>, states: Seq<System>, i: int)
    requires
        start.consistent(),
        is_run(start, moves, states),
        0 <= i < states.len(),
    ensures
        states[i].consistent(),
    decreases i,
{
    if i > 0 {
        lemma_run_consistent(start, moves, states, i - 1);
        lemma_move_keeps_consistent(states[i - 1], moves[i - 1]);
    }
}

/// Every state that moves in one direction lead to from a steady system is
/// steady.
pub proof fn lemma_run_steady(start: System, moves: Seq<Move>, states: Seq<System>, i: int)
    requires
        start.steady(),
        is_run(start, moves, states),
        forall|j: int| 0 <= j < moves.len() ==> simplex(start.writer, #[trigger] moves[j]),
        0 <= i < states.len(),
    ensures
        states[i].steady(),
        states[i].writer == start.writer,
    decreases i,
{
    if i > 0 {
        lemma_run_steady(start, moves, states, i - 1);
        lemma_move_keeps_steady(states[i - 1], moves[i - 1]);
    }
}

/// The lock is exclusive, however the two ends are used.
///
/// In every state that any moves lead to from a fresh system, at most one end
/// is at a stage that holds the lock, and a move that changes the slot is made
/// by the end that holds it.
pub proof fn lemma_lock_is_exclusive(
    bundle: SynchronizationBundle,
    writer: Side,
    moves: Seq<Move>,
    states: Seq<System>,
    i: int,
)
    requires
        is_run(System::fresh(bundle, writer), moves, states),
        0 <= i < states.len(),
    ensures
        !(holds_lock(states[i].creator.stage) && holds_lock(states[i].peer.stage)),
        i < moves.len() && states[i + 1].shared.slot != states[i].shared.slot ==> exists|
            side: Side,
        |
            moves[i] == Move::Advance(side) && holds_lock(states[i].end(side).stage)
                && !holds_lock(states[i].end(other(side)).stage),
{
    let start = System::fresh(bundle, writer);
    lemma_run_consistent(start, moves, states, i);
    if i < moves.len() && states[i + 1].shared.slot != states[i].shared.slot {
        lemma_move_keeps_consistent(states[i], moves[i]);
        let side = choose|side: Side|
            moves[i] == Move::Advance(side) && states[i].end(side).stage == Stage::WriteStoring
                && states[i].shared.owner == Some(side);
        assert(moves[i] == Move::Advance(side) && holds_lock(states[i].end(side).stage)
            && !holds_lock(states[i].end(other(side)).stage));
    }
}

/// What is delivered is what was written, in order and once each.
///
/// In every state that moves in one direction lead to from a fresh system,
/// the payloads delivered are the first of the payloads written. A write
/// returns only after its message was delivered, and no write begins before
/// the one before it has returned.
pub proof fn lemma_delivery_is_exact(
    bundle: SynchronizationBundle,
    writer: Side,
    moves: Seq<Move>,
    states: Seq<System>,
    i: int,
)
    requires
        is_run(System::fresh(bundle, writer), moves, states),
        forall|j: int| 0 <= j < moves.len() ==> simplex(writer, #[trigger] moves[j]),
        0 <= i < states.len(),
    ensures
        states[i].delivered.len() <= states[i].written.len(),
        states[i].delivered == states[i].written.take(states[i].delivered.len() as int),
        states[i].returned <= states[i].delivered.len(),
        states[i].written.len() <= states[i].returned + 1,
{
    lemma_fresh_is_steady(bundle, writer);
    lemma_run_steady(System::fresh(bundle, writer), moves, states, i);
}

/// While a write has not returned, the writer can begin no other, and while
/// the ack event is unsignaled, a writer that waits for it cannot go on.
pub proof fn lemma_second_write_is_held_back(s: System, payload: Seq<u8>)
    requires
        s.steady(),
        writing(s.end(s.writer).stage),
    ensures
        s.moved(Move::BeginWrite(s.writer, payload)).is_none(),
        s.end(s.writer).stage == Stage::WriteWaiting && !s.shared.ack ==> s.advanced(
            s.writer,
        ).is_none(),
        s.delivered.len() == s.returned ==> !s.shared.ack,
{
}

/// Only the reader's acknowledgment signals the ack event: the move that
/// signals it is the reader's, and it delivers the message that is in the
/// slot.
pub proof fn lemma_ack_follows_delivery(s: System, m: Move)
    requires
        s.steady(),
        simplex(s.writer, m),
        s.moved(m).is_some(),
        !s.shared.ack,
        s.moved(m).unwrap().shared.ack,
    ensures
        m == Move::Advance(s.reader()),
        s.end(s.reader()).stage == Stage::ReadAcking,
        s.returned < s.written.len(),
        s.moved(m).unwrap().delivered == s.delivered.push(s.written[s.returned as int]),
{
}

/// The number of operations that a writer at this stage has yet to carry out.
pub open spec fn writer_left(stage: Stage) -> nat {
    match stage {
        Stage::WriteLocking => 6,
        Stage::WriteStoring => 5,
        Stage::WriteUnlocking => 4,
        Stage::WriteSignaling => 3,
        Stage::WriteWaiting => 2,
        Stage::WriteClearing => 1,
        _ => 0,
    }
}

/// The number of operations that a reader at this stage has yet to carry out.
pub open spec fn reader_left(stage: Stage) -> nat {
    match stage {
        Stage::ReadWaiting => 6,
        Stage::ReadClearing => 5,
        Stage::ReadLocking => 4,
        Stage::ReadLoading => 3,
        Stage::ReadUnlocking => 2,
        Stage::ReadAcking => 1,
        _ => 0,
    }
}

/// Whether a write is under way and the other end is reading its message or
/// has delivered it.
pub open spec fn in_flight(s: System) -> bool {
    writing(s.end(s.writer).stage) && (reading(s.end(s.reader()).stage) || s.delivered.len()
        > s.returned)
}

/// The number of operations that both ends together have yet to carry out
/// until the write under way returns.
pub open spec fn work_left(s: System) -> nat {
    if !writing(s.end(s.writer).stage) {
        0
    } else if s.delivered.len() > s.returned {
        writer_left(s.end(s.writer).stage)
    } else {
        writer_left(s.end(s.writer).stage) + reader_left(s.end(s.reader()).stage)
    }
}

/// A transfer never gets stuck: while a write is under way and the other end
/// reads, at least one of the two can carry out the operation that is due.
pub proof fn lemma_transfer_goes_on(s: System)
    requires
        s.steady(),
        in_flight(s),
    ensures
        s.advanced(s.writer).is_some() || s.advanced(s.reader()).is_some(),
        work_left(s) > 0,
{
    // With neither end at a stage that holds the lock, the lock is free.
    assert(!holds_lock(s.creator.stage) && !holds_lock(s.peer.stage)
        ==> s.shared.owner.is_none()) by {
        if s.shared.owner.is_some() {
            match s.shared.owner.unwrap() {
                Side::Creator => {},
                Side::Peer => {},
            }
        }
    }
    // Until the message is acknowledged, the reader can go on once it is
    // published, and the writer before that and after.
    if s.end(s.writer).stage == Stage::WriteWaiting && !s.shared.ack {
        assert(s.advanced(s.reader()).is_some());
    } else {
        assert(s.advanced(s.writer).is_some());
    }
}

/// Every operation carried out during a transfer brings its end nearer by
/// one, and the transfer has ended when none is left: the write has returned,
/// all that was written is delivered, and neither end can do anything.
pub proof fn lemma_advance_counts_down(s: System, side: Side)
    requires
        s.steady(),
        in_flight(s),
        s.advanced(side).is_some(),
    ensures
        ({
            let t = s.advanced(side).unwrap();
            &&& t.steady()
            &&& t.writer == s.writer
            &&& t.written == s.written
            &&& work_left(t) + 1 == work_left(s)
            &&& work_left(t) > 0 ==> in_flight(t)
            &&& work_left(t) == 0 ==> {
                &&& t.returned == s.returned + 1
                &&& t.delivered == s.written
                &&& t.end(t.writer).stage == Stage::Idle
                &&& t.advanced(Side::Creator).is_none()
                &&& t.advanced(Side::Peer).is_none()
            }
            &&& t.end(other(side)) == s.end(other(side))
            &&& t.delivered != s.delivered ==> side == s.reader() && t.end(side).stage
                == Stage::Idle
        }),
{
    lemma_move_keeps_steady(s, Move::Advance(side));
}

/// The system after the ends carried out their due operations in the order
/// that `sides` gives, or `None` if one of them was not possible.
pub open spec fn advanced_by(s: System, sides: Seq<Side>) -> Option<System>
    decreases sides.len(),
{
    if sides.len() == 0 {
        Some(s)
    } else {
        match advanced_by(s, sides.drop_last()) {
            Some(t) => t.advanced(sides.last()),
            None => None,
        }
    }
}

/// A transfer ends, in whatever order the two ends take their turns.
///
/// From a state in which a write is under way and the other end reads, the
/// ends can carry out no more operations than are left, and when they have
/// carried out that many, the write has returned and its payload is
/// delivered: all that was written is delivered, in order.
pub proof fn lemma_transfer_completes(s: System, sides: Seq<Side>)
    requires
        s.steady(),
        in_flight(s),
        advanced_by(s, sides).is_some(),
    ensures
        ({
            let t = advanced_by(s, sides).unwrap();
            &&& t.steady()
            &&& t.writer == s.writer
            &&& t.written == s.written
            &&& work_left(t) + sides.len() == work_left(s)
            &&& work_left(t) > 0 ==> in_flight(t)
            &&& work_left(t) == 0 ==> {
                &&& t.returned == s.returned + 1
                &&& t.delivered == s.written
                &&& t.end(t.writer).stage == Stage::Idle
            }
            &&& t.delivered != s.delivered ==> t.end(t.reader()).stage == Stage::Idle
        }),
    decreases sides.len(),
{
    if sides.len() > 0 {
        let before = advanced_by(s, sides.drop_last()).unwrap();
        lemma_transfer_completes(s, sides.drop_last());
        // With nothing left, neither end could have taken the last turn.
        if work_left(before) > 0 {
            lemma_advance_counts_down(before, sides.last());
        }
    }
}

/// The system after the creator of a fresh bundle has released the lock and
/// begun to write `payload`, and the peer has begun to read.
pub open spec fn first_transfer(bundle: SynchronizationBundle, payload: Seq<u8>) -> System {
    System::fresh(bundle, Side::Creator).moved(Move::Advance(Side::Creator)).unwrap().moved(
        Move::BeginWrite(Side::Creator, payload),
    ).unwrap().moved(Move::BeginRead(Side::Peer)).unwrap()
}

/// The first message arrives.
///
/// Take a fresh bundle, its lock held by the creator. Let the creator release
/// the lock and write a payload that fits, and let the peer read. Then in
/// whatever order the two take their turns, once neither can do anything
/// more, the peer has received exactly that payload, once, and the write has
/// returned. Before that, one of the two can always go on.
pub proof fn lemma_first_message_arrives(
    bundle: SynchronizationBundle,
    payload: Seq<u8>,
    sides: Seq<Side>,
)
    requires
        fits(payload, CHANNEL_SIZE as nat),
        advanced_by(first_transfer(bundle, payload), sides).is_some(),
        advanced_by(first_transfer(bundle, payload), sides).unwrap().advanced(
            Side::Creator,
        ).is_none(),
        advanced_by(first_transfer(bundle, payload), sides).unwrap().advanced(
            Side::Peer,
        ).is_none(),
    ensures
        sides.len() == 12,
        advanced_by(first_transfer(bundle, payload), sides).unwrap().delivered == seq![payload],
        advanced_by(first_transfer(bundle, payload), sides).unwrap().returned == 1,
        advanced_by(first_transfer(bundle, payload), sides).unwrap().creator.stage == Stage::Idle,
        advanced_by(first_transfer(bundle, payload), sides).unwrap().peer.stage == Stage::Idle,
{
    let s0 = System::fresh(bundle, Side::Creator);
    lemma_fresh_is_steady(bundle, Side::Creator);
    let m1 = Move::Advance(Side::Creator);
    lemma_move_keeps_steady(s0, m1);
    let s1 = s0.moved(m1).unwrap();
    let m2 = Move::BeginWrite(Side::Creator, payload);
    lemma_move_keeps_steady(s1, m2);
    let s2 = s1.moved(m2).unwrap();
    let m3 = Move::BeginRead(Side::Peer);
    lemma_move_keeps_steady(s2, m3);
    let s3 = s2.moved(m3).unwrap();
    lemma_transfer_completes(s3, sides);
    let t = advanced_by(s3, sides).unwrap();
    if work_left(t) > 0 {
        lemma_transfer_goes_on(t);
    }
}

} // verus!
