//! How one message lies in the slot.
//!
//! A frame is the payload's length as four bytes, least significant first,
//! followed by the payload. The rest of the slot is left as it was.

use vstd::prelude::*;
use crate::error::ChannelError;

verus! {

/// The number of bytes in front of the payload.
pub const FRAME_HEADER: usize = 4;

/// The four bytes that stand for a length, least significant first.
pub open spec fn length_bytes(n: nat) -> Seq<u8> {
    seq![
        (n % 256) as u8,
        ((n / 256) % 256) as u8,
        ((n / 65536) % 256) as u8,
        ((n / 16777216) % 256) as u8,
    ]
}

/// The length that the first four bytes of `bytes` stand for.
pub open spec fn length_of(bytes: Seq<u8>) -> nat
    recommends
        bytes.len() >= 4,
{
    (bytes[0] as nat) + 256 * (bytes[1] as nat) + 65536 * (bytes[2] as nat) + 16777216 * (
    bytes[3] as nat)
}

/// The frame of a payload.
pub open spec fn frame_of(payload: Seq<u8>) -> Seq<u8> {
    length_bytes(payload.len()) + payload
}

/// Whether a payload's frame fits into a slot of `size` bytes.
pub open spec fn fits(payload: Seq<u8>, size: nat) -> bool {
    payload.len() + 4 <= size
}

/// The payload that a slot holds, if its first bytes are a frame that ends
/// inside the slot.
pub open spec fn payload_in(slot: Seq<u8>) -> Option<Seq<u8>> {
    if slot.len() < 4 {
        None
    } else if 4 + length_of(slot) > slot.len() {
        None
    } else {
        Some(slot.subrange(4, 4 + length_of(slot) as int))
    }
}

/// A slot that starts with the frame of a payload holds that payload, whatever
/// follows the frame.
pub proof fn lemma_frame_round_trip(payload: Seq<u8>, rest: Seq<u8>)
    requires
        payload.len() < 0x1_0000_0000,
    ensures
        payload_in(frame_of(payload) + rest) == Some(payload),
{
    let n = payload.len();
    let slot = frame_of(payload) + rest;
    assert(length_of(slot) == n);
    assert(slot.subrange(4, 4 + n as int) =~= payload);
}

/// Builds the frame of `payload` for a slot of `size` bytes.
///
/// The payload is refused with [`ChannelError::PayloadTooLarge`] exactly when
/// header and payload together exceed the slot.
pub fn encode_frame(payload: &Vec<u8>, size: u32) -> (encoded: Result<Vec<u8>, ChannelError>)
    ensures
        match encoded {
            Ok(frame) => fits(payload@, size as nat) && frame@ == frame_of(payload@),
            Err(refusal) => !fits(payload@, size as nat) && refusal
                == ChannelError::PayloadTooLarge,
        },
{
    let n: usize = payload.len();
    if size < 4 || n > (size - 4) as usize {
        return Err(ChannelError::PayloadTooLarge);
    }
    let mut frame: Vec<u8> = Vec::new();
    frame.push((n % 256) as u8);
    frame.push(((n / 256) % 256) as u8);
    frame.push(((n / 65536) % 256) as u8);
    frame.push(((n / 16777216) % 256) as u8);
    let mut i: usize = 0;
    while i < n
        invariant
            n == payload@.len(),
            i <= n,
            frame@ == length_bytes(n as nat) + payload@.subrange(0, i as int),
        decreases n - i,
    {
        frame.push(payload[i]);
        assert(payload@.subrange(0, i + 1) =~= payload@.subrange(0, i as int).push(
            payload@[i as int],
        ));
        i = i + 1;
    }
    Ok(frame)
}

/// Takes the payload out of what was read from the slot.
///
/// The bytes are refused with [`ChannelError::MalformedFrame`] exactly when
/// they are shorter than a header or the length they announce ends outside
/// them.
pub fn decode_frame(slot: &Vec<u8>) -> (decoded: Result<Vec<u8>, ChannelError>)
    ensures
        match decoded {
            Ok(payload) => payload_in(slot@) == Some(payload@),
            Err(refusal) => payload_in(slot@).is_none() && refusal
                == ChannelError::MalformedFrame,
        },
{
    let total: usize = slot.len();
    if total < 4 {
        return Err(ChannelError::MalformedFrame);
    }
    let announced: u64 = (slot[0] as u64) + 256 * (slot[1] as u64) + 65536 * (slot[2] as u64)
        + 16777216 * (slot[3] as u64);
    if announced > (total - 4) as u64 {
        return Err(ChannelError::MalformedFrame);
    }
    let n: usize = announced as usize;
    let mut payload: Vec<u8> = Vec::new();
    let mut i: usize = 0;
    while i < n
        invariant
            total == slot@.len(),
            4 + n <= total,
            i <= n,
            payload@ == slot@.subrange(4, 4 + i as int),
        decreases n - i,
    {
        payload.push(slot[4 + i]);
        assert(slot@.subrange(4, 4 + i + 1) =~= slot@.subrange(4, 4 + i as int).push(
            slot@[4 + i as int],
        ));
        i = i + 1;
    }
    Ok(payload)
}

} // verus!
