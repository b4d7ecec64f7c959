//! The frame codec: the pure transform between raw bytes read off a
//! socket and the outcome the connection handler acts on.
//!
//! A well-formed sensor frame is exactly four bytes: one big-endian
//! IEEE-754 single-precision value. The decoder does not interpret the
//! value numerically; it hands back the 32 raw bits, so the reading
//! survives bit-for-bit until the host widens it for storage.

use vstd::prelude::*;

verus! {

/// The 32 bits carried by a complete frame: the first four bytes of `s`
/// read in big-endian order.
pub open spec fn frame_value_bits(s: Seq<u8>) -> u32
    recommends
        s.len() >= 4,
{
    (((s[0] as u32) << 24) | ((s[1] as u32) << 16) | ((s[2] as u32) << 8) | (s[3] as u32))
}

/// The four big-endian bytes that carry `bits` on the wire.
pub open spec fn frame_bytes_of(bits: u32) -> Seq<u8> {
    seq![
        ((bits >> 24) & 0xff) as u8,
        ((bits >> 16) & 0xff) as u8,
        ((bits >> 8) & 0xff) as u8,
        (bits & 0xff) as u8,
    ]
}

/// What one read off the socket means to the connection handler.
pub enum FrameOutcome {
    /// A complete frame: the big-endian bits of the reading.
    Decoded(u32),
    /// A zero-length read: the peer closed the connection in an orderly way.
    EndOfStream,
    /// Any other length: the offending bytes and their count, kept for
    /// logging. Never fatal; the connection keeps reading.
    Malformed(Vec<u8>, usize),
}

/// Classifies one read of `length` bytes sitting at the front of `buffer`.
///
/// Pure and total: a zero-length read is an orderly close, exactly four
/// bytes are a reading, and every other length is malformed, never an
/// error that could take the connection down.
pub fn decode(buffer: &Vec<u8>, length: usize) -> (out: FrameOutcome)
    requires
        length <= buffer.len(),
    ensures
        length == 0 ==> out == FrameOutcome::EndOfStream,
        length == 4 ==> out == FrameOutcome::Decoded(frame_value_bits(buffer@)),
        length != 0 && length != 4 ==> (out matches FrameOutcome::Malformed(raw, n)
            && raw@ == buffer@.take(length as int) && n == length),
{
    if length == 0 {
        FrameOutcome::EndOfStream
    } else if length == 4 {
        let b0 = buffer[0] as u32;
        let b1 = buffer[1] as u32;
        let b2 = buffer[2] as u32;
        let b3 = buffer[3] as u32;
        FrameOutcome::Decoded((b0 << 24) | (b1 << 16) | (b2 << 8) | b3)
    } else {
        let mut raw: Vec<u8> = Vec::new();
        let mut i: usize = 0;
        while i < length
            invariant
                i <= length,
                length <= buffer.len(),
                raw@ == buffer@.take(i as int),
            decreases length - i,
        {
            raw.push(buffer[i]);
            i += 1;
            assert(raw@ =~= buffer@.take(i as int));
        }
        FrameOutcome::Malformed(raw, length)
    }
}

/// Encodes a reading for the wire: the four big-endian bytes of `bits`.
pub fn encode_frame(bits: u32) -> (frame: Vec<u8>)
    ensures
        frame@ == frame_bytes_of(bits),
        frame@.len() == 4,
{
    let mut frame: Vec<u8> = Vec::new();
    frame.push(((bits >> 24) & 0xff) as u8);
    frame.push(((bits >> 16) & 0xff) as u8);
    frame.push(((bits >> 8) & 0xff) as u8);
    frame.push((bits & 0xff) as u8);
    assert(frame@ =~= frame_bytes_of(bits));
    frame
}

/// A frame carries its reading faithfully: decoding the four bytes that
/// `frame_bytes_of` lays out gives back exactly the bits that went in,
/// and every four-byte sequence is the encoding of the bits read from it.
pub proof fn lemma_frame_round_trip(bits: u32, s: Seq<u8>)
    requires
        s.len() == 4,
    ensures
        frame_value_bits(frame_bytes_of(bits)) == bits,
        frame_bytes_of(frame_value_bits(s)) =~= s,
{
    let b = frame_bytes_of(bits);
    assert((((((bits >> 24) & 0xff) as u8) as u32) << 24) | (((((bits >> 16) & 0xff) as u8)
        as u32) << 16) | (((((bits >> 8) & 0xff) as u8) as u32) << 8) | ((((bits & 0xff) as u8)
        as u32)) == bits) by (bit_vector);
    assert(frame_value_bits(b) == bits);
    let v = frame_value_bits(s);
    let x0 = s[0];
    let x1 = s[1];
    let x2 = s[2];
    let x3 = s[3];
    let w = ((x0 as u32) << 24) | ((x1 as u32) << 16) | ((x2 as u32) << 8) | (x3 as u32);
    assert((((w >> 24) & 0xff) as u8) == x0 && (((w >> 16) & 0xff) as u8) == x1 && (((w >> 8)
        & 0xff) as u8) == x2 && ((w & 0xff) as u8) == x3) by (bit_vector)
        requires
            w == ((x0 as u32) << 24) | ((x1 as u32) << 16) | ((x2 as u32) << 8) | (x3 as u32),
    ;
    assert(frame_bytes_of(v) =~= s);
}

} // verus!
