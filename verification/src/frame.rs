//! Length framing of requests on the to-worker ring.
//!
//! A request crosses the ring as eight little-endian bytes holding the
//! payload length as a 64-bit value, followed by that many payload bytes.
//! The upper 32 bits of the length are required to be zero: they act as a
//! canary, since a corrupted writer is overwhelmingly likely to leave
//! something nonzero there. Responses are not framed; the owner knows the
//! expected response length out of band.

use vstd::bytes::*;
use vstd::prelude::*;

verus! {

/// Number of bytes in the length prefix of a request frame.
pub const FRAME_HEADER_LEN: usize = 8;

/// A rule of the wire protocol was broken. These conditions indicate a bug
/// or memory corruption, never a recoverable state; the worker process is
/// expected to abort on them.
#[derive(Debug, Clone, Copy, PartialEq, Eq, Structural)]
pub enum ProtocolViolation {
    /// The length prefix carried this 64-bit value, whose upper 32 bits
    /// are nonzero.
    CorruptFrameLength(u64),
    /// A new frame was asked for while this many bytes of the current one
    /// are still undrained.
    FrameInProgress(u32),
}

/// The length prefix for a payload of `len` bytes: `len` as eight
/// little-endian bytes, the upper four of which are zero.
pub open spec fn spec_header(len: u32) -> Seq<u8> {
    spec_u64_to_le_bytes(len as u64)
}

/// A whole request frame as it crosses the to-worker ring: the length
/// prefix followed by the payload. Meaningful for payloads of at most
/// `u32::MAX` bytes.
pub open spec fn spec_frame(payload: Seq<u8>) -> Seq<u8> {
    spec_header(payload.len() as u32) + payload
}

/// Encode the length prefix for a payload of `len` bytes.
pub fn encode_header(len: u32) -> (h: Vec<u8>)
    ensures
        h@ == spec_header(len),
        h@.len() == FRAME_HEADER_LEN,
{
    u64_to_le_bytes(len as u64)
}

/// Decode a length prefix, rejecting any value whose upper 32 bits are
/// nonzero.
pub fn decode_header(h: &[u8]) -> (r: Result<u32, ProtocolViolation>)
    requires
        h@.len() == FRAME_HEADER_LEN,
    ensures
        ({
            let v = spec_u64_from_le_bytes(h@);
            match r {
                Ok(l) => v <= u32::MAX && l == v as u32,
                Err(e) => v > u32::MAX && e == ProtocolViolation::CorruptFrameLength(v),
            }
        }),
{
    let v = u64_from_le_bytes(h);
    if v > 0xffff_ffffu64 {
        Err(ProtocolViolation::CorruptFrameLength(v))
    } else {
        Ok(v as u32)
    }
}

/// Encoding a payload length and decoding it again yields the length back:
/// the header is an exact round trip.
pub proof fn lemma_header_round_trip(len: u32)
    ensures
        spec_header(len).len() == FRAME_HEADER_LEN,
        spec_u64_from_le_bytes(spec_header(len)) == len as u64,
        len as u64 <= u32::MAX,
{
    lemma_auto_spec_u64_to_from_le_bytes();
}

/// The corruption canary is exact: an 8-byte prefix decodes to a value
/// that fits 32 bits if and only if its upper four bytes are zero.
pub proof fn lemma_corruption_guard(h: Seq<u8>)
    requires
        h.len() == FRAME_HEADER_LEN,
    ensures
        (spec_u64_from_le_bytes(h) <= u32::MAX) <==> (h[4] == 0 && h[5] == 0 && h[6] == 0 && h[7]
            == 0),
{
    lemma_auto_spec_u64_to_from_le_bytes();
    let v = spec_u64_from_le_bytes(h);
    assert(spec_u64_to_le_bytes(v) == h);
    spec_u64_to_le_bytes_to_open(v);
    assert(h == spec_u64_to_le_bytes_open(v));
    assert(h[4] == ((v >> 32) & 0xff) as u8);
    assert(h[5] == ((v >> 40) & 0xff) as u8);
    assert(h[6] == ((v >> 48) & 0xff) as u8);
    assert(h[7] == ((v >> 56) & 0xff) as u8);
    assert(((v >> 32) & 0xff) < 256 && ((v >> 40) & 0xff) < 256 && ((v >> 48) & 0xff) < 256 && ((v
        >> 56) & 0xff) < 256) by (bit_vector);
    assert((v <= 0xffff_ffffu64) <==> (((v >> 32) & 0xff) == 0 && ((v >> 40) & 0xff) == 0 && ((v
        >> 48) & 0xff) == 0 && ((v >> 56) & 0xff) == 0)) by (bit_vector);
}

} // verus!
