//! Frame lengths: a four-byte big-endian prefix before every frame.
use vstd::prelude::*;

verus! {

/// Bytes of the length prefix.
pub const FRAME_LENGTH_PREFIX_BYTES: usize = 4;
/// Largest frame body.
pub const MAX_FRAME_BYTES: usize = 65536;

/// Why a frame could not be sent or received.
#[derive(Clone, Copy, Debug, PartialEq, Eq, Structural)]
pub enum FrameError {
    Interrupted,
    Unavailable,
    ProtocolViolation,
    ResourceExhausted,
}

/// The number a four-byte big-endian prefix holds.
pub open spec fn prefix_value(p: Seq<u8>) -> int {
    p[0] * 16777216 + p[1] * 65536 + p[2] * 256 + p[3]
}

/// The prefix announcing a frame of `frame_bytes`, or a protocol violation
/// for an empty or oversized frame.
pub fn encode_frame_length(frame_bytes: usize) -> (result: Result<[u8; 4], FrameError>)
    ensures
        (frame_bytes == 0 || frame_bytes > MAX_FRAME_BYTES) ==> result == Err::<[u8; 4], FrameError>(
            FrameError::ProtocolViolation,
        ),
        1 <= frame_bytes <= MAX_FRAME_BYTES ==> (result matches Ok(p) && prefix_value(p@)
            == frame_bytes),
        result matches Ok(p) ==> p@[0] == 0 && p@[1] == frame_bytes / 65536 && p@[2] == (frame_bytes
            / 256) % 256 && p@[3] == frame_bytes % 256,
{
    if frame_bytes == 0 || frame_bytes > MAX_FRAME_BYTES {
        return Err(FrameError::ProtocolViolation);
    }
    let n = frame_bytes as u32;
    let p = [(n / 16777216) as u8, ((n / 65536) % 256) as u8, ((n / 256) % 256) as u8, (n % 256) as u8];
    Ok(p)
}

/// The frame length announced by `prefix`: zero or more than the largest
/// frame is a protocol violation; more than the receiver's `capacity` is a
/// resource it does not have.
pub fn decode_frame_length(prefix: [u8; 4], capacity: usize) -> (result: Result<usize, FrameError>)
    ensures
        (prefix_value(prefix@) == 0 || prefix_value(prefix@) > MAX_FRAME_BYTES) ==> result == Err::<
            usize,
            FrameError,
        >(FrameError::ProtocolViolation),
        1 <= prefix_value(prefix@) <= MAX_FRAME_BYTES && prefix_value(prefix@) > capacity ==> result
            == Err::<usize, FrameError>(FrameError::ResourceExhausted),
        1 <= prefix_value(prefix@) <= MAX_FRAME_BYTES && prefix_value(prefix@) <= capacity ==> result
            == Ok::<usize, FrameError>(prefix_value(prefix@) as usize),
{
    let value: u64 = prefix[0] as u64 * 16777216 + prefix[1] as u64 * 65536 + prefix[2] as u64 * 256
        + prefix[3] as u64;
    if value == 0 || value > MAX_FRAME_BYTES as u64 {
        return Err(FrameError::ProtocolViolation);
    }
    if value > capacity as u64 {
        return Err(FrameError::ResourceExhausted);
    }
    Ok(value as usize)
}

/// A frame length written as a prefix is read back as the same length.
pub proof fn law_frame_length_roundtrip(p: Seq<u8>, n: int)
    requires
        p.len() == 4,
        1 <= n <= MAX_FRAME_BYTES,
        p[0] == n / 16777216,
        p[1] == (n / 65536) % 256,
        p[2] == (n / 256) % 256,
        p[3] == n % 256,
    ensures
        prefix_value(p) == n,
{
}

/// The prefix is big-endian: a lone last byte is its own value, and
/// shifting the bytes one place towards the front multiplies the value by
/// 256 before the new last byte is added.
pub proof fn law_prefix_big_endian(b0: u8, b1: u8, b2: u8, b3: u8)
    ensures
        prefix_value(seq![0u8, 0u8, 0u8, b3]) == b3,
        prefix_value(seq![b0, b1, b2, b3]) == 256 * prefix_value(seq![0u8, b0, b1, b2]) + b3,
        prefix_value(seq![0u8, 0u8, 1u8, 0u8]) == 256,
{
}

} // verus!
