//! The errors of the codec.

use vstd::prelude::*;

verus! {

/// A payload size together with the limit that it is over.
#[derive(Debug, Clone, Copy, PartialEq, Eq, Structural)]
pub struct Oversize {
    /// The size, in bytes, of the payload that was refused.
    pub payload_size: u64,
    /// The largest payload size that the codec accepts.
    pub max_payload_size: u64,
}

/// Why the codec refused to encode a message or to go on decoding a stream.
#[derive(Debug, Clone, Copy, PartialEq, Eq, Structural)]
pub enum CodecError {
    /// Encoding: the payload handed in is longer than the limit. Nothing was written, and
    /// the stream can go on with other messages.
    SizeExceeded(Oversize),
    /// Decoding: the peer announced a payload longer than the limit. The payload cannot be
    /// skipped safely, so the stream is lost.
    FrameTooLarge(Oversize),
}

/// Describes a payload of `payload_size` bytes that is over the limit `max_payload_size`.
pub fn too_big(payload_size: u64, max_payload_size: u64) -> (e: Oversize)
    ensures
        e.payload_size == payload_size,
        e.max_payload_size == max_payload_size,
{
    Oversize { payload_size, max_payload_size }
}

} // verus!
