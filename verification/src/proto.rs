//! The binding of the codec to a connection.

use crate::codec::{Codec, CodecState};
use vstd::prelude::*;

verus! {

/// The framing of a connection, for the client's side as for the server's: it holds the
/// payload limit and makes the codec of each connection that is bound.
pub struct Proto {
    max_payload_size: u64,
}

impl Proto {
    /// The payload limit of every codec that this binding makes.
    pub closed spec fn spec_max_payload_size(&self) -> u64 {
        self.max_payload_size
    }

    /// Returns a new `Proto` with the given payload limit.
    pub fn new(max_payload_size: u64) -> (proto: Self)
        ensures
            proto.max_payload_size() == max_payload_size,
    {
        Proto { max_payload_size }
    }

    /// The payload limit of every codec that this binding makes.
    #[verifier::when_used_as_spec(spec_max_payload_size)]
    pub fn max_payload_size(&self) -> (max: u64)
        ensures
            max == self.max_payload_size(),
    {
        self.max_payload_size
    }

    /// The codec for a connection that is being bound: it has this binding's payload limit,
    /// in both directions, and is at the start of a frame.
    pub fn codec(&self) -> (codec: Codec)
        ensures
            codec.max_payload_size() == self.max_payload_size(),
            codec.state() == CodecState::Id,
    {
        Codec::new(self.max_payload_size)
    }
}

} // verus!
