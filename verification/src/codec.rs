//! The frame codec: an encoder that appends whole frames, and an incremental decoder that
//! takes a frame apart in three phases and remembers between calls how far it has come.

#![allow(deprecated)]

use crate::buffer::buffered;
use crate::error::{too_big, CodecError, Oversize};
use crate::wire::{be_bytes, be_u64, read_u64_be, write_u64_be, FIELD_LEN};
use tokio_core::io::EasyBuf;
use vstd::prelude::*;
use vstd::slice::slice_to_vec;

verus! {

/// How far the decoder has come in the frame that it is reading.
#[derive(Debug, Clone, Copy, PartialEq, Eq, Structural)]
pub enum CodecState {
    /// Nothing of the next frame has been read; its identifier comes first.
    Id,
    /// The identifier has been read; the payload length comes next.
    Len { id: u64 },
    /// The header has been read; `len` bytes of payload come next.
    Payload { id: u64, len: u64 },
}

/// What one call of the decoder found.
pub enum Outcome {
    /// The buffer ends before the current phase does: no frame yet.
    Incomplete,
    /// A whole frame.
    Frame { id: u64, payload: Seq<u8> },
    /// The header announces `len` payload bytes, more than the limit.
    TooLarge { len: u64 },
}

/// The result of one call of the decoder: the phase it stops in, the bytes it leaves in the
/// buffer, and what it found.
pub struct Step {
    pub state: CodecState,
    pub rest: Seq<u8>,
    pub outcome: Outcome,
}

/// The bytes of one frame: identifier, payload length, payload.
pub open spec fn frame(id: u64, payload: Seq<u8>) -> Seq<u8>
    recommends
        payload.len() <= u64::MAX,
{
    be_bytes(id) + be_bytes(payload.len() as u64) + payload
}

/// What encoding does under the limit `max`: the bytes that it appends for the payload
/// `payload` under the identifier `id`, or the error with which it refuses the payload.
pub open spec fn encoded(max: u64, id: u64, payload: Seq<u8>) -> Result<Seq<u8>, CodecError> {
    if payload.len() <= max {
        Ok(frame(id, payload))
    } else {
        Err(
            CodecError::SizeExceeded(
                Oversize { payload_size: payload.len() as u64, max_payload_size: max },
            ),
        )
    }
}

/// Decoding with the header already read: the payload is taken once all of it is there.
pub open spec fn decode_payload(id: u64, len: u64, input: Seq<u8>) -> Step {
    if input.len() < len {
        Step { state: CodecState::Payload { id, len }, rest: input, outcome: Outcome::Incomplete }
    } else {
        Step {
            state: CodecState::Id,
            rest: input.subrange(len as int, input.len() as int),
            outcome: Outcome::Frame { id, payload: input.subrange(0, len as int) },
        }
    }
}

/// Decoding with the identifier already read: the length field is taken once all eight
/// bytes of it are there, and checked against the limit `max` before the payload is looked
/// at.
pub open spec fn decode_len(id: u64, max: u64, input: Seq<u8>) -> Step {
    if input.len() < 8 {
        Step { state: CodecState::Len { id }, rest: input, outcome: Outcome::Incomplete }
    } else if be_u64(input) > max {
        Step {
            state: CodecState::Len { id },
            rest: input.subrange(8, input.len() as int),
            outcome: Outcome::TooLarge { len: be_u64(input) },
        }
    } else {
        decode_payload(id, be_u64(input), input.subrange(8, input.len() as int))
    }
}

/// Decoding at the start of a frame: the identifier is taken once all eight bytes of it are
/// there.
pub open spec fn decode_id(max: u64, input: Seq<u8>) -> Step {
    if input.len() < 8 {
        Step { state: CodecState::Id, rest: input, outcome: Outcome::Incomplete }
    } else {
        decode_len(be_u64(input), max, input.subrange(8, input.len() as int))
    }
}

/// One call of the decoder, in phase `state` with limit `max`, on a buffer holding `input`.
///
/// The decoder goes from phase to phase for as long as the buffer holds all the bytes of the
/// current one, and takes bytes out of the buffer only when it completes a phase. It stops
/// at the latest when a frame is complete, so one call yields at most one frame.
pub open spec fn decode_from(state: CodecState, max: u64, input: Seq<u8>) -> Step {
    match state {
        CodecState::Id => decode_id(max, input),
        CodecState::Len { id } => decode_len(id, max, input),
        CodecState::Payload { id, len } => decode_payload(id, len, input),
    }
}

/// Whether the value `r` that the decoder returns reports `outcome` under the limit `max`.
pub open spec fn reports(
    r: Result<Option<(u64, Vec<u8>)>, CodecError>,
    outcome: Outcome,
    max: u64,
) -> bool {
    match outcome {
        Outcome::Incomplete => r == Ok::<Option<(u64, Vec<u8>)>, CodecError>(None),
        Outcome::Frame { id, payload } => r matches Ok(Some(found)) && found.0 == id && found.1@
            == payload,
        Outcome::TooLarge { len } => r == Err::<Option<(u64, Vec<u8>)>, CodecError>(
            CodecError::FrameTooLarge(Oversize { payload_size: len, max_payload_size: max }),
        ),
    }
}

/// Whether a decoder in phase `state` waits for no payload longer than the limit `max`.
pub open spec fn within_limit(state: CodecState, max: u64) -> bool {
    state matches CodecState::Payload { len, .. } ==> len <= max
}

/// The number of phases that come after `state` before a frame is complete.
pub open spec fn phases_left(state: CodecState) -> nat {
    match state {
        CodecState::Id => 2,
        CodecState::Len { .. } => 1,
        CodecState::Payload { .. } => 0,
    }
}

/// Encoder and incremental decoder of frames, for one direction of one connection.
pub struct Codec {
    max_payload_size: u64,
    state: CodecState,
}

impl Codec {
    /// A codec never waits for a payload that it would refuse.
    #[verifier::type_invariant]
    spec fn payload_within_limit(self) -> bool {
        within_limit(self.state, self.max_payload_size)
    }

    /// The largest payload, in bytes, that this codec encodes or decodes.
    pub closed spec fn spec_max_payload_size(&self) -> u64 {
        self.max_payload_size
    }

    /// The phase that the decoder is in.
    pub closed spec fn spec_state(&self) -> CodecState {
        self.state
    }

    /// A codec with the given payload limit, at the start of a frame.
    pub fn new(max_payload_size: u64) -> (codec: Self)
        ensures
            codec.max_payload_size() == max_payload_size,
            codec.state() == CodecState::Id,
    {
        Codec { max_payload_size, state: CodecState::Id }
    }

    /// The largest payload, in bytes, that this codec encodes or decodes.
    #[verifier::when_used_as_spec(spec_max_payload_size)]
    pub fn max_payload_size(&self) -> (max: u64)
        ensures
            max == self.max_payload_size(),
    {
        self.max_payload_size
    }

    /// The phase that the decoder is in.
    #[verifier::when_used_as_spec(spec_state)]
    pub fn state(&self) -> (state: CodecState)
        ensures
            state == self.state(),
            within_limit(state, self.max_payload_size()),
    {
        proof {
            use_type_invariant(self);
        }
        self.state
    }

    /// Appends to `buf` the frame that carries the payload `msg.1` under the identifier
    /// `msg.0`, unless the payload is longer than the limit: then nothing is written and the
    /// error gives the payload's size and the limit.
    pub fn encode(&mut self, msg: (u64, Vec<u8>), buf: &mut Vec<u8>) -> (r: Result<
        (),
        CodecError,
    >)
        ensures
            *final(self) == *old(self),
            match encoded(old(self).max_payload_size(), msg.0, msg.1@) {
                Ok(bytes) => r is Ok && final(buf)@ == old(buf)@ + bytes,
                Err(e) => r == Err::<(), CodecError>(e) && final(buf)@ == old(buf)@,
            },
    {
        let (id, mut payload) = msg;
        let payload_size: u64 = payload.len() as u64;
        if payload_size > self.max_payload_size {
            return Err(CodecError::SizeExceeded(too_big(payload_size, self.max_payload_size)));
        }
        write_u64_be(buf, id);
        write_u64_be(buf, payload_size);
        buf.append(&mut payload);
        Ok(())
    }

    /// Takes the next frame out of `buf`, as far as its bytes are there.
    ///
    /// The call is [`decode_from`] on the codec's phase and the buffer's contents: it leaves
    /// the codec in the phase where that stops and the buffer with the bytes that it leaves,
    /// and returns `Ok(None)` where the buffer ended too early, the identifier and payload
    /// of the frame where one was completed, and `FrameTooLarge` where the length field is
    /// over the limit.
    pub fn decode(&mut self, buf: &mut EasyBuf) -> (r: Result<Option<(u64, Vec<u8>)>, CodecError>)
        ensures
            final(self).max_payload_size() == old(self).max_payload_size(),
            ({
                let step = decode_from(
                    old(self).state(),
                    old(self).max_payload_size(),
                    buffered(*old(buf)),
                );
                &&& final(self).state() == step.state
                &&& buffered(*final(buf)) == step.rest
                &&& reports(r, step.outcome, old(self).max_payload_size())
            }),
            within_limit(final(self).state(), final(self).max_payload_size()),
    {
        let ghost goal = decode_from(self.state, self.max_payload_size, buffered(*buf));
        proof {
            use_type_invariant(&*self);
        }
        loop
            invariant
                self.max_payload_size == old(self).max_payload_size,
                within_limit(self.state, self.max_payload_size),
                decode_from(self.state, self.max_payload_size, buffered(*buf)) == goal,
                goal == decode_from(
                    old(self).state,
                    old(self).max_payload_size,
                    buffered(*old(buf)),
                ),
            decreases phases_left(self.state),
        {
            match self.state {
                CodecState::Id => {
                    if buf.len() < FIELD_LEN {
                        return Ok(None);
                    }
                    let head = buf.drain_to(FIELD_LEN);
                    let id: u64 = read_u64_be(head.as_slice());
                    self.state = CodecState::Len { id };
                },
                CodecState::Len { id } => {
                    if buf.len() < FIELD_LEN {
                        return Ok(None);
                    }
                    let head = buf.drain_to(FIELD_LEN);
                    let len: u64 = read_u64_be(head.as_slice());
                    if len > self.max_payload_size {
                        return Err(CodecError::FrameTooLarge(too_big(len, self.max_payload_size)));
                    }
                    self.state = CodecState::Payload { id, len };
                },
                CodecState::Payload { id, len } => {
                    if (buf.len() as u64) < len {
                        return Ok(None);
                    }
                    let payload = buf.drain_to(len as usize);
                    let bytes = slice_to_vec(payload.as_slice());
                    self.state = CodecState::Id;
                    return Ok(Some((id, bytes)));
                },
            }
        }
    }
}

} // verus!
