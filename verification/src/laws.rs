//! What holds of encoding and decoding taken together, for every input.

use crate::codec::{
    decode_from, encoded, frame, phases_left, within_limit, CodecState, Outcome, Step,
};
use crate::error::CodecError;
use crate::wire::{be_bytes, be_u64, lemma_be_bytes_of_be_u64, lemma_be_u64_of_be_bytes};
use vstd::prelude::*;

verus! {

/// The number of bytes that the phase `state` takes from the buffer in one piece.
pub open spec fn needed(state: CodecState) -> nat {
    match state {
        CodecState::Id => 8,
        CodecState::Len { .. } => 8,
        CodecState::Payload { len, .. } => len as nat,
    }
}

/// A codec that is fed a stream piece by piece. It starts in phase `state` with `pending`
/// in its buffer; each chunk in turn is appended to the buffer and the decoder is called,
/// until a call finds something other than a short buffer. The chunks that arrive after that
/// call are appended to what it left and not looked at. With no chunk to come, the decoder
/// is called on the buffer as it is.
pub open spec fn feed(state: CodecState, max: u64, pending: Seq<u8>, chunks: Seq<Seq<u8>>) -> Step
    decreases chunks.len(),
{
    if chunks.len() == 0 {
        decode_from(state, max, pending)
    } else {
        let step = decode_from(state, max, pending + chunks.first());
        if step.outcome is Incomplete {
            feed(step.state, max, step.rest, chunks.drop_first())
        } else {
            Step {
                state: step.state,
                rest: step.rest + chunks.drop_first().flatten(),
                outcome: step.outcome,
            }
        }
    }
}

/// Encoding and then decoding gives the message back: where a payload is within the limit,
/// the decoder at the start of a frame, called on the bytes that encoding appends, finds the
/// same identifier and payload, is back at the start of a frame, and leaves in the buffer
/// exactly the bytes `tail` that followed the frame.
pub proof fn law_round_trip(max: u64, id: u64, payload: Seq<u8>, tail: Seq<u8>)
    requires
        payload.len() <= max,
    ensures
        encoded(max, id, payload) == Ok::<Seq<u8>, CodecError>(frame(id, payload)),
        decode_from(CodecState::Id, max, frame(id, payload) + tail) == (Step {
            state: CodecState::Id,
            rest: tail,
            outcome: Outcome::Frame { id, payload },
        }),
{
    let len: u64 = payload.len() as u64;
    let input = frame(id, payload) + tail;
    let after_id = input.subrange(8, input.len() as int);
    let after_len = after_id.subrange(8, after_id.len() as int);
    lemma_be_u64_of_be_bytes(id);
    lemma_be_u64_of_be_bytes(len);
    assert(after_id =~= be_bytes(len) + payload + tail);
    assert(after_len =~= payload + tail);
    assert(be_u64(input) == be_u64(be_bytes(id)));
    assert(be_u64(after_id) == be_u64(be_bytes(len)));
    assert(after_len.subrange(0, len as int) =~= payload);
    assert(after_len.subrange(len as int, after_len.len() as int) =~= tail);
}

/// Decoding and then encoding gives the bytes back: where the decoder at the start of a
/// frame finds a frame, its payload is within the limit, and the input was exactly the bytes
/// that encoding appends for that identifier and payload, followed by what the decoder left.
pub proof fn law_decoded_frame_was_encoded(max: u64, input: Seq<u8>)
    requires
        decode_from(CodecState::Id, max, input).outcome is Frame,
    ensures
        ({
            let step = decode_from(CodecState::Id, max, input);
            &&& step.outcome matches Outcome::Frame { id, payload }
            &&& payload.len() <= max
            &&& encoded(max, id, payload) == Ok::<Seq<u8>, CodecError>(frame(id, payload))
            &&& input == frame(id, payload) + step.rest
        }),
{
    let step = decode_from(CodecState::Id, max, input);
    let after_id = input.subrange(8, input.len() as int);
    let after_len = after_id.subrange(8, after_id.len() as int);
    let id: u64 = be_u64(input);
    let len: u64 = be_u64(after_id);
    let payload = after_len.subrange(0, len as int);
    lemma_be_bytes_of_be_u64(input.subrange(0, 8));
    lemma_be_bytes_of_be_u64(after_id.subrange(0, 8));
    assert(be_u64(input.subrange(0, 8)) == id);
    assert(be_u64(after_id.subrange(0, 8)) == len);
    assert(input =~= frame(id, payload) + step.rest);
}

/// The decoder takes nothing from a buffer that is too short for the current phase: it
/// reports that no frame is there yet, stays in its phase and leaves the buffer as it was.
/// And whenever it reports that no frame is there yet, what it leaves in the buffer is too
/// short for the phase that it stopped in.
pub proof fn law_no_over_consumption(state: CodecState, max: u64, input: Seq<u8>)
    ensures
        input.len() < needed(state) ==> decode_from(state, max, input) == (Step {
            state,
            rest: input,
            outcome: Outcome::Incomplete,
        }),
        decode_from(state, max, input).outcome is Incomplete ==> decode_from(
            state,
            max,
            input,
        ).rest.len() < needed(decode_from(state, max, input).state),
{
}

/// The decoder does not let its buffer grow without bound. A decoder that waits for no
/// payload over the limit goes on doing so, and when it reports that no frame is there yet,
/// it leaves fewer bytes in the buffer than a header field or the largest payload has.
pub proof fn law_bounded_wait(state: CodecState, max: u64, input: Seq<u8>)
    requires
        within_limit(state, max),
    ensures
        within_limit(decode_from(state, max, input).state, max),
        decode_from(state, max, input).outcome is Incomplete ==> decode_from(
            state,
            max,
            input,
        ).rest.len() < 8 || decode_from(state, max, input).rest.len() < max,
{
}

/// The decoder never adds to the buffer: what it leaves is the end of what it was given.
pub proof fn law_rest_is_suffix(state: CodecState, max: u64, input: Seq<u8>)
    ensures
        decode_from(state, max, input).rest.len() <= input.len(),
        decode_from(state, max, input).rest == input.subrange(
            input.len() - decode_from(state, max, input).rest.len(),
            input.len() as int,
        ),
{
    let step = decode_from(state, max, input);
    assert(step.rest =~= input.subrange(input.len() - step.rest.len(), input.len() as int));
}

/// A call that found too few bytes loses nothing: once `more` bytes have been appended to
/// what it left, the next call finds what a single call on all the bytes would have found.
pub proof fn law_resume(state: CodecState, max: u64, input: Seq<u8>, more: Seq<u8>)
    requires
        decode_from(state, max, input).outcome is Incomplete,
    ensures
        decode_from(
            decode_from(state, max, input).state,
            max,
            decode_from(state, max, input).rest + more,
        ) == decode_from(state, max, input + more),
    decreases phases_left(state),
{
    let whole = input + more;
    match state {
        CodecState::Id => {
            if input.len() >= 8 {
                let id: u64 = be_u64(input);
                let after_id = input.subrange(8, input.len() as int);
                assert(be_u64(whole) == id);
                assert(whole.subrange(8, whole.len() as int) =~= after_id + more);
                law_resume(CodecState::Len { id }, max, after_id, more);
            }
        },
        CodecState::Len { id } => {
            if input.len() >= 8 {
                let len: u64 = be_u64(input);
                let after_len = input.subrange(8, input.len() as int);
                assert(be_u64(whole) == len);
                assert(whole.subrange(8, whole.len() as int) =~= after_len + more);
                law_resume(CodecState::Payload { id, len }, max, after_len, more);
            }
        },
        CodecState::Payload { .. } => {},
    }
}

/// A call that found a frame, or a length over the limit, did not look past it: with `more`
/// bytes behind the same input it finds the same, stops in the same phase, and leaves those
/// bytes behind what it left before.
pub proof fn law_one_frame_per_call(state: CodecState, max: u64, input: Seq<u8>, more: Seq<u8>)
    requires
        !(decode_from(state, max, input).outcome is Incomplete),
    ensures
        decode_from(state, max, input + more) == (Step {
            state: decode_from(state, max, input).state,
            rest: decode_from(state, max, input).rest + more,
            outcome: decode_from(state, max, input).outcome,
        }),
    decreases phases_left(state),
{
    let whole = input + more;
    match state {
        CodecState::Id => {
            let id: u64 = be_u64(input);
            let after_id = input.subrange(8, input.len() as int);
            assert(be_u64(whole) == id);
            assert(whole.subrange(8, whole.len() as int) =~= after_id + more);
            law_one_frame_per_call(CodecState::Len { id }, max, after_id, more);
        },
        CodecState::Len { id } => {
            let len: u64 = be_u64(input);
            let after_len = input.subrange(8, input.len() as int);
            assert(be_u64(whole) == len);
            assert(whole.subrange(8, whole.len() as int) =~= after_len + more);
            if len <= max {
                law_one_frame_per_call(CodecState::Payload { id, len }, max, after_len, more);
            }
        },
        CodecState::Payload { id, len } => {
            assert(whole.subrange(0, len as int) =~= input.subrange(0, len as int));
            assert(whole.subrange(len as int, whole.len() as int) =~= input.subrange(
                len as int,
                input.len() as int,
            ) + more);
        },
    }
}

/// Feeding a stream in chunks, however it is cut, finds what a single call on the whole
/// stream finds, stops in the same phase and leaves the same bytes.
pub proof fn law_chunked_feed(state: CodecState, max: u64, pending: Seq<u8>, chunks: Seq<Seq<u8>>)
    ensures
        feed(state, max, pending, chunks) == decode_from(state, max, pending + chunks.flatten()),
    decreases chunks.len(),
{
    if chunks.len() == 0 {
        assert(pending + chunks.flatten() =~= pending);
    } else {
        let first = chunks.first();
        let later = chunks.drop_first();
        let step = decode_from(state, max, pending + first);
        assert(pending + chunks.flatten() =~= (pending + first) + later.flatten());
        if step.outcome is Incomplete {
            law_chunked_feed(step.state, max, step.rest, later);
            law_resume(state, max, pending + first, later.flatten());
        } else {
            law_one_frame_per_call(state, max, pending + first, later.flatten());
        }
    }
}

/// A frame that arrives in chunks, however it is cut, is decoded as it is in one piece: a
/// fresh decoder fed the chunks finds the identifier and payload that were encoded, is back
/// at the start of a frame, and has emptied the buffer.
pub proof fn law_incremental_frame(max: u64, id: u64, payload: Seq<u8>, chunks: Seq<Seq<u8>>)
    requires
        payload.len() <= max,
        chunks.flatten() == frame(id, payload),
    ensures
        feed(CodecState::Id, max, Seq::empty(), chunks) == decode_from(
            CodecState::Id,
            max,
            frame(id, payload),
        ),
        feed(CodecState::Id, max, Seq::empty(), chunks) == (Step {
            state: CodecState::Id,
            rest: Seq::empty(),
            outcome: Outcome::Frame { id, payload },
        }),
{
    law_chunked_feed(CodecState::Id, max, Seq::empty(), chunks);
    law_round_trip(max, id, payload, Seq::empty());
    assert(Seq::<u8>::empty() + chunks.flatten() =~= frame(id, payload));
    assert(frame(id, payload) + Seq::<u8>::empty() =~= frame(id, payload));
}

/// The limit cuts at the same size on both paths. Encoding accepts a payload exactly when
/// its size is at most the limit. Decoding refuses a header, whatever follows it, exactly
/// when the length that it announces is over the limit, and the error names that length.
pub proof fn law_limit_is_symmetric(max: u64, id: u64, payload: Seq<u8>, len: u64, tail: Seq<u8>)
    ensures
        encoded(max, id, payload) is Ok <==> payload.len() <= max,
        decode_from(CodecState::Id, max, be_bytes(id) + be_bytes(len) + tail).outcome is TooLarge
            <==> len > max,
        len > max ==> decode_from(CodecState::Id, max, be_bytes(id) + be_bytes(len) + tail).outcome
            == (Outcome::TooLarge { len }),
{
    let input = be_bytes(id) + be_bytes(len) + tail;
    let after_id = input.subrange(8, input.len() as int);
    lemma_be_u64_of_be_bytes(id);
    lemma_be_u64_of_be_bytes(len);
    assert(after_id =~= be_bytes(len) + tail);
    assert(be_u64(after_id) == be_u64(be_bytes(len)));
}

/// What a payload holds does not touch the framing: after any frame within the limit the
/// decoder is at the start of a frame again, and the frame behind it is decoded whole.
pub proof fn law_frames_are_isolated(
    max: u64,
    id: u64,
    payload: Seq<u8>,
    next_id: u64,
    next_payload: Seq<u8>,
    tail: Seq<u8>,
)
    requires
        payload.len() <= max,
        next_payload.len() <= max,
    ensures
        ({
            let first = decode_from(
                CodecState::Id,
                max,
                frame(id, payload) + frame(next_id, next_payload) + tail,
            );
            &&& first.state == CodecState::Id
            &&& first.outcome == (Outcome::Frame { id, payload })
            &&& decode_from(first.state, max, first.rest) == (Step {
                state: CodecState::Id,
                rest: tail,
                outcome: Outcome::Frame { id: next_id, payload: next_payload },
            })
        }),
{
    let stream = frame(id, payload) + frame(next_id, next_payload) + tail;
    assert(stream =~= frame(id, payload) + (frame(next_id, next_payload) + tail));
    law_round_trip(max, id, payload, frame(next_id, next_payload) + tail);
    law_round_trip(max, next_id, next_payload, tail);
}

} // verus!
