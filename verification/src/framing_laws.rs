//! What the frame reader yields on well-formed streams, and that it yields
//! nothing of a malformed frame: the laws tie the byte-by-byte reader to
//! the layout of a frame.

use crate::framing::{
    end_sentinel, le_value, slide, start_sentinel, ReaderModel, END_SEARCH_LIMIT,
};
use vstd::prelude::*;

verus! {

/// The four bytes of the length field that announce `length` bytes.
pub open spec fn le_bytes(length: nat) -> Seq<u8> {
    seq![
        (length % 0x100) as u8,
        ((length / 0x100) % 0x100) as u8,
        ((length / 0x1_0000) % 0x100) as u8,
        ((length / 0x100_0000) % 0x100) as u8,
    ]
}

/// The bytes of the frame that carries `payload`.
pub open spec fn frame_bytes(payload: Seq<u8>) -> Seq<u8> {
    start_sentinel() + le_bytes(payload.len()) + payload + end_sentinel()
}

/// Whether `pattern` stands in `stream` at index `at`.
pub open spec fn occurs_at(stream: Seq<u8>, pattern: Seq<u8>, at: int) -> bool {
    &&& 0 <= at
    &&& at + pattern.len() <= stream.len()
    &&& stream.subrange(at, at + pattern.len()) == pattern
}

/// Whether `pattern` stands nowhere in `stream`.
pub open spec fn free_of(stream: Seq<u8>, pattern: Seq<u8>) -> bool {
    forall|at: int| !occurs_at(stream, pattern, at)
}

/// The last `count` bytes of `stream`, or all of it if it is shorter.
pub open spec fn tail(stream: Seq<u8>, count: nat) -> Seq<u8> {
    if stream.len() <= count {
        stream
    } else {
        stream.subrange(stream.len() - count, stream.len() as int)
    }
}

/// The reader that looks for the start sentinel with `window` as its
/// sliding window.
pub open spec fn seeking_start(window: Seq<u8>) -> ReaderModel {
    ReaderModel { window, ..ReaderModel::initial() }
}

/// The stream in which each payload stands in a frame of its own, each
/// frame after the noise of the same index.
pub open spec fn framed_stream(noises: Seq<Seq<u8>>, payloads: Seq<Seq<u8>>) -> Seq<u8>
    recommends
        noises.len() == payloads.len(),
    decreases payloads.len(),
{
    if payloads.len() == 0 || noises.len() == 0 {
        Seq::empty()
    } else {
        framed_stream(noises.drop_last(), payloads.drop_last()) + noises.last() + frame_bytes(
            payloads.last(),
        )
    }
}

/// The length field writes the length that it was made from.
pub proof fn lemma_length_round_trip(length: nat)
    requires
        length <= u32::MAX,
    ensures
        le_bytes(length).len() == 4,
        le_value(le_bytes(length)) == length,
{
}

/// Running over two pieces of a stream is running over the first and then,
/// from where that ended, over the second.
pub proof fn lemma_run_concat(state: ReaderModel, first: Seq<u8>, second: Seq<u8>)
    ensures
        state.run(first + second) == (
            state.run(first).0.run(second).0,
            state.run(first).1 + state.run(first).0.run(second).1,
        ),
    decreases second.len(),
{
    let middle = state.run(first).0;
    if second.len() == 0 {
        assert(first + second =~= first);
        assert(state.run(first).1 + middle.run(second).1 =~= state.run(first).1);
    } else {
        let whole = first + second;
        assert(whole.drop_last() =~= first + second.drop_last());
        assert(whole.last() == second.last());
        lemma_run_concat(state, first, second.drop_last());
        let (before, frames) = middle.run(second.drop_last());
        let (after, frame) = before.step(second.last());
        match frame {
            Some(payload) => {
                assert(state.run(first).1 + frames.push(payload) =~= (state.run(first).1
                    + frames).push(payload));
            },
            None => {},
        }
    }
}

/// A stream that is free of a pattern stays so when its last byte is
/// taken away.
proof fn lemma_free_of_prefix(stream: Seq<u8>, pattern: Seq<u8>)
    requires
        free_of(stream, pattern),
        stream.len() > 0,
    ensures
        free_of(stream.drop_last(), pattern),
{
    let shorter = stream.drop_last();
    assert forall|at: int| !occurs_at(shorter, pattern, at) by {
        if occurs_at(shorter, pattern, at) {
            assert(stream.subrange(at, at + pattern.len()) =~= shorter.subrange(
                at,
                at + pattern.len(),
            ));
            assert(occurs_at(stream, pattern, at));
        }
    }
}

/// The window after one more byte is the tail of the longer stream.
proof fn lemma_slide_tail(stream: Seq<u8>, cap: nat)
    requires
        stream.len() > 0,
        cap > 0,
    ensures
        slide(tail(stream.drop_last(), cap), stream.last(), cap) == tail(stream, cap),
{
    assert(slide(tail(stream.drop_last(), cap), stream.last(), cap) =~= tail(stream, cap));
}

/// The tail of a stream that is free of a pattern is not the pattern.
proof fn lemma_tail_is_no_match(stream: Seq<u8>, pattern: Seq<u8>)
    requires
        free_of(stream, pattern),
    ensures
        tail(stream, pattern.len()) != pattern,
{
    if tail(stream, pattern.len()) == pattern {
        assert(stream.len() >= pattern.len());
        let at = stream.len() - pattern.len();
        assert(stream.subrange(at, at + pattern.len()) =~= tail(stream, pattern.len()));
        assert(occurs_at(stream, pattern, at));
    }
}

/// Over bytes that hold no start sentinel the reader keeps looking, yields
/// nothing, and remembers no more than the last bytes, as many as the
/// sentinel is long.
pub proof fn lemma_noise_is_skipped(noise: Seq<u8>)
    requires
        free_of(noise, start_sentinel()),
    ensures
        ReaderModel::initial().run(noise) == (
            seeking_start(tail(noise, start_sentinel().len())),
            Seq::<Seq<u8>>::empty(),
        ),
    decreases noise.len(),
{
    let start = ReaderModel::initial();
    if noise.len() == 0 {
        assert(tail(noise, start_sentinel().len()) =~= Seq::<u8>::empty());
    } else {
        lemma_free_of_prefix(noise, start_sentinel());
        lemma_noise_is_skipped(noise.drop_last());
        lemma_slide_tail(noise, start_sentinel().len());
        lemma_tail_is_no_match(noise, start_sentinel());
    }
}

/// The start sentinel is found where it first ends: if it stands at the end
/// of `stream` and nowhere before, the reader awaits the length field
/// after the last byte of `stream`, and not earlier.
pub proof fn lemma_start_is_found(stream: Seq<u8>)
    requires
        stream.len() >= start_sentinel().len(),
        occurs_at(stream, start_sentinel(), stream.len() - start_sentinel().len()),
        free_of(stream.drop_last(), start_sentinel()),
    ensures
        ReaderModel::initial().run(stream) == (
            ReaderModel::awaiting_length(),
            Seq::<Seq<u8>>::empty(),
        ),
{
    lemma_noise_is_skipped(stream.drop_last());
    lemma_slide_tail(stream, start_sentinel().len());
    assert(tail(stream, start_sentinel().len()) =~= stream.subrange(
        stream.len() - start_sentinel().len(),
        stream.len() as int,
    ));
}

/// The start sentinel has no proper prefix that is also its suffix: its
/// first byte stands nowhere else in it.
proof fn lemma_start_has_no_border(inside: int)
    requires
        1 <= inside < start_sentinel().len(),
    ensures
        start_sentinel()[inside] != start_sentinel()[0],
{
}

/// A start sentinel that follows noise free of it is the first one: none
/// ends inside its first seven bytes.
proof fn lemma_start_after_noise(noise: Seq<u8>)
    requires
        free_of(noise, start_sentinel()),
    ensures
        free_of((noise + start_sentinel()).drop_last(), start_sentinel()),
        occurs_at(noise + start_sentinel(), start_sentinel(), noise.len() as int),
{
    let pattern = start_sentinel();
    let size = pattern.len() as int;
    let whole = noise + pattern;
    let shorter = whole.drop_last();
    assert(whole.subrange(noise.len() as int, noise.len() + size) =~= pattern);
    assert forall|at: int| !occurs_at(shorter, pattern, at) by {
        if occurs_at(shorter, pattern, at) {
            let found = shorter.subrange(at, at + size);
            if at + size <= noise.len() {
                assert(noise.subrange(at, at + size) =~= found);
                assert(occurs_at(noise, pattern, at));
            } else {
                let inside = noise.len() - at;
                lemma_start_has_no_border(inside);
                assert(found[inside] == shorter[at + inside]);
                assert(shorter[noise.len() as int] == pattern[0]);
            }
        }
    }
}

/// While the length field is incomplete its bytes are gathered.
proof fn lemma_length_is_gathered(field: Seq<u8>, count: nat)
    requires
        count < 4,
        count <= field.len(),
    ensures
        ReaderModel::awaiting_length().run(field.take(count as int)) == (
            ReaderModel { header: field.take(count as int), ..ReaderModel::awaiting_length() },
            Seq::<Seq<u8>>::empty(),
        ),
    decreases count,
{
    let taken = field.take(count as int);
    if count == 0 {
        assert(taken =~= Seq::<u8>::empty());
    } else {
        lemma_length_is_gathered(field, (count - 1) as nat);
        assert(taken.drop_last() =~= field.take(count - 1));
        assert(field.take(count - 1).push(taken.last()) =~= taken);
    }
}

/// After the four bytes of the length field the reader knows the length.
proof fn lemma_length_is_read(field: Seq<u8>)
    requires
        field.len() == 4,
    ensures
        ReaderModel::awaiting_length().run(field) == (
            ReaderModel::after_length(le_value(field)),
            Seq::<Seq<u8>>::empty(),
        ),
{
    lemma_length_is_gathered(field, 3);
    assert(field.drop_last() =~= field.take(3));
    assert(field.take(3).push(field.last()) =~= field);
}

/// While the payload is incomplete its bytes are gathered.
proof fn lemma_payload_is_gathered(payload: Seq<u8>, count: nat)
    requires
        count < payload.len(),
    ensures
        ReaderModel::after_length(payload.len()).run(payload.take(count as int)) == (
            ReaderModel {
                payload: payload.take(count as int),
                ..ReaderModel::after_length(payload.len())
            },
            Seq::<Seq<u8>>::empty(),
        ),
    decreases count,
{
    let taken = payload.take(count as int);
    if count == 0 {
        assert(taken =~= Seq::<u8>::empty());
    } else {
        lemma_payload_is_gathered(payload, (count - 1) as nat);
        assert(taken.drop_last() =~= payload.take(count - 1));
        assert(payload.take(count - 1).push(taken.last()) =~= taken);
    }
}

/// After as many bytes as the length field announced, the payload is
/// complete and the end sentinel is awaited.
proof fn lemma_payload_is_read(payload: Seq<u8>)
    ensures
        ReaderModel::after_length(payload.len()).run(payload) == (
            ReaderModel::awaiting_end(payload, Seq::empty(), 0),
            Seq::<Seq<u8>>::empty(),
        ),
{
    if payload.len() == 0 {
        assert(payload =~= Seq::<u8>::empty());
    } else {
        let count = (payload.len() - 1) as nat;
        lemma_payload_is_gathered(payload, count);
        assert(payload.drop_last() =~= payload.take(count as int));
        assert(payload.take(count as int).push(payload.last()) =~= payload);
    }
}

/// Over bytes that hold no end sentinel, and are fewer than the bound, the
/// reader keeps the payload, keeps looking and yields nothing.
pub proof fn lemma_gap_is_skipped(payload: Seq<u8>, gap: Seq<u8>)
    requires
        free_of(gap, end_sentinel()),
        gap.len() < END_SEARCH_LIMIT,
    ensures
        ReaderModel::awaiting_end(payload, Seq::empty(), 0).run(gap) == (
            ReaderModel::awaiting_end(payload, tail(gap, end_sentinel().len()), gap.len()),
            Seq::<Seq<u8>>::empty(),
        ),
    decreases gap.len(),
{
    if gap.len() == 0 {
        assert(tail(gap, end_sentinel().len()) =~= Seq::<u8>::empty());
    } else {
        lemma_free_of_prefix(gap, end_sentinel());
        lemma_gap_is_skipped(payload, gap.drop_last());
        lemma_slide_tail(gap, end_sentinel().len());
        lemma_tail_is_no_match(gap, end_sentinel());
    }
}

/// The end sentinel is found where it first ends, and the payload is
/// yielded there: if the sentinel stands at the end of `rest` and nowhere
/// before, and `rest` is within the bound, the reader yields `payload`
/// after the last byte of `rest` and starts over.
pub proof fn lemma_end_is_found(payload: Seq<u8>, rest: Seq<u8>)
    requires
        end_sentinel().len() <= rest.len() <= END_SEARCH_LIMIT,
        occurs_at(rest, end_sentinel(), rest.len() - end_sentinel().len()),
        free_of(rest.drop_last(), end_sentinel()),
    ensures
        ReaderModel::awaiting_end(payload, Seq::empty(), 0).run(rest) == (
            ReaderModel::initial(),
            seq![payload],
        ),
{
    lemma_gap_is_skipped(payload, rest.drop_last());
    lemma_slide_tail(rest, end_sentinel().len());
    assert(tail(rest, end_sentinel().len()) =~= rest.subrange(
        rest.len() - end_sentinel().len(),
        rest.len() as int,
    ));
    assert(Seq::<Seq<u8>>::empty().push(payload) =~= seq![payload]);
}

/// A payload whose end sentinel does not come within the bound is given
/// up: after as many bytes as the bound allows, none of them completing
/// the sentinel, the reader is out of step and has yielded nothing.
pub proof fn lemma_end_not_found_is_desync(payload: Seq<u8>, junk: Seq<u8>)
    requires
        free_of(junk, end_sentinel()),
        junk.len() == END_SEARCH_LIMIT,
    ensures
        ReaderModel::awaiting_end(payload, Seq::empty(), 0).run(junk) == (
            ReaderModel::desynced(),
            Seq::<Seq<u8>>::empty(),
        ),
{
    lemma_free_of_prefix(junk, end_sentinel());
    lemma_gap_is_skipped(payload, junk.drop_last());
    lemma_slide_tail(junk, end_sentinel().len());
    lemma_tail_is_no_match(junk, end_sentinel());
}

/// A reader that is out of step stays so and yields nothing, whatever
/// comes: a payload that was given up is not yielded when its end sentinel
/// comes late, and no later frame is yielded before the reader is reset.
pub proof fn lemma_desynced_yields_nothing(bytes: Seq<u8>)
    ensures
        ReaderModel::desynced().run(bytes) == (
            ReaderModel::desynced(),
            Seq::<Seq<u8>>::empty(),
        ),
    decreases bytes.len(),
{
    if bytes.len() > 0 {
        lemma_desynced_yields_nothing(bytes.drop_last());
    }
}

/// From the length field on, a payload that is followed by as many bytes
/// as the bound allows, without an end sentinel among them, is dropped.
proof fn lemma_malformed_body(payload: Seq<u8>, junk: Seq<u8>, rest: Seq<u8>)
    requires
        payload.len() <= u32::MAX,
        free_of(junk, end_sentinel()),
        junk.len() == END_SEARCH_LIMIT,
    ensures
        ReaderModel::awaiting_length().run(le_bytes(payload.len()) + payload + junk + rest) == (
            ReaderModel::desynced(),
            Seq::<Seq<u8>>::empty(),
        ),
{
    let field = le_bytes(payload.len());
    let none = Seq::<Seq<u8>>::empty();
    lemma_length_round_trip(payload.len());
    lemma_length_is_read(field);
    lemma_payload_is_read(payload);
    lemma_end_not_found_is_desync(payload, junk);
    lemma_desynced_yields_nothing(rest);
    let state = ReaderModel::awaiting_length();
    lemma_run_concat(state, field, payload);
    lemma_run_concat(state, field + payload, junk);
    lemma_run_concat(state, field + payload + junk, rest);
    assert(none + none =~= none);
}

/// A malformed frame yields nothing: when a payload is followed by as many
/// bytes as the bound allows and the end sentinel is not among them, the
/// payload is never yielded, whatever comes after, and the reader is left
/// out of step.
pub proof fn lemma_malformed_frame_is_dropped(
    noise: Seq<u8>,
    payload: Seq<u8>,
    junk: Seq<u8>,
    rest: Seq<u8>,
)
    requires
        free_of(noise, start_sentinel()),
        payload.len() <= u32::MAX,
        free_of(junk, end_sentinel()),
        junk.len() == END_SEARCH_LIMIT,
    ensures
        ReaderModel::initial().run(
            noise + start_sentinel() + le_bytes(payload.len()) + payload + junk + rest,
        ) == (ReaderModel::desynced(), Seq::<Seq<u8>>::empty()),
{
    let start = ReaderModel::initial();
    let head = noise + start_sentinel();
    let body = le_bytes(payload.len()) + payload + junk + rest;
    let none = Seq::<Seq<u8>>::empty();
    lemma_start_after_noise(noise);
    lemma_start_is_found(head);
    lemma_malformed_body(payload, junk, rest);
    lemma_run_concat(start, head, body);
    assert(noise + start_sentinel() + le_bytes(payload.len()) + payload + junk + rest =~= head
        + body);
    assert(none + none =~= none);
}

/// From the length field on, a frame yields its payload and leaves the
/// reader at the start.
proof fn lemma_frame_body(payload: Seq<u8>)
    requires
        payload.len() <= u32::MAX,
    ensures
        ReaderModel::awaiting_length().run(le_bytes(payload.len()) + payload + end_sentinel())
            == (ReaderModel::initial(), seq![payload]),
{
    let field = le_bytes(payload.len());
    let end = end_sentinel();
    lemma_length_round_trip(payload.len());
    lemma_length_is_read(field);
    lemma_payload_is_read(payload);
    assert(free_of(end.drop_last(), end)) by {
        assert forall|at: int| !occurs_at(end.drop_last(), end, at) by {}
    }
    assert(end.subrange(0, end.len() as int) =~= end);
    lemma_end_is_found(payload, end);
    let state = ReaderModel::awaiting_length();
    lemma_run_concat(state, field, payload);
    lemma_run_concat(state, field + payload, end);
    assert(Seq::<Seq<u8>>::empty() + Seq::<Seq<u8>>::empty() =~= Seq::<Seq<u8>>::empty());
    assert(Seq::<Seq<u8>>::empty() + seq![payload] =~= seq![payload]);
}

/// A frame, after any noise that holds no start sentinel, yields exactly
/// its payload, once, and leaves the reader at the start: the reader falls
/// into step whatever came before the frame.
pub proof fn lemma_frame_yields_payload(noise: Seq<u8>, payload: Seq<u8>)
    requires
        free_of(noise, start_sentinel()),
        payload.len() <= u32::MAX,
    ensures
        ReaderModel::initial().run(noise + frame_bytes(payload)) == (
            ReaderModel::initial(),
            seq![payload],
        ),
{
    let start = ReaderModel::initial();
    let head = noise + start_sentinel();
    let body = le_bytes(payload.len()) + payload + end_sentinel();
    lemma_start_after_noise(noise);
    lemma_start_is_found(head);
    lemma_frame_body(payload);
    lemma_run_concat(start, head, body);
    assert(noise + frame_bytes(payload) =~= head + body);
    assert(Seq::<Seq<u8>>::empty() + seq![payload] =~= seq![payload]);
}

/// A frame alone yields exactly its payload.
pub proof fn lemma_bare_frame_yields_payload(payload: Seq<u8>)
    requires
        payload.len() <= u32::MAX,
    ensures
        ReaderModel::initial().run(frame_bytes(payload)) == (
            ReaderModel::initial(),
            seq![payload],
        ),
{
    let noise = Seq::<u8>::empty();
    assert(free_of(noise, start_sentinel())) by {
        assert forall|at: int| !occurs_at(noise, start_sentinel(), at) by {}
    }
    lemma_frame_yields_payload(noise, payload);
    assert(noise + frame_bytes(payload) =~= frame_bytes(payload));
}

/// Frames that follow one another, each after noise that holds no start
/// sentinel, yield their payloads in order, each once: after a frame the
/// reader goes on from where the frame ended.
pub proof fn lemma_frames_in_sequence(noises: Seq<Seq<u8>>, payloads: Seq<Seq<u8>>)
    requires
        noises.len() == payloads.len(),
        forall|i: int| 0 <= i < noises.len() ==> free_of(#[trigger] noises[i], start_sentinel()),
        forall|i: int| 0 <= i < payloads.len() ==> (#[trigger] payloads[i]).len() <= u32::MAX,
    ensures
        ReaderModel::initial().run(framed_stream(noises, payloads)) == (
            ReaderModel::initial(),
            payloads,
        ),
    decreases payloads.len(),
{
    let start = ReaderModel::initial();
    if payloads.len() == 0 {
        assert(payloads =~= Seq::<Seq<u8>>::empty());
    } else {
        let earlier = framed_stream(noises.drop_last(), payloads.drop_last());
        let last = noises.last() + frame_bytes(payloads.last());
        lemma_frames_in_sequence(noises.drop_last(), payloads.drop_last());
        lemma_frame_yields_payload(noises.last(), payloads.last());
        lemma_run_concat(start, earlier, last);
        assert(framed_stream(noises, payloads) =~= earlier + last);
        assert(payloads.drop_last() + seq![payloads.last()] =~= payloads);
    }
}

/// The bounds of a reader hold after every run of bytes.
pub proof fn lemma_run_keeps_wf(state: ReaderModel, bytes: Seq<u8>)
    requires
        state.wf(),
    ensures
        state.run(bytes).0.wf(),
    decreases bytes.len(),
{
    if bytes.len() > 0 {
        lemma_run_keeps_wf(state, bytes.drop_last());
        let before = state.run(bytes.drop_last()).0;
        if before.phase is Length {
            let header = before.header.push(bytes.last());
            if header.len() >= 4 {
                assert(le_value(header) <= u32::MAX);
            }
        }
    }
}

} // verus!
