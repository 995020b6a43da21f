//! What holds of the framer on every well-formed stream.

use vstd::prelude::*;
use vstd::utf8::{
    is_leading_byte_width_1, partial_valid_utf8, partial_valid_utf8_extend_ascii_block,
    valid_utf8, valid_utf8_concat,
};
use crate::framer::{frame_buffer, scan_events, Framed, StreamState};
use crate::framing::{
    content_end, content_start, event_payload, field_prefix, sentinel, space_at, space_before,
    split_events, split_from, trimmed, LINE_FEED,
};
use crate::streaming::{deltas_of, spec_parse_chunk};

verus! {

/// An event that carries a payload: the field prefix, then the payload.
pub open spec fn event_of(payload: Seq<u8>) -> Seq<u8> {
    field_prefix() + payload
}

/// The blank line that ends an event.
pub open spec fn separator() -> Seq<u8> {
    seq![LINE_FEED, LINE_FEED]
}

/// The bytes of a stream: each payload as an event, each event followed by a
/// blank line.
pub open spec fn stream_of(payloads: Seq<Seq<u8>>) -> Seq<u8>
    decreases payloads.len(),
{
    if payloads.len() == 0 {
        Seq::empty()
    } else {
        event_of(payloads[0]) + separator() + stream_of(payloads.skip(1))
    }
}

/// A payload as the format has it: one line of UTF-8 text that holds either
/// the sentinel or a JSON object.
pub open spec fn is_line_payload(p: Seq<u8>) -> bool {
    &&& p.len() > 0
    &&& valid_utf8(p)
    &&& forall|i: int| 0 <= i < p.len() ==> p[i] != LINE_FEED
    &&& (p == sentinel() || (p[0] == 0x7Bu8 && p.last() == 0x7Du8))
}

/// A payload of a valid event: a line payload that is the sentinel or encodes
/// a chunk with exactly one choice.
pub open spec fn is_valid_payload(p: Seq<u8>) -> bool {
    &&& is_line_payload(p)
    &&& (p == sentinel() || (spec_parse_chunk(p) matches Some(c) && c.choices.len() == 1))
}

/// How many payloads stand before the first sentinel.
pub open spec fn before_sentinel(payloads: Seq<Seq<u8>>) -> int
    decreases payloads.len(),
{
    if payloads.len() == 0 || payloads[0] == sentinel() {
        0
    } else {
        1 + before_sentinel(payloads.skip(1))
    }
}

/// What a run of payloads yields: the chunks of those before the first that
/// is the sentinel or encodes no chunk.
pub open spec fn scan_payloads(payloads: Seq<Seq<u8>>) -> Framed
    decreases payloads.len(),
{
    if payloads.len() == 0 {
        Framed { chunks: Seq::empty(), state: StreamState::Open }
    } else if payloads[0] == sentinel() {
        Framed { chunks: Seq::empty(), state: StreamState::Done }
    } else {
        match spec_parse_chunk(payloads[0]) {
            None => Framed {
                chunks: Seq::empty(),
                state: StreamState::Failed(crate::error::DecodeError::Json),
            },
            Some(chunk) => {
                let rest = scan_payloads(payloads.skip(1));
                Framed { chunks: seq![chunk] + rest.chunks, state: rest.state }
            },
        }
    }
}

proof fn lemma_ascii_is_utf8(s: Seq<u8>)
    requires
        forall|i: int| 0 <= i < s.len() ==> s[i] <= 0x7f,
    ensures
        valid_utf8(s),
{
    assert(s.subrange(0, 0) =~= Seq::<u8>::empty());
    assert(partial_valid_utf8(s, 0));
    assert forall|i: int| 0 <= 0 <= i < s.len() <= s.len() implies #[trigger] is_leading_byte_width_1(
        s[i],
    ) by {}
    partial_valid_utf8_extend_ascii_block(s, 0, s.len() as int);
    assert(s.subrange(0, s.len() as int) =~= s);
}

proof fn lemma_stream_is_utf8(payloads: Seq<Seq<u8>>)
    requires
        forall|i: int| 0 <= i < payloads.len() ==> is_line_payload(#[trigger] payloads[i]),
    ensures
        valid_utf8(stream_of(payloads)),
    decreases payloads.len(),
{
    if payloads.len() > 0 {
        let p = payloads[0];
        let rest = payloads.skip(1);
        assert(is_line_payload(p));
        assert forall|i: int| 0 <= i < rest.len() implies is_line_payload(#[trigger] rest[i]) by {
            assert(rest[i] == payloads[i + 1]);
        }
        lemma_stream_is_utf8(rest);
        lemma_ascii_is_utf8(field_prefix());
        lemma_ascii_is_utf8(separator());
        valid_utf8_concat(field_prefix(), p);
        valid_utf8_concat(event_of(p), separator());
        valid_utf8_concat(event_of(p) + separator(), stream_of(rest));
    }
}

spec fn events_of(payloads: Seq<Seq<u8>>) -> Seq<Seq<u8>> {
    payloads.map_values(|p: Seq<u8>| event_of(p))
}

spec fn body_of(payloads: Seq<Seq<u8>>) -> Seq<u8>
    decreases payloads.len(),
{
    if payloads.len() <= 1 {
        if payloads.len() == 1 {
            event_of(payloads[0])
        } else {
            Seq::empty()
        }
    } else {
        event_of(payloads[0]) + separator() + body_of(payloads.skip(1))
    }
}

proof fn lemma_stream_is_body(payloads: Seq<Seq<u8>>)
    requires
        payloads.len() > 0,
    ensures
        stream_of(payloads) == body_of(payloads) + separator(),
    decreases payloads.len(),
{
    let rest = payloads.skip(1);
    if payloads.len() == 1 {
        assert(stream_of(rest) == Seq::<u8>::empty());
        assert(stream_of(payloads) =~= body_of(payloads) + separator());
    } else {
        lemma_stream_is_body(rest);
        assert(stream_of(payloads) =~= body_of(payloads) + separator());
    }
}

proof fn lemma_body_shape(payloads: Seq<Seq<u8>>)
    requires
        payloads.len() > 0,
        forall|i: int| 0 <= i < payloads.len() ==> is_line_payload(#[trigger] payloads[i]),
    ensures
        body_of(payloads).len() >= 7,
        body_of(payloads)[0] == 0x64u8,
        body_of(payloads).last() == 0x5Du8 || body_of(payloads).last() == 0x7Du8,
    decreases payloads.len(),
{
    let p = payloads[0];
    assert(is_line_payload(p));
    assert(p == sentinel() ==> p.last() == 0x5Du8);
    if payloads.len() > 1 {
        let rest = payloads.skip(1);
        assert forall|i: int| 0 <= i < rest.len() implies is_line_payload(#[trigger] rest[i]) by {
            assert(rest[i] == payloads[i + 1]);
        }
        lemma_body_shape(rest);
        let b = body_of(payloads);
        assert(b == event_of(p) + separator() + body_of(rest));
        assert(b.last() == body_of(rest).last());
    }
}

proof fn lemma_trim_stream(payloads: Seq<Seq<u8>>)
    requires
        payloads.len() > 0,
        forall|i: int| 0 <= i < payloads.len() ==> is_line_payload(#[trigger] payloads[i]),
    ensures
        trimmed(stream_of(payloads)) == body_of(payloads),
{
    lemma_stream_is_body(payloads);
    lemma_body_shape(payloads);
    let b = body_of(payloads);
    let s = stream_of(payloads);
    let n = s.len() as int;
    assert(s == b + separator());
    assert(n == b.len() + 2);
    assert(s[0] == b[0]);
    assert(s[n - 1] == LINE_FEED);
    assert(s[n - 2] == LINE_FEED);
    assert(s[n - 3] == b.last());
    assert(space_at(s, 0) == 0);
    assert(content_start(s, 0) == 0);
    assert(space_before(s, 0, n) == 1);
    assert(space_before(s, 0, n - 1) == 1);
    assert(space_before(s, 0, n - 2) == 0);
    assert(content_end(s, 0, n - 2) == n - 2);
    assert(content_end(s, 0, n - 1) == n - 2);
    assert(content_end(s, 0, n) == n - 2);
    assert(s.subrange(0, n - 2) =~= b);
}

proof fn lemma_single_piece(s: Seq<u8>, start: int, i: int)
    requires
        0 <= start <= i <= s.len(),
        forall|j: int| i <= j < s.len() ==> s[j] != LINE_FEED,
    ensures
        split_from(s, start, i) == seq![s.subrange(start, s.len() as int)],
    decreases s.len() - i,
{
    if i + 1 < s.len() {
        lemma_single_piece(s, start, i + 1);
    }
}

proof fn lemma_scan_to(s: Seq<u8>, start: int, i: int, k: int)
    requires
        0 <= start <= i <= k,
        k + 1 < s.len(),
        forall|j: int| i <= j < k ==> s[j] != LINE_FEED,
    ensures
        split_from(s, start, i) == split_from(s, start, k),
    decreases k - i,
{
    if i < k {
        lemma_scan_to(s, start, i + 1, k);
    }
}

proof fn lemma_shift(a: Seq<u8>, b: Seq<u8>, start: int, i: int)
    requires
        0 <= start <= i <= b.len(),
    ensures
        split_from(a + b, a.len() + start, a.len() + i) == split_from(b, start, i),
    decreases b.len() - i,
{
    let s = a + b;
    let off = a.len() as int;
    if i + 1 >= b.len() {
        assert(s.subrange(off + start, s.len() as int) =~= b.subrange(start, b.len() as int));
    } else {
        assert(s[off + i] == b[i]);
        assert(s[off + i + 1] == b[i + 1]);
        if b[i] == LINE_FEED && b[i + 1] == LINE_FEED {
            lemma_shift(a, b, i + 2, i + 2);
            assert(s.subrange(off + start, off + i) =~= b.subrange(start, i));
        } else {
            lemma_shift(a, b, start, i + 1);
        }
    }
}

pub(crate) proof fn lemma_event_has_no_line_feed(p: Seq<u8>)
    requires
        is_line_payload(p),
    ensures
        forall|j: int| 0 <= j < event_of(p).len() ==> event_of(p)[j] != LINE_FEED,
        event_of(p).len() == p.len() + 6,
{
    let e = event_of(p);
    assert forall|j: int| 0 <= j < e.len() implies e[j] != LINE_FEED by {
        if j >= 6 {
            assert(e[j] == p[j - 6]);
        } else {
            assert(e[j] == field_prefix()[j]);
        }
    }
}

proof fn lemma_split_body(payloads: Seq<Seq<u8>>)
    requires
        payloads.len() > 0,
        forall|i: int| 0 <= i < payloads.len() ==> is_line_payload(#[trigger] payloads[i]),
    ensures
        split_events(body_of(payloads)) == events_of(payloads),
    decreases payloads.len(),
{
    let p = payloads[0];
    let e = event_of(p);
    let b = body_of(payloads);
    assert(is_line_payload(p));
    lemma_event_has_no_line_feed(p);
    if payloads.len() == 1 {
        assert(b == e);
        lemma_single_piece(b, 0, 0);
        assert(b.subrange(0, b.len() as int) =~= b);
        assert(events_of(payloads) =~= seq![e]);
    } else {
        let rest = payloads.skip(1);
        assert forall|i: int| 0 <= i < rest.len() implies is_line_payload(#[trigger] rest[i]) by {
            assert(rest[i] == payloads[i + 1]);
        }
        lemma_split_body(rest);
        lemma_body_shape(rest);
        let tail = body_of(rest);
        let head = e + separator();
        let k = e.len() as int;
        assert(b == head + tail);
        assert forall|j: int| 0 <= j < k implies b[j] != LINE_FEED by {
            assert(b[j] == e[j]);
        }
        assert(b[k] == LINE_FEED);
        assert(b[k + 1] == LINE_FEED);
        lemma_scan_to(b, 0, 0, k);
        assert(split_from(b, 0, k) == seq![b.subrange(0, k)] + split_from(b, k + 2, k + 2));
        assert(b.subrange(0, k) =~= e);
        lemma_shift(head, tail, 0, 0);
        assert(head.len() == k + 2);
        assert(split_from(b, k + 2, k + 2) == split_events(tail));
        assert(events_of(payloads) =~= seq![e] + events_of(rest));
    }
}

proof fn lemma_scan_events_of(payloads: Seq<Seq<u8>>)
    requires
        forall|i: int| 0 <= i < payloads.len() ==> is_line_payload(#[trigger] payloads[i]),
    ensures
        scan_events(events_of(payloads)) == scan_payloads(payloads),
    decreases payloads.len(),
{
    if payloads.len() > 0 {
        let p = payloads[0];
        let e = event_of(p);
        let rest = payloads.skip(1);
        assert(is_line_payload(p));
        assert(events_of(payloads)[0] == e);
        assert(e.take(6) =~= field_prefix());
        assert(e.skip(6) =~= p);
        assert(event_payload(e) == Some(p));
        assert forall|i: int| 0 <= i < rest.len() implies is_line_payload(#[trigger] rest[i]) by {
            assert(rest[i] == payloads[i + 1]);
        }
        lemma_scan_events_of(rest);
        assert(events_of(payloads).skip(1) =~= events_of(rest));
    }
}

/// A buffer made of whole events, each one line with the prefix and a
/// payload, each followed by a blank line, is framed as its payloads read in
/// order: trimming and splitting give back exactly the events that went in.
pub proof fn framing_reads_events_in_order(payloads: Seq<Seq<u8>>)
    requires
        payloads.len() > 0,
        forall|i: int| 0 <= i < payloads.len() ==> is_line_payload(#[trigger] payloads[i]),
    ensures
        frame_buffer(stream_of(payloads)) == scan_payloads(payloads),
{
    lemma_stream_is_utf8(payloads);
    lemma_trim_stream(payloads);
    lemma_split_body(payloads);
    lemma_scan_events_of(payloads);
}

proof fn lemma_scan_valid_payloads(payloads: Seq<Seq<u8>>)
    requires
        forall|i: int| 0 <= i < payloads.len() ==> is_valid_payload(#[trigger] payloads[i]),
    ensures
        0 <= before_sentinel(payloads) <= payloads.len(),
        scan_payloads(payloads).chunks.len() == before_sentinel(payloads),
        deltas_of(scan_payloads(payloads).chunks).len() == before_sentinel(payloads),
        forall|i: int|
            0 <= i < before_sentinel(payloads) ==> spec_parse_chunk(payloads[i]) == Some(
                #[trigger] scan_payloads(payloads).chunks[i],
            ),
        forall|i: int|
            0 <= i < before_sentinel(payloads) ==> #[trigger] deltas_of(
                scan_payloads(payloads).chunks,
            )[i] == spec_parse_chunk(payloads[i])->0.choices[0],
        before_sentinel(payloads) < payloads.len() ==> scan_payloads(payloads).state
            == StreamState::Done && payloads[before_sentinel(payloads)] == sentinel(),
        before_sentinel(payloads) == payloads.len() ==> scan_payloads(payloads).state
            == StreamState::Open,
    decreases payloads.len(),
{
    if payloads.len() > 0 {
        let p = payloads[0];
        assert(is_valid_payload(p));
        if p != sentinel() {
            let rest = payloads.skip(1);
            assert forall|i: int| 0 <= i < rest.len() implies is_valid_payload(
                #[trigger] rest[i],
            ) by {
                assert(rest[i] == payloads[i + 1]);
            }
            lemma_scan_valid_payloads(rest);
            let chunk = spec_parse_chunk(p)->0;
            let here = scan_payloads(payloads).chunks;
            let there = scan_payloads(rest).chunks;
            assert(here == seq![chunk] + there);
            assert(here.skip(1) =~= there);
            assert(deltas_of(here) == chunk.choices + deltas_of(there));
            let k = before_sentinel(payloads);
            assert(k == 1 + before_sentinel(rest));
            assert forall|i: int| 0 <= i < k implies spec_parse_chunk(payloads[i]) == Some(
                #[trigger] here[i],
            ) by {
                if i > 0 {
                    assert(here[i] == there[i - 1]);
                    assert(payloads[i] == rest[i - 1]);
                }
            }
            assert forall|i: int| 0 <= i < k implies #[trigger] deltas_of(here)[i]
                == spec_parse_chunk(payloads[i])->0.choices[0] by {
                if i > 0 {
                    assert(deltas_of(here)[i] == deltas_of(there)[i - 1]);
                    assert(payloads[i] == rest[i - 1]);
                }
            }
            if k < payloads.len() {
                assert(payloads[k] == rest[k - 1]);
            }
        }
    }
}

/// For a buffer made by concatenating valid events, the framer emits exactly
/// one delta for each event that stands before the first sentinel, in the
/// order of the events, and none for the sentinel or what follows it. The
/// stream is done where there is a sentinel and open where there is none.
pub proof fn framer_emits_one_delta_per_event(payloads: Seq<Seq<u8>>)
    requires
        payloads.len() > 0,
        forall|i: int| 0 <= i < payloads.len() ==> is_valid_payload(#[trigger] payloads[i]),
    ensures
        0 <= before_sentinel(payloads) <= payloads.len(),
        deltas_of(frame_buffer(stream_of(payloads)).chunks).len() == before_sentinel(payloads),
        forall|i: int|
            0 <= i < before_sentinel(payloads) ==> #[trigger] deltas_of(
                frame_buffer(stream_of(payloads)).chunks,
            )[i] == spec_parse_chunk(payloads[i])->0.choices[0],
        frame_buffer(stream_of(payloads)).state == if before_sentinel(payloads) < payloads.len() {
            StreamState::Done
        } else {
            StreamState::Open
        },
{
    assert forall|i: int| 0 <= i < payloads.len() implies is_line_payload(
        #[trigger] payloads[i],
    ) by {
        assert(is_valid_payload(payloads[i]));
    }
    framing_reads_events_in_order(payloads);
    lemma_scan_valid_payloads(payloads);
}

} // verus!
