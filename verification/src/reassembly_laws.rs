//! What holds of reassembly on every well-formed stream: where the transport
//! cuts makes no difference.

use vstd::prelude::*;
use crate::framer::{frame_buffer, Framed, StreamState};
use crate::framing::LINE_FEED;
use crate::stream_laws::{
    event_of, framing_reads_events_in_order, is_line_payload, lemma_event_has_no_line_feed,
    scan_payloads, separator, stream_of,
};
use crate::reassembly::{
    cut_before, cut_is_behind_last_blank_line, rest_part, whole_len, whole_part,
};
use crate::streaming::ChunkView;
use crate::worker::{
    lemma_running_means_open, relay, relay_buffer, ReceivedView, Relayed, WorkerState,
};

verus! {

/// What a framer in `state` makes of what a reassembler hands on: nothing
/// when that is empty or the stream is no longer open, else what the buffer
/// yields.
pub open spec fn frame_next(state: StreamState, buffer: Seq<u8>) -> Framed {
    if state == StreamState::Open && buffer.len() > 0 {
        frame_buffer(buffer)
    } else {
        Framed { chunks: Seq::empty(), state }
    }
}

/// How many of the events of a stream lie wholly within its first `k` bytes.
pub open spec fn events_within(payloads: Seq<Seq<u8>>, k: int) -> int
    decreases payloads.len(),
{
    if payloads.len() == 0 || k < event_of(payloads[0]).len() + 2 {
        0
    } else {
        1 + events_within(payloads.skip(1), k - event_of(payloads[0]).len() - 2)
    }
}

proof fn lemma_rest_is_line(payloads: Seq<Seq<u8>>)
    requires
        payloads.len() > 0,
        forall|i: int| 0 <= i < payloads.len() ==> is_line_payload(#[trigger] payloads[i]),
    ensures
        forall|i: int|
            0 <= i < payloads.skip(1).len() ==> is_line_payload(#[trigger] payloads.skip(1)[i]),
        is_line_payload(payloads[0]),
{
    let rest = payloads.skip(1);
    assert forall|i: int| 0 <= i < rest.len() implies is_line_payload(#[trigger] rest[i]) by {
        assert(rest[i] == payloads[i + 1]);
    }
}

proof fn lemma_stream_start(payloads: Seq<Seq<u8>>)
    requires
        forall|i: int| 0 <= i < payloads.len() ==> is_line_payload(#[trigger] payloads[i]),
    ensures
        stream_of(payloads).len() == 0 || stream_of(payloads)[0] != LINE_FEED,
        payloads.len() > 0 ==> stream_of(payloads).len() >= 9,
        payloads.len() == 0 ==> stream_of(payloads).len() == 0,
{
    if payloads.len() > 0 {
        assert(is_line_payload(payloads[0]));
        lemma_event_has_no_line_feed(payloads[0]);
        let e = event_of(payloads[0]);
        assert(stream_of(payloads)[0] == e[0]);
    }
}

proof fn lemma_no_cut_in_event(s: Seq<u8>, e: int, j: int)
    requires
        0 <= j <= s.len(),
        j < e,
        e >= 2,
        forall|i: int| 0 <= i < e - 2 && i < s.len() ==> s[i] != LINE_FEED,
    ensures
        cut_before(s, j) == 0,
    decreases j,
{
    if j >= 2 {
        assert(s[j - 2] != LINE_FEED);
        lemma_no_cut_in_event(s, e, j - 1);
    }
}

proof fn lemma_cut_shift(head: Seq<u8>, tail: Seq<u8>, j: int)
    requires
        head.len() >= 2,
        head[head.len() - 2] == LINE_FEED,
        head[head.len() - 1] == LINE_FEED,
        tail.len() == 0 || tail[0] != LINE_FEED,
        0 <= j <= tail.len(),
    ensures
        cut_before(head + tail, head.len() + j) == head.len() + cut_before(tail, j),
    decreases j,
{
    let s = head + tail;
    let h = head.len() as int;
    if j == 0 {
        assert(s[h - 2] == head[h - 2]);
        assert(s[h - 1] == head[h - 1]);
    } else if j == 1 {
        assert(s[h] == tail[0]);
        lemma_cut_shift(head, tail, 0);
    } else {
        assert(s[h + j - 2] == tail[j - 2]);
        assert(s[h + j - 1] == tail[j - 1]);
        if !(tail[j - 2] == LINE_FEED && tail[j - 1] == LINE_FEED) {
            lemma_cut_shift(head, tail, j - 1);
            if cut_before(tail, j - 1) == 0 {
                assert(cut_before(tail, j) == 0);
            }
        }
    }
}

proof fn lemma_stream_splits(payloads: Seq<Seq<u8>>, m: int)
    requires
        0 <= m <= payloads.len(),
    ensures
        stream_of(payloads) == stream_of(payloads.take(m)) + stream_of(payloads.skip(m)),
    decreases m,
{
    if m == 0 {
        assert(payloads.take(0) =~= Seq::<Seq<u8>>::empty());
        assert(payloads.skip(0) =~= payloads);
        assert(stream_of(payloads) =~= stream_of(payloads.take(0)) + stream_of(payloads.skip(0)));
    } else {
        let rest = payloads.skip(1);
        lemma_stream_splits(rest, m - 1);
        assert(rest.take(m - 1) =~= payloads.take(m).skip(1));
        assert(rest.skip(m - 1) =~= payloads.skip(m));
        assert(payloads.take(m)[0] == payloads[0]);
        assert(stream_of(payloads) =~= stream_of(payloads.take(m)) + stream_of(payloads.skip(m)));
    }
}

proof fn lemma_events_within(payloads: Seq<Seq<u8>>, k: int)
    requires
        forall|i: int| 0 <= i < payloads.len() ==> is_line_payload(#[trigger] payloads[i]),
        0 <= k <= stream_of(payloads).len(),
    ensures
        0 <= events_within(payloads, k) <= payloads.len(),
        whole_len(stream_of(payloads).take(k)) == stream_of(
            payloads.take(events_within(payloads, k)),
        ).len(),
        stream_of(payloads.take(events_within(payloads, k))).len() <= k,
        k == stream_of(payloads).len() ==> events_within(payloads, k) == payloads.len(),
    decreases payloads.len(),
{
    let s = stream_of(payloads);
    let a = s.take(k);
    if payloads.len() == 0 {
        assert(payloads.take(0) =~= payloads);
    } else {
        lemma_rest_is_line(payloads);
        let p = payloads[0];
        let rest = payloads.skip(1);
        let e = event_of(p);
        let head = e + separator();
        let h = head.len() as int;
        let tail = stream_of(rest);
        lemma_event_has_no_line_feed(p);
        lemma_stream_start(rest);
        assert(s == head + tail);
        if k < h {
            assert forall|i: int| 0 <= i < h - 2 && i < a.len() implies a[i] != LINE_FEED by {
                assert(a[i] == e[i]);
            }
            lemma_no_cut_in_event(a, h, k);
            assert(payloads.take(0) =~= Seq::<Seq<u8>>::empty());
        } else {
            let m = events_within(rest, k - h);
            lemma_events_within(rest, k - h);
            let cut_tail = tail.take(k - h);
            assert(a =~= head + cut_tail);
            assert(head[h - 2] == LINE_FEED);
            assert(head[h - 1] == LINE_FEED);
            assert(cut_tail.len() == 0 || cut_tail[0] == tail[0]);
            lemma_cut_shift(head, cut_tail, k - h);
            let first = payloads.take(m + 1);
            assert(first[0] == p);
            assert(first.skip(1) =~= rest.take(m));
            assert(stream_of(first) == head + stream_of(rest.take(m)));
        }
    }
}

proof fn lemma_whole_stream(payloads: Seq<Seq<u8>>)
    requires
        forall|i: int| 0 <= i < payloads.len() ==> is_line_payload(#[trigger] payloads[i]),
    ensures
        whole_part(stream_of(payloads)) == stream_of(payloads),
        rest_part(stream_of(payloads)).len() == 0,
{
    let s = stream_of(payloads);
    lemma_events_within(payloads, s.len() as int);
    assert(s.take(s.len() as int) =~= s);
    assert(payloads.take(payloads.len() as int) =~= payloads);
    assert(whole_part(s) =~= s);
}

proof fn lemma_take_skip_are_lines(payloads: Seq<Seq<u8>>, m: int)
    requires
        0 <= m <= payloads.len(),
        forall|i: int| 0 <= i < payloads.len() ==> is_line_payload(#[trigger] payloads[i]),
    ensures
        forall|i: int|
            0 <= i < payloads.take(m).len() ==> is_line_payload(#[trigger] payloads.take(m)[i]),
        forall|i: int|
            0 <= i < payloads.skip(m).len() ==> is_line_payload(#[trigger] payloads.skip(m)[i]),
{
    let front = payloads.take(m);
    let back = payloads.skip(m);
    assert forall|i: int| 0 <= i < front.len() implies is_line_payload(#[trigger] front[i]) by {
        assert(front[i] == payloads[i]);
    }
    assert forall|i: int| 0 <= i < back.len() implies is_line_payload(#[trigger] back[i]) by {
        assert(back[i] == payloads[i + m]);
    }
}

proof fn lemma_scan_splits(payloads: Seq<Seq<u8>>, m: int)
    requires
        0 <= m <= payloads.len(),
    ensures
        scan_payloads(payloads.take(m)).state == StreamState::Open ==> scan_payloads(
            payloads,
        ).chunks == scan_payloads(payloads.take(m)).chunks + scan_payloads(
            payloads.skip(m),
        ).chunks && scan_payloads(payloads).state == scan_payloads(payloads.skip(m)).state,
        scan_payloads(payloads.take(m)).state != StreamState::Open ==> scan_payloads(payloads)
            == scan_payloads(payloads.take(m)),
    decreases m,
{
    let front = payloads.take(m);
    if m == 0 {
        assert(front =~= Seq::<Seq<u8>>::empty());
        assert(payloads.skip(0) =~= payloads);
        assert(Seq::<ChunkView>::empty() + scan_payloads(payloads).chunks =~= scan_payloads(
            payloads,
        ).chunks);
    } else {
        let rest = payloads.skip(1);
        lemma_scan_splits(rest, m - 1);
        assert(rest.take(m - 1) =~= front.skip(1));
        assert(rest.skip(m - 1) =~= payloads.skip(m));
        assert(front[0] == payloads[0]);
        if scan_payloads(front).state == StreamState::Open {
            assert(scan_payloads(payloads).chunks =~= scan_payloads(front).chunks + scan_payloads(
                payloads.skip(m),
            ).chunks);
        } else {
            assert(scan_payloads(payloads).chunks =~= scan_payloads(front).chunks);
        }
    }
}

/// Where the transport cuts a well-formed stream makes no difference. Take a
/// stream of whole events and cut it in two at any byte. The reassembler
/// hands on, of the first part, the events that are whole, and with the second
/// part the rest, and keeps nothing back. The framer makes of the two what it
/// makes of the stream in one piece: the same chunks in the same order, and
/// the same state.
pub proof fn cut_makes_no_difference(payloads: Seq<Seq<u8>>, k: int)
    requires
        payloads.len() > 0,
        forall|i: int| 0 <= i < payloads.len() ==> is_line_payload(#[trigger] payloads[i]),
        0 <= k <= stream_of(payloads).len(),
    ensures
        ({
            let stream = stream_of(payloads);
            let first = stream.take(k);
            let second = stream.skip(k);
            let kept = rest_part(first);
            let one = frame_next(StreamState::Open, whole_part(first));
            let two = frame_next(one.state, whole_part(kept + second));
            &&& whole_part(first) + whole_part(kept + second) == stream
            &&& rest_part(kept + second).len() == 0
            &&& one.chunks + two.chunks == frame_buffer(stream).chunks
            &&& two.state == frame_buffer(stream).state
        }),
{
    let stream = stream_of(payloads);
    let first = stream.take(k);
    let second = stream.skip(k);
    let kept = rest_part(first);
    let m = events_within(payloads, k);
    lemma_events_within(payloads, k);
    lemma_stream_splits(payloads, m);
    lemma_take_skip_are_lines(payloads, m);
    let front = payloads.take(m);
    let back = payloads.skip(m);
    let c = stream_of(front).len() as int;
    assert(whole_len(first) == c);
    assert(whole_part(first) =~= stream_of(front));
    assert(kept + second =~= stream_of(back));
    lemma_whole_stream(back);
    lemma_stream_start(front);
    lemma_stream_start(back);
    lemma_scan_splits(payloads, m);
    framing_reads_events_in_order(payloads);
    let one = frame_next(StreamState::Open, whole_part(first));
    let two = frame_next(one.state, whole_part(kept + second));
    if m > 0 {
        framing_reads_events_in_order(front);
    } else {
        assert(front =~= Seq::<Seq<u8>>::empty());
    }
    if m < payloads.len() {
        framing_reads_events_in_order(back);
    } else {
        assert(back =~= Seq::<Seq<u8>>::empty());
    }
    assert(one == scan_payloads(front));
    if one.state == StreamState::Open {
        assert(two == scan_payloads(back));
    } else {
        assert(one.chunks + two.chunks =~= one.chunks);
    }
}

/// Where a worker behind a reassembler stands: what is kept back, the deltas
/// that have gone out, and the state of the worker.
pub struct Relaying {
    pub pending: Seq<u8>,
    pub deltas: Seq<ReceivedView>,
    pub state: WorkerState,
}

/// A worker behind a reassembler before the first buffer.
pub open spec fn relaying_start() -> Relaying {
    Relaying { pending: Seq::empty(), deltas: Seq::empty(), state: WorkerState::Running }
}

/// What one more buffer of the transport adds: the reassembler keeps what
/// stands behind the last blank line, and a worker that runs relays what
/// stands before it, if that is anything.
pub open spec fn relay_next(r: Relaying, buffer: Seq<u8>) -> Relaying {
    let all = r.pending + buffer;
    if r.state == WorkerState::Running && whole_part(all).len() > 0 {
        Relaying {
            pending: rest_part(all),
            deltas: r.deltas + relay_buffer(whole_part(all)).deltas,
            state: relay_buffer(whole_part(all)).state,
        }
    } else {
        Relaying { pending: rest_part(all), deltas: r.deltas, state: r.state }
    }
}

/// What a run of buffers adds, one after the other.
pub open spec fn relay_all(r: Relaying, buffers: Seq<Seq<u8>>) -> Relaying
    decreases buffers.len(),
{
    if buffers.len() == 0 {
        r
    } else {
        relay_all(relay_next(r, buffers[0]), buffers.skip(1))
    }
}

/// The buffers, one after the other, as one byte string.
pub open spec fn concat(buffers: Seq<Seq<u8>>) -> Seq<u8>
    decreases buffers.len(),
{
    if buffers.len() == 0 {
        Seq::empty()
    } else {
        buffers[0] + concat(buffers.skip(1))
    }
}

spec fn relay_payloads(payloads: Seq<Seq<u8>>) -> Relayed {
    relay(scan_payloads(payloads).chunks, scan_payloads(payloads).state)
}

proof fn lemma_rest_holds_no_event(s: Seq<u8>, j: int)
    requires
        0 <= j <= rest_part(s).len(),
    ensures
        cut_before(rest_part(s), j) == 0,
    decreases j,
{
    let c = whole_len(s);
    cut_is_behind_last_blank_line(s, s.len() as int);
    if j >= 2 {
        let rest = rest_part(s);
        assert(rest[j - 2] == s[c + j - 2]);
        assert(rest[j - 1] == s[c + j - 1]);
        assert(!(s[c + j - 2] == LINE_FEED && s[c + j - 2 + 1] == LINE_FEED));
        lemma_rest_holds_no_event(s, j - 1);
    }
}

proof fn lemma_relay_concat(first: Seq<ChunkView>, second: Seq<ChunkView>, end: StreamState)
    ensures
        relay(first, StreamState::Open).state == WorkerState::Running ==> relay(
            first + second,
            end,
        ).deltas == relay(first, StreamState::Open).deltas + relay(second, end).deltas && relay(
            first + second,
            end,
        ).state == relay(second, end).state,
        relay(first, StreamState::Open).state != WorkerState::Running ==> relay(
            first + second,
            end,
        ) == relay(first, StreamState::Open),
    decreases first.len(),
{
    let both = first + second;
    if first.len() == 0 {
        assert(both =~= second);
        assert(Seq::<ReceivedView>::empty() + relay(second, end).deltas =~= relay(
            second,
            end,
        ).deltas);
    } else {
        assert(both[0] == first[0]);
        assert(both.skip(1) =~= first.skip(1) + second);
        if first[0].choices.len() == 1 && first[0].choices[0].finish_reason is None {
            lemma_relay_concat(first.skip(1), second, end);
            if relay(first, StreamState::Open).state == WorkerState::Running {
                assert(relay(both, end).deltas =~= relay(first, StreamState::Open).deltas + relay(
                    second,
                    end,
                ).deltas);
            }
        }
    }
}

proof fn lemma_relay_splits(payloads: Seq<Seq<u8>>, m: int)
    requires
        0 <= m <= payloads.len(),
    ensures
        relay_payloads(payloads.take(m)).state == WorkerState::Running ==> relay_payloads(
            payloads,
        ).deltas == relay_payloads(payloads.take(m)).deltas + relay_payloads(
            payloads.skip(m),
        ).deltas && relay_payloads(payloads).state == relay_payloads(payloads.skip(m)).state,
        relay_payloads(payloads.take(m)).state != WorkerState::Running ==> relay_payloads(payloads)
            == relay_payloads(payloads.take(m)),
{
    let front = scan_payloads(payloads.take(m));
    let back = scan_payloads(payloads.skip(m));
    lemma_scan_splits(payloads, m);
    lemma_running_means_open(front.chunks, front.state);
    if front.state == StreamState::Open {
        lemma_relay_concat(front.chunks, back.chunks, back.state);
    }
}

proof fn lemma_relay_all(payloads: Seq<Seq<u8>>, r: Relaying, buffers: Seq<Seq<u8>>)
    requires
        forall|i: int| 0 <= i < payloads.len() ==> is_line_payload(#[trigger] payloads[i]),
        r.pending + concat(buffers) == stream_of(payloads),
        whole_len(r.pending) == 0,
    ensures
        relay_all(r, buffers).pending.len() == 0,
        r.state == WorkerState::Running ==> relay_all(r, buffers).deltas == r.deltas
            + relay_payloads(payloads).deltas && relay_all(r, buffers).state == relay_payloads(
            payloads,
        ).state,
        r.state != WorkerState::Running ==> relay_all(r, buffers).deltas == r.deltas && relay_all(
            r,
            buffers,
        ).state == r.state,
    decreases buffers.len(),
{
    let stream = stream_of(payloads);
    if buffers.len() == 0 {
        assert(r.pending =~= stream);
        lemma_whole_stream(payloads);
        assert(whole_part(stream).len() == 0);
        lemma_stream_start(payloads);
        assert(payloads.len() == 0);
        assert(r.deltas + relay_payloads(payloads).deltas =~= r.deltas);
    } else {
        let all = r.pending + buffers[0];
        let later = buffers.skip(1);
        let k = all.len() as int;
        assert(stream =~= all + concat(later));
        assert(all =~= stream.take(k));
        let m = events_within(payloads, k);
        lemma_events_within(payloads, k);
        lemma_stream_splits(payloads, m);
        lemma_take_skip_are_lines(payloads, m);
        let front = payloads.take(m);
        let back = payloads.skip(m);
        assert(whole_part(all) =~= stream_of(front));
        let c = whole_len(all);
        assert(c == stream_of(front).len());
        assert(stream.skip(c) =~= stream_of(back));
        assert(stream.skip(c) =~= all.skip(c) + concat(later));
        assert(rest_part(all) + concat(later) =~= stream_of(back));
        lemma_rest_holds_no_event(all, rest_part(all).len() as int);
        lemma_stream_start(front);
        let next = relay_next(r, buffers[0]);
        lemma_relay_all(back, next, later);
        lemma_relay_splits(payloads, m);
        if m > 0 {
            framing_reads_events_in_order(front);
            assert(relay_buffer(stream_of(front)) == relay_payloads(front));
        } else {
            assert(front =~= Seq::<Seq<u8>>::empty());
            assert(r.deltas + relay_payloads(front).deltas =~= r.deltas);
        }
        if r.state == WorkerState::Running {
            assert(next.deltas == r.deltas + relay_payloads(front).deltas);
            assert(next.state == relay_payloads(front).state);
            if next.state == WorkerState::Running {
                assert(relay_all(r, buffers).deltas =~= r.deltas + relay_payloads(payloads).deltas);
            }
        }
    }
}

/// However often and wherever the transport cuts a well-formed stream, what
/// a worker behind a reassembler hands on is what a worker hands on that is
/// given the stream in one piece: the same deltas in the same order, and the
/// same state at the end. Nothing is kept back.
pub proof fn fragments_relay_like_the_whole(payloads: Seq<Seq<u8>>, buffers: Seq<Seq<u8>>)
    requires
        payloads.len() > 0,
        forall|i: int| 0 <= i < payloads.len() ==> is_line_payload(#[trigger] payloads[i]),
        concat(buffers) == stream_of(payloads),
    ensures
        relay_all(relaying_start(), buffers).pending.len() == 0,
        relay_all(relaying_start(), buffers).deltas == relay_buffer(stream_of(payloads)).deltas,
        relay_all(relaying_start(), buffers).state == relay_buffer(stream_of(payloads)).state,
{
    let start = relaying_start();
    assert(start.pending + concat(buffers) =~= stream_of(payloads));
    lemma_relay_all(payloads, start, buffers);
    framing_reads_events_in_order(payloads);
    assert(start.deltas + relay_payloads(payloads).deltas =~= relay_payloads(payloads).deltas);
}

} // verus!
