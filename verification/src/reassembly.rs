//! Putting events back together when the transport cuts them.
//!
//! The framer wants buffers that hold whole events. A transport may cut a
//! reply anywhere. A [`Reassembler`] stands between the two: it hands on what
//! has arrived up to the last blank line and keeps the rest until more
//! arrives.

use vstd::prelude::*;
use crate::framing::{trim_whitespace, trimmed, LINE_FEED};
use crate::worker::{received_views, relay_from, ReceivedDelta, Worker, WorkerState};

verus! {

/// The index just behind the last blank line that ends at or before `j`, and
/// 0 where there is none.
pub open spec fn cut_before(s: Seq<u8>, j: int) -> int
    decreases j,
{
    if j < 2 {
        0
    } else if s[j - 2] == LINE_FEED && s[j - 1] == LINE_FEED {
        j
    } else {
        cut_before(s, j - 1)
    }
}

/// How many bytes of `s` belong to whole events: all up to and including the
/// last blank line.
pub open spec fn whole_len(s: Seq<u8>) -> int {
    cut_before(s, s.len() as int)
}

/// The part of `s` that holds whole events.
pub open spec fn whole_part(s: Seq<u8>) -> Seq<u8> {
    s.take(whole_len(s))
}

/// The part of `s` behind its last blank line.
pub open spec fn rest_part(s: Seq<u8>) -> Seq<u8> {
    s.skip(whole_len(s))
}

/// The cut lies inside the text, at its start or right behind a blank line,
/// and no blank line ends behind it.
pub proof fn cut_is_behind_last_blank_line(s: Seq<u8>, j: int)
    requires
        0 <= j <= s.len(),
    ensures
        0 <= cut_before(s, j) <= j,
        cut_before(s, j) == 0 || (cut_before(s, j) >= 2 && s[cut_before(s, j) - 2] == LINE_FEED
            && s[cut_before(s, j) - 1] == LINE_FEED),
        forall|k: int|
            cut_before(s, j) < k <= j && k >= 2 ==> !(#[trigger] s[k - 2] == LINE_FEED && s[k - 1]
                == LINE_FEED),
    decreases j,
{
    if j >= 2 && !(s[j - 2] == LINE_FEED && s[j - 1] == LINE_FEED) {
        cut_is_behind_last_blank_line(s, j - 1);
    }
}

/// The state of a worker after the transport has ended: a session that still
/// runs is finished, any other stays as it is.
pub open spec fn finished_if_running(state: WorkerState) -> WorkerState {
    if state == WorkerState::Running {
        WorkerState::Finished
    } else {
        state
    }
}

/// What has arrived and has not been handed on yet.
#[derive(Clone, Debug, PartialEq, Eq)]
pub struct Reassembler {
    pub pending: Vec<u8>,
}

impl Reassembler {
    /// A reassembler that holds nothing.
    pub fn new() -> (r: Reassembler)
        ensures
            r.pending@.len() == 0,
    {
        Reassembler { pending: Vec::new() }
    }

    /// Takes the next buffer of the transport. Returns what has arrived up to
    /// the last blank line, which may be nothing, and keeps what stands
    /// behind it.
    pub fn push(&mut self, buffer: &[u8]) -> (whole: Vec<u8>)
        ensures
            whole@ == whole_part(old(self).pending@ + buffer@),
            final(self).pending@ == rest_part(old(self).pending@ + buffer@),
    {
        let ghost all = self.pending@ + buffer@;
        self.pending.extend_from_slice(buffer);
        let mut j: usize = self.pending.len();
        while j >= 2 && !(self.pending[j - 2] == LINE_FEED && self.pending[j - 1] == LINE_FEED)
            invariant
                j <= self.pending@.len(),
                self.pending@ == all,
                cut_before(all, all.len() as int) == cut_before(all, j as int),
            decreases j,
        {
            j = j - 1;
        }
        let cut: usize = if j >= 2 {
            j
        } else {
            0
        };
        let mut whole: Vec<u8> = self.pending.split_off(cut);
        std::mem::swap(&mut self.pending, &mut whole);
        whole
    }

    /// Takes out what is left when the transport has ended.
    pub fn finish(&mut self) -> (rest: Vec<u8>)
        ensures
            rest@ == old(self).pending@,
            final(self).pending@.len() == 0,
    {
        let mut rest: Vec<u8> = Vec::new();
        std::mem::swap(&mut self.pending, &mut rest);
        rest
    }
}

/// Hands the next buffer of a transport that cuts anywhere to a worker: the
/// worker gets what has arrived up to the last blank line, if anything has.
pub fn relay_fragment(worker: &mut Worker, pending: &mut Reassembler, buffer: &[u8]) -> (r: Vec<
    ReceivedDelta,
>)
    ensures
        old(worker).well_formed() ==> final(worker).well_formed(),
        final(pending).pending@ == rest_part(old(pending).pending@ + buffer@),
        old(worker).state != WorkerState::Running || whole_part(
            old(pending).pending@ + buffer@,
        ).len() == 0 ==> r@.len() == 0 && *final(worker) == *old(worker),
        old(worker).state == WorkerState::Running && whole_part(
            old(pending).pending@ + buffer@,
        ).len() > 0 ==> received_views(r@) == relay_from(
            old(worker).framer.state,
            whole_part(old(pending).pending@ + buffer@),
        ).deltas && final(worker).state == relay_from(
            old(worker).framer.state,
            whole_part(old(pending).pending@ + buffer@),
        ).state,
{
    let whole = pending.push(buffer);
    if whole.len() == 0 {
        Vec::new()
    } else {
        worker.on_buffer(whole.as_slice())
    }
}

/// Tells a worker that a transport that cuts anywhere has ended. What was
/// kept back is the last buffer, unless it is nothing but white space; after
/// it a session that still runs is finished.
pub fn relay_end(worker: &mut Worker, pending: &mut Reassembler) -> (r: Vec<ReceivedDelta>)
    ensures
        old(worker).well_formed() ==> final(worker).well_formed(),
        final(pending).pending@.len() == 0,
        old(worker).state != WorkerState::Running ==> r@.len() == 0 && final(worker).state == old(
            worker,
        ).state,
        old(worker).state == WorkerState::Running && trimmed(old(pending).pending@).len() == 0
            ==> r@.len() == 0 && final(worker).state == WorkerState::Finished,
        old(worker).state == WorkerState::Running && trimmed(old(pending).pending@).len() > 0
            ==> received_views(r@) == relay_from(
            old(worker).framer.state,
            old(pending).pending@,
        ).deltas && final(worker).state == finished_if_running(
            relay_from(old(worker).framer.state, old(pending).pending@).state,
        ),
{
    let rest = pending.finish();
    let out = if trim_whitespace(rest.as_slice()).len() == 0 {
        Vec::new()
    } else {
        worker.on_buffer(rest.as_slice())
    };
    worker.on_end();
    out
}

} // verus!
