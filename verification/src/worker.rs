//! The producing side of a session: what the background task decides.
//!
//! The task posts the request and hands each buffer of the reply to a
//! [`Worker`], which says what to put on the queue. It hands on one delta for
//! each chunk, up to and including the first that carries a finish reason. A
//! session that fails ends with one empty, finished delta.

use vstd::prelude::*;
use crate::error::SessionError;
use crate::framer::{feed_from, Framer, StreamState};
use crate::streaming::{chunk_views, Choice, ChoiceView, Chunk, ChunkView};

verus! {

/// What the consumer is handed: a fragment of the answer, and whether it is
/// the last.
#[derive(Clone, Debug, PartialEq, Eq)]
pub struct ReceivedDelta {
    pub content: String,
    pub finished: bool,
}

/// A received delta as a value.
pub struct ReceivedView {
    pub content: Seq<char>,
    pub finished: bool,
}

impl View for ReceivedDelta {
    type V = ReceivedView;

    open spec fn view(&self) -> ReceivedView {
        ReceivedView { content: self.content@, finished: self.finished }
    }
}

/// Received deltas as values, in order.
pub open spec fn received_views(ds: Seq<ReceivedDelta>) -> Seq<ReceivedView> {
    ds.map_values(|d: ReceivedDelta| d@)
}

/// The delta that a streamed choice becomes: its text, finished when the
/// choice carries a finish reason.
pub open spec fn received_of(c: ChoiceView) -> ReceivedView {
    ReceivedView { content: c.delta.content, finished: c.finish_reason is Some }
}

/// The delta that ends a failed session: no text, finished.
pub open spec fn terminal_delta() -> ReceivedView {
    ReceivedView { content: Seq::empty(), finished: true }
}

impl ReceivedDelta {
    /// The delta for a streamed choice.
    pub fn from_choice(c: &Choice) -> (d: ReceivedDelta)
        ensures
            d@ == received_of(c@),
            d@.content == c@.delta.content,
    {
        ReceivedDelta { content: c.delta.content.clone(), finished: c.finish_reason.is_some() }
    }

    /// The delta that ends a failed session.
    pub fn terminal() -> (d: ReceivedDelta)
        ensures
            d@ == terminal_delta(),
    {
        ReceivedDelta { content: String::new(), finished: true }
    }
}

/// Where the producing side stands.
#[derive(Clone, Copy, Debug, PartialEq, Eq, Structural)]
pub enum WorkerState {
    /// The answer is still coming in.
    Running,
    /// The answer is complete: a delta with a finish reason went out, the
    /// sentinel was read, or the transport ended.
    Finished,
    /// The session failed.
    Failed(SessionError),
}

/// What goes on the queue, and where the producing side stands after it.
pub struct Relayed {
    pub deltas: Seq<ReceivedView>,
    pub state: WorkerState,
}

/// What the chunks of one buffer, and the state that the framer is left in,
/// come to. Chunks are taken in order. One that does not hold exactly one
/// choice fails the session. One whose choice carries a finish reason ends
/// it, and what follows is dropped. After the last chunk the framer's state
/// decides.
pub open spec fn relay(chunks: Seq<ChunkView>, end: StreamState) -> Relayed
    decreases chunks.len(),
{
    if chunks.len() == 0 {
        match end {
            StreamState::Open => Relayed { deltas: Seq::empty(), state: WorkerState::Running },
            StreamState::Done => Relayed { deltas: Seq::empty(), state: WorkerState::Finished },
            StreamState::Failed(e) => Relayed {
                deltas: seq![terminal_delta()],
                state: WorkerState::Failed(SessionError::Decode(e)),
            },
        }
    } else if chunks[0].choices.len() != 1 {
        Relayed {
            deltas: seq![terminal_delta()],
            state: WorkerState::Failed(SessionError::ProtocolViolation),
        }
    } else if chunks[0].choices[0].finish_reason is Some {
        Relayed { deltas: seq![received_of(chunks[0].choices[0])], state: WorkerState::Finished }
    } else {
        let rest = relay(chunks.skip(1), end);
        Relayed { deltas: seq![received_of(chunks[0].choices[0])] + rest.deltas, state: rest.state }
    }
}

/// Turns the chunks of one buffer into what goes on the queue.
pub fn relay_chunks(chunks: &Vec<Chunk>, end: StreamState) -> (r: (Vec<ReceivedDelta>, WorkerState))
    ensures
        received_views(r.0@) == relay(chunk_views(chunks@), end).deltas,
        r.1 == relay(chunk_views(chunks@), end).state,
{
    let ghost all = chunk_views(chunks@);
    let mut out: Vec<ReceivedDelta> = Vec::new();
    let mut i: usize = 0;
    assert(all.skip(0) =~= all);
    while i < chunks.len()
        invariant
            i <= chunks@.len(),
            all == chunk_views(chunks@),
            relay(all, end).deltas == received_views(out@) + relay(all.skip(i as int), end).deltas,
            relay(all, end).state == relay(all.skip(i as int), end).state,
        decreases chunks@.len() - i,
    {
        assert(all.skip(i as int).skip(1) =~= all.skip(i + 1));
        let chunk = &chunks[i];
        if chunk.choices.len() != 1 {
            out.push(ReceivedDelta::terminal());
            return (out, WorkerState::Failed(SessionError::ProtocolViolation));
        }
        let delta = ReceivedDelta::from_choice(&chunk.choices[0]);
        let finished = delta.finished;
        out.push(delta);
        if finished {
            return (out, WorkerState::Finished);
        }
        i = i + 1;
    }
    match end {
        StreamState::Open => (out, WorkerState::Running),
        StreamState::Done => (out, WorkerState::Finished),
        StreamState::Failed(e) => {
            out.push(ReceivedDelta::terminal());
            (out, WorkerState::Failed(SessionError::Decode(e)))
        },
    }
}

/// What one buffer comes to on a running session whose framer is in
/// `framer_state`.
pub open spec fn relay_from(framer_state: StreamState, buffer: Seq<u8>) -> Relayed {
    relay(feed_from(framer_state, buffer).chunks, feed_from(framer_state, buffer).state)
}

/// What one buffer comes to on a running session whose stream is open.
pub open spec fn relay_buffer(buffer: Seq<u8>) -> Relayed {
    relay_from(StreamState::Open, buffer)
}

/// Whether an HTTP status is a success: 200 to 299.
pub open spec fn is_success(status: u16) -> bool {
    200 <= status && status <= 299
}

/// The producing side of one session.
#[derive(Clone, Copy, Debug, PartialEq, Eq)]
pub struct Worker {
    pub framer: Framer,
    pub state: WorkerState,
}

impl Worker {
    /// A worker and its framer are in step: while the worker runs, the stream
    /// is open.
    pub open spec fn well_formed(&self) -> bool {
        self.state == WorkerState::Running ==> self.framer.state == StreamState::Open
    }

    /// The worker of a session that has just been started.
    pub fn new() -> (w: Worker)
        ensures
            w.state == WorkerState::Running,
            w.well_formed(),
    {
        Worker { framer: Framer::new(), state: WorkerState::Running }
    }

    /// Takes the status of the reply. Any status but a success fails the
    /// session with a transport error.
    pub fn on_status(&mut self, status: u16) -> (r: Vec<ReceivedDelta>)
        ensures
            old(self).well_formed() ==> final(self).well_formed(),
            final(self).framer == old(self).framer,
            old(self).state == WorkerState::Running && !is_success(status) ==> received_views(r@)
                == seq![terminal_delta()] && final(self).state == WorkerState::Failed(
                SessionError::Transport,
            ),
            old(self).state != WorkerState::Running || is_success(status) ==> r@.len() == 0
                && final(self).state == old(self).state,
    {
        let mut out: Vec<ReceivedDelta> = Vec::new();
        match self.state {
            WorkerState::Running => {
                if !(200 <= status && status <= 299) {
                    out.push(ReceivedDelta::terminal());
                    self.state = WorkerState::Failed(SessionError::Transport);
                }
            },
            _ => {},
        }
        out
    }

    /// Takes the next buffer of the reply and returns what goes on the queue.
    /// A session that is finished or has failed yields nothing more.
    pub fn on_buffer(&mut self, buffer: &[u8]) -> (r: Vec<ReceivedDelta>)
        ensures
            old(self).well_formed() ==> final(self).well_formed(),
            old(self).state != WorkerState::Running ==> r@.len() == 0 && *final(self) == *old(
                self,
            ),
            old(self).state == WorkerState::Running ==> received_views(r@) == relay_from(
                old(self).framer.state,
                buffer@,
            ).deltas && final(self).state == relay_from(old(self).framer.state, buffer@).state
                && final(self).framer.state == feed_from(old(self).framer.state, buffer@).state,
            old(self).state == WorkerState::Running && old(self).well_formed() ==> received_views(
                r@,
            ) == relay_buffer(buffer@).deltas && final(self).state == relay_buffer(buffer@).state,
    {
        match self.state {
            WorkerState::Running => {},
            _ => {
                return Vec::new();
            },
        }
        let chunks = self.framer.feed(buffer);
        let (deltas, state) = relay_chunks(&chunks, self.framer.state);
        self.state = state;
        proof {
            lemma_running_means_open(chunk_views(chunks@), self.framer.state);
        }
        deltas
    }

    /// The connection failed or was reset. A running session fails with one
    /// terminal delta.
    pub fn on_transport_error(&mut self) -> (r: Vec<ReceivedDelta>)
        ensures
            old(self).well_formed() ==> final(self).well_formed(),
            final(self).framer == old(self).framer,
            old(self).state == WorkerState::Running ==> received_views(r@) == seq![
                terminal_delta(),
            ] && final(self).state == WorkerState::Failed(SessionError::Transport),
            old(self).state != WorkerState::Running ==> r@.len() == 0 && final(self).state == old(
                self,
            ).state,
    {
        let mut out: Vec<ReceivedDelta> = Vec::new();
        match self.state {
            WorkerState::Running => {
                out.push(ReceivedDelta::terminal());
                self.state = WorkerState::Failed(SessionError::Transport);
            },
            _ => {},
        }
        out
    }

    /// The transport has no more buffers. A running session is finished; it
    /// ends without a delta of its own.
    pub fn on_end(&mut self)
        ensures
            old(self).well_formed() ==> final(self).well_formed(),
            final(self).framer == old(self).framer,
            old(self).state == WorkerState::Running ==> final(self).state == WorkerState::Finished,
            old(self).state != WorkerState::Running ==> final(self).state == old(self).state,
    {
        match self.state {
            WorkerState::Running => {
                self.state = WorkerState::Finished;
            },
            _ => {},
        }
    }
}

/// A relay leaves the worker running only where the framer is still open.
pub proof fn lemma_running_means_open(chunks: Seq<ChunkView>, end: StreamState)
    ensures
        relay(chunks, end).state == WorkerState::Running ==> end == StreamState::Open,
    decreases chunks.len(),
{
    if chunks.len() > 0 && chunks[0].choices.len() == 1 && chunks[0].choices[0].finish_reason
        is None {
        lemma_running_means_open(chunks.skip(1), end);
    }
}

/// The delta that goes out for a chunk with one choice carries that choice's
/// text, whatever it is, and is finished exactly when the choice carries a
/// finish reason.
pub proof fn relayed_content_is_chunk_content(chunk: ChunkView, end: StreamState)
    requires
        chunk.choices.len() == 1,
    ensures
        relay(seq![chunk], end).deltas.len() >= 1,
        relay(seq![chunk], end).deltas[0].content == chunk.choices[0].delta.content,
        relay(seq![chunk], end).deltas[0].finished == (chunk.choices[0].finish_reason is Some),
{
}

/// A relay ends at the first finished delta: every delta but the last is
/// unfinished. While the worker runs none is finished; a failure ends with
/// the empty, finished delta.
pub proof fn relay_ends_at_first_finished_delta(chunks: Seq<ChunkView>, end: StreamState)
    ensures
        forall|i: int|
            0 <= i < relay(chunks, end).deltas.len() - 1 ==> !(#[trigger] relay(
                chunks,
                end,
            ).deltas[i]).finished,
        relay(chunks, end).state == WorkerState::Running ==> forall|i: int|
            0 <= i < relay(chunks, end).deltas.len() ==> !(#[trigger] relay(
                chunks,
                end,
            ).deltas[i]).finished,
        relay(chunks, end).state is Failed ==> relay(chunks, end).deltas.len() >= 1 && relay(
            chunks,
            end,
        ).deltas.last() == terminal_delta(),
    decreases chunks.len(),
{
    if chunks.len() > 0 && chunks[0].choices.len() == 1 && chunks[0].choices[0].finish_reason
        is None {
        let rest = relay(chunks.skip(1), end);
        let all = relay(chunks, end);
        relay_ends_at_first_finished_delta(chunks.skip(1), end);
        assert forall|i: int| 0 <= i < all.deltas.len() - 1 implies !(#[trigger] all.deltas[i]).finished by {
            if i > 0 {
                assert(all.deltas[i] == rest.deltas[i - 1]);
            }
        }
        if all.state == WorkerState::Running {
            assert forall|i: int| 0 <= i < all.deltas.len() implies !(#[trigger] all.deltas[i]).finished by {
                if i > 0 {
                    assert(all.deltas[i] == rest.deltas[i - 1]);
                }
            }
        }
        if all.state is Failed {
            assert(all.deltas.last() == rest.deltas.last());
        }
    }
}

} // verus!
