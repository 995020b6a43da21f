//! The consuming side of a session: the dialog, and the queue that stands for
//! "a session is running".
//!
//! The user interface owns a [`Bridge`]. `dispatch` starts a session when none
//! is running; `drain` is called on every tick with whatever the queue held.
//! Neither blocks: making the queue, starting the task and pulling from the
//! queue are the caller's part.

use vstd::prelude::*;
use crate::request::{duplicate_messages, message_views, Message, MessageView};
use crate::tags::Role;
use crate::framer::StreamState;
use crate::streaming::ChunkView;
use crate::worker::{
    relay, relay_ends_at_first_finished_delta, received_views, ReceivedDelta, ReceivedView,
};

verus! {

/// The dialog of a conversation, and whether a session is running.
#[derive(Clone, Debug, PartialEq, Eq)]
pub struct Bridge {
    /// The history that goes out with every request; it only grows.
    pub dialog: Vec<Message>,
    /// Whether a queue exists, that is, whether a session is running.
    pub chatting: bool,
}

/// The deltas of `ds` up to and including the first that is finished.
pub open spec fn up_to_terminal(ds: Seq<ReceivedView>) -> Seq<ReceivedView>
    decreases ds.len(),
{
    if ds.len() == 0 {
        Seq::empty()
    } else if ds[0].finished {
        seq![ds[0]]
    } else {
        seq![ds[0]] + up_to_terminal(ds.skip(1))
    }
}

/// Whether one of the deltas is finished.
pub open spec fn has_terminal(ds: Seq<ReceivedView>) -> bool {
    exists|i: int| 0 <= i < ds.len() && (#[trigger] ds[i]).finished
}

/// The dialog that a first run starts from: a system prompt and an opening
/// greeting of the user.
pub open spec fn initial_dialog() -> Seq<MessageView> {
    seq![
        MessageView { content: "你是一个智能助手。"@, role: Role::System },
        MessageView { content: "你好！"@, role: Role::User },
    ]
}

/// Builds the dialog that a first run starts from.
pub fn default_dialog() -> (d: Vec<Message>)
    ensures
        message_views(d@) == initial_dialog(),
{
    let mut d: Vec<Message> = Vec::new();
    d.push(Message::system("你是一个智能助手。"));
    d.push(Message::user("你好！"));
    d
}

impl Bridge {
    /// A bridge with a dialog to start from and no session.
    pub fn new(dialog: Vec<Message>) -> (b: Bridge)
        ensures
            b.dialog == dialog,
            !b.chatting,
    {
        Bridge { dialog, chatting: false }
    }

    /// Asks for a new turn. While a session is running this does nothing.
    /// Otherwise the prompt is appended to the dialog as a user message, a
    /// session counts as running, and the dialog as it now stands is
    /// returned for the task to send.
    pub fn dispatch(&mut self, prompt: &str) -> (snapshot: Option<Vec<Message>>)
        ensures
            old(self).chatting ==> snapshot is None && *final(self) == *old(self),
            !old(self).chatting ==> final(self).chatting && message_views(final(self).dialog@)
                == message_views(old(self).dialog@).push(
                MessageView { content: prompt@, role: Role::User },
            ) && snapshot is Some && message_views(snapshot->0@) == message_views(
                final(self).dialog@,
            ),
    {
        if self.chatting {
            return None;
        }
        self.dialog.push(Message::user(prompt));
        self.chatting = true;
        Some(duplicate_messages(&self.dialog))
    }

    /// Takes what the queue held at this tick, and whether its producer is
    /// gone, and returns the deltas to show: those up to and including the
    /// first finished one. A finished delta, or a producer that is gone, ends
    /// the session. Without a session nothing is returned. The dialog stays
    /// as it is.
    pub fn drain(&mut self, available: Vec<ReceivedDelta>, closed: bool) -> (shown: Vec<
        ReceivedDelta,
    >)
        ensures
            final(self).dialog == old(self).dialog,
            !old(self).chatting ==> shown@.len() == 0 && !final(self).chatting,
            old(self).chatting ==> received_views(shown@) == up_to_terminal(
                received_views(available@),
            ) && final(self).chatting == (!closed && !has_terminal(received_views(available@))),
    {
        let mut shown: Vec<ReceivedDelta> = Vec::new();
        if !self.chatting {
            return shown;
        }
        let ghost all = received_views(available@);
        let mut i: usize = 0;
        assert(all.skip(0) =~= all);
        while i < available.len()
            invariant
                i <= available@.len(),
                all == received_views(available@),
                up_to_terminal(all) == received_views(shown@) + up_to_terminal(all.skip(i as int)),
                forall|k: int| 0 <= k < i ==> !(#[trigger] all[k]).finished,
                self.chatting,
                old(self).chatting,
                self.dialog == old(self).dialog,
            decreases available@.len() - i,
        {
            assert(all.skip(i as int).skip(1) =~= all.skip(i + 1));
            let delta = ReceivedDelta {
                content: available[i].content.clone(),
                finished: available[i].finished,
            };
            let finished = delta.finished;
            shown.push(delta);
            if finished {
                self.chatting = false;
                return shown;
            }
            i = i + 1;
        }
        if closed {
            self.chatting = false;
        }
        shown
    }
}

proof fn lemma_nothing_is_cut(ds: Seq<ReceivedView>)
    requires
        forall|i: int| 0 <= i < ds.len() - 1 ==> !(#[trigger] ds[i]).finished,
    ensures
        up_to_terminal(ds) == ds,
    decreases ds.len(),
{
    if ds.len() > 0 {
        let rest = ds.skip(1);
        assert forall|i: int| 0 <= i < rest.len() - 1 implies !(#[trigger] rest[i]).finished by {
            assert(rest[i] == ds[i + 1]);
        }
        lemma_nothing_is_cut(rest);
        assert(up_to_terminal(ds) =~= ds);
    }
}

/// What a worker hands on for one buffer is shown whole: a drain that is
/// given it cuts nothing off. And what a worker hands on when it fails ends
/// the session on the consuming side too.
pub proof fn a_relay_is_shown_whole(chunks: Seq<ChunkView>, end: StreamState)
    ensures
        up_to_terminal(relay(chunks, end).deltas) == relay(chunks, end).deltas,
        relay(chunks, end).state is Failed ==> has_terminal(relay(chunks, end).deltas),
{
    let ds = relay(chunks, end).deltas;
    relay_ends_at_first_finished_delta(chunks, end);
    lemma_nothing_is_cut(ds);
    if relay(chunks, end).state is Failed {
        assert(ds[ds.len() - 1].finished);
    }
}

} // verus!
