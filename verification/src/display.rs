//! What the user interface decides from the library's values: which messages
//! of a dialog are shown and on which side, and what a tick's deltas add to
//! the bubble that is being written.

use vstd::prelude::*;
use vstd::string::*;
use crate::request::{message_views, Message, MessageView};
use crate::tags::Role;
use crate::bridge::has_terminal;
use crate::worker::{received_views, ReceivedDelta, ReceivedView};

verus! {

/// Whose bubble a message is shown in.
#[derive(Clone, Copy, Debug, PartialEq, Eq, Structural)]
pub enum MessageRole {
    System,
    User,
    Assistant,
}

/// On which side a bubble stands.
#[derive(Clone, Copy, Debug, PartialEq, Eq, Structural)]
pub enum Side {
    Start,
    End,
}

impl MessageRole {
    /// The bubble role of a message role. A tool message has no bubble: to
    /// ask for one is an error of the caller.
    pub fn from_role(role: Role) -> (r: MessageRole)
        requires
            role != Role::Tool,
        ensures
            (r == MessageRole::System) == (role == Role::System),
            (r == MessageRole::User) == (role == Role::User),
            (r == MessageRole::Assistant) == (role == Role::Assistant),
    {
        match role {
            Role::System => MessageRole::System,
            Role::User => MessageRole::User,
            _ => MessageRole::Assistant,
        }
    }

    /// The side of a bubble: the user's at the end, the assistant's at the
    /// start. System messages have no bubble.
    pub fn side(self) -> (s: Side)
        requires
            self != MessageRole::System,
        ensures
            s == if self == MessageRole::User {
                Side::End
            } else {
                Side::Start
            },
    {
        match self {
            MessageRole::User => Side::End,
            _ => Side::Start,
        }
    }
}

/// The messages of a dialog that are shown: all but the system messages, in
/// the order of the dialog.
pub open spec fn shown_messages(ms: Seq<MessageView>) -> Seq<MessageView> {
    ms.filter(|m: MessageView| m.role != Role::System)
}

/// Picks the messages of a dialog that are shown.
pub fn visible_messages(dialog: &Vec<Message>) -> (r: Vec<Message>)
    ensures
        message_views(r@) == shown_messages(message_views(dialog@)),
{
    let ghost all = message_views(dialog@);
    let ghost keep = |m: MessageView| m.role != Role::System;
    let mut out: Vec<Message> = Vec::new();
    let mut i: usize = 0;
    proof {
        reveal(Seq::filter);
        assert(all.take(0) =~= Seq::<MessageView>::empty());
        assert(message_views(out@) =~= Seq::<MessageView>::empty());
    }
    while i < dialog.len()
        invariant
            i <= dialog@.len(),
            all == message_views(dialog@),
            keep == |m: MessageView| m.role != Role::System,
            message_views(out@) == all.take(i as int).filter(keep),
        decreases dialog@.len() - i,
    {
        let ghost before = message_views(out@);
        let ghost done = all.take(i as int);
        let ghost next = all.take(i + 1);
        proof {
            reveal(Seq::filter);
            assert(next.drop_last() =~= done);
            assert(next.last() == all[i as int]);
        }
        assert(all[i as int] == dialog@[i as int]@);
        match dialog[i].role {
            Role::System => {},
            _ => {
                out.push(dialog[i].duplicate());
                assert(message_views(out@) =~= before.push(all[i as int]));
            },
        }
        i = i + 1;
    }
    assert(all.take(i as int) =~= all);
    out
}

/// The texts of the deltas, joined in order.
pub open spec fn joined_content(ds: Seq<ReceivedView>) -> Seq<char>
    decreases ds.len(),
{
    if ds.len() == 0 {
        Seq::empty()
    } else {
        joined_content(ds.drop_last()) + ds.last().content
    }
}

/// What a tick's deltas add to the bubble that is being written: their texts
/// joined in order, and whether one of them is finished.
pub fn fold_deltas(deltas: &Vec<ReceivedDelta>) -> (r: (String, bool))
    ensures
        r.0@ == joined_content(received_views(deltas@)),
        r.1 == has_terminal(received_views(deltas@)),
{
    let ghost all = received_views(deltas@);
    let mut text: String = String::new();
    let mut finished: bool = false;
    let mut i: usize = 0;
    assert(all.take(0) =~= Seq::<ReceivedView>::empty());
    while i < deltas.len()
        invariant
            i <= deltas@.len(),
            all == received_views(deltas@),
            text@ == joined_content(all.take(i as int)),
            finished == has_terminal(all.take(i as int)),
        decreases deltas@.len() - i,
    {
        let ghost done = all.take(i as int);
        let ghost next = all.take(i + 1);
        assert(next.drop_last() =~= done);
        assert(next.last() == deltas@[i as int]@);
        text.append(deltas[i].content.as_str());
        if deltas[i].finished {
            assert(next[i as int].finished);
            finished = true;
        } else if finished {
            let ghost k = choose|k: int| 0 <= k < done.len() && (#[trigger] done[k]).finished;
            assert(next[k].finished);
        } else {
            assert forall|k: int| 0 <= k < next.len() implies !(#[trigger] next[k]).finished by {
                if k < i {
                    assert(next[k] == done[k]);
                }
            }
        }
        i = i + 1;
    }
    assert(all.take(i as int) =~= all);
    (text, finished)
}

} // verus!
