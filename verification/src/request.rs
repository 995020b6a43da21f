//! What is sent: messages, and the request that carries a dialog.

use vstd::prelude::*;
use vstd::string::*;
use crate::error::RequestError;
use crate::json::{json_quote, quote_text};
use crate::tags::{Model, Role};

verus! {

/// One turn of a dialog.
#[derive(Clone, Debug, PartialEq, Eq)]
pub struct Message {
    pub content: String,
    pub role: Role,
}

/// A message as a value: its role and its text.
pub struct MessageView {
    pub content: Seq<char>,
    pub role: Role,
}

impl View for Message {
    type V = MessageView;

    open spec fn view(&self) -> MessageView {
        MessageView { content: self.content@, role: self.role }
    }
}

/// The messages of a dialog as values, in order.
pub open spec fn message_views(ms: Seq<Message>) -> Seq<MessageView> {
    ms.map_values(|m: Message| m@)
}

impl Message {
    /// A message of the system with this text.
    pub fn system(content: &str) -> (m: Message)
        ensures
            m@ == (MessageView { content: content@, role: Role::System }),
    {
        Message { content: content.to_owned(), role: Role::System }
    }

    /// A message of the user with this text.
    pub fn user(content: &str) -> (m: Message)
        ensures
            m@ == (MessageView { content: content@, role: Role::User }),
    {
        Message { content: content.to_owned(), role: Role::User }
    }

    /// A message of the assistant with this text.
    pub fn assistant(content: &str) -> (m: Message)
        ensures
            m@ == (MessageView { content: content@, role: Role::Assistant }),
    {
        Message { content: content.to_owned(), role: Role::Assistant }
    }

    /// A message of a tool with this text.
    pub fn tool(content: &str) -> (m: Message)
        ensures
            m@ == (MessageView { content: content@, role: Role::Tool }),
    {
        Message { content: content.to_owned(), role: Role::Tool }
    }

    /// A copy with the same role and text.
    pub fn duplicate(&self) -> (m: Message)
        ensures
            m@ == self@,
    {
        Message { content: self.content.clone(), role: self.role }
    }

    /// The JSON object of this message.
    pub fn to_json(&self) -> (r: String)
        ensures
            r@ == message_json(self@),
    {
        let mut out: String = "{\"content\":".to_owned();
        out.append(quoted(self.content.as_str()).as_str());
        out.append(",\"role\":");
        out.append(quoted(self.role.tag()).as_str());
        out.append("}");
        out
    }
}

/// A copy of a dialog: the same messages in the same order.
pub fn duplicate_messages(ms: &Vec<Message>) -> (r: Vec<Message>)
    ensures
        message_views(r@) == message_views(ms@),
{
    let mut out: Vec<Message> = Vec::new();
    let mut i: usize = 0;
    while i < ms.len()
        invariant
            i <= ms@.len(),
            out@.len() == i,
            forall|k: int| 0 <= k < i ==> (#[trigger] out@[k])@ == ms@[k]@,
        decreases ms@.len() - i,
    {
        out.push(ms[i].duplicate());
        i = i + 1;
    }
    out
}

/// The JSON string literal of a text.
pub fn quoted(text: &str) -> (r: String)
    ensures
        r@ == json_quote(text@),
{
    match quote_text(text) {
        Ok(s) => s,
        Err(_) => vstd::pervasive::unreached(),
    }
}

/// The JSON object of a message: its text under `content`, then the tag of
/// its role under `role`.
pub open spec fn message_json(m: MessageView) -> Seq<char> {
    "{\"content\":"@ + json_quote(m.content) + ",\"role\":"@ + json_quote(m.role.spec_tag()) + "}"@
}

/// The JSON objects of the messages, in order, with a comma between each two.
pub open spec fn messages_json(ms: Seq<MessageView>) -> Seq<char>
    decreases ms.len(),
{
    if ms.len() == 0 {
        Seq::empty()
    } else if ms.len() == 1 {
        message_json(ms[0])
    } else {
        messages_json(ms.drop_last()) + ","@ + message_json(ms.last())
    }
}

/// What goes to the endpoint: the dialog, the model that answers, and whether
/// the answer is to be streamed.
#[derive(Clone, Debug, PartialEq, Eq)]
pub struct ChatCompletionRequest {
    pub messages: Vec<Message>,
    pub model: Model,
    pub stream: bool,
}

/// A request as a value.
pub struct RequestView {
    pub messages: Seq<MessageView>,
    pub model: Model,
    pub stream: bool,
}

impl View for ChatCompletionRequest {
    type V = RequestView;

    open spec fn view(&self) -> RequestView {
        RequestView {
            messages: message_views(self.messages@),
            model: self.model,
            stream: self.stream,
        }
    }
}

/// The text of `true` or `false`.
pub open spec fn bool_json(b: bool) -> Seq<char> {
    if b {
        "true"@
    } else {
        "false"@
    }
}

/// The JSON object of a request: one object with the members `messages`,
/// `model` and `stream`, written without white space.
pub open spec fn request_json(r: RequestView) -> Seq<char> {
    "{\"messages\":["@ + messages_json(r.messages) + "],\"model\":"@ + json_quote(
        r.model.spec_tag(),
    ) + ",\"stream\":"@ + bool_json(r.stream) + "}"@
}

impl ChatCompletionRequest {
    /// A request may go out only with at least one message.
    pub open spec fn well_formed(&self) -> bool {
        self.messages@.len() > 0
    }

    /// Builds a request; a dialog without messages is refused.
    pub fn new(model: Model, messages: Vec<Message>, stream: bool) -> (r: Result<
        ChatCompletionRequest,
        RequestError,
    >)
        ensures
            match r {
                Ok(req) => messages@.len() > 0 && req.well_formed() && req.messages == messages
                    && req.model == model && req.stream == stream,
                Err(e) => messages@.len() == 0 && e == RequestError::EmptyDialog,
            },
    {
        if messages.len() == 0 {
            Err(RequestError::EmptyDialog)
        } else {
            Ok(ChatCompletionRequest { messages, model, stream })
        }
    }

    /// The body to post. A request without messages has none.
    pub fn to_json(&self) -> (r: Result<String, RequestError>)
        ensures
            match r {
                Ok(body) => self.well_formed() && body@ == request_json(self@),
                Err(e) => !self.well_formed() && e == RequestError::EmptyDialog,
            },
    {
        if self.messages.len() == 0 {
            return Err(RequestError::EmptyDialog);
        }
        let ghost views = message_views(self.messages@);
        let mut out: String = "{\"messages\":[".to_owned();
        let mut i: usize = 0;
        while i < self.messages.len()
            invariant
                i <= self.messages@.len(),
                views == message_views(self.messages@),
                out@ == "{\"messages\":["@ + messages_json(views.take(i as int)),
            decreases self.messages@.len() - i,
        {
            assert(views.take(i + 1).drop_last() =~= views.take(i as int));
            if i > 0 {
                out.append(",");
            }
            out.append(self.messages[i].to_json().as_str());
            i = i + 1;
        }
        assert(views.take(i as int) =~= views);
        out.append("],\"model\":");
        out.append(quoted(self.model.tag()).as_str());
        out.append(",\"stream\":");
        if self.stream {
            out.append("true");
        } else {
            out.append("false");
        }
        out.append("}");
        Ok(out)
    }
}

} // verus!
