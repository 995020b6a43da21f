//! What a complete, unstreamed answer is made of.

use vstd::prelude::*;
use crate::error::DecodeError;
use crate::json::{
    item_models, items_of, json_model, json_parse, member, parse_value, JsonValue,
};
use crate::reading::{
    optional_member, read_optional, read_required_finish_reason, read_required_role, read_text,
    read_u32, read_u64, required_finish_reason, required_role, text_member, u32_member,
    u64_member,
};
use crate::request::{Message, MessageView};
use crate::tags::FinishReason;

verus! {

/// How many tokens a request and its answer took.
#[derive(Clone, Copy, Debug, PartialEq, Eq, Structural)]
pub struct Usage {
    pub prompt_tokens: u64,
    pub completion_tokens: u64,
    pub total_tokens: u64,
}

/// One choice of an answer: a whole message, and why it ended.
#[derive(Clone, Debug, PartialEq, Eq)]
pub struct Choice {
    pub index: u32,
    pub message: Message,
    pub finish_reason: FinishReason,
}

/// A choice as a value.
pub struct ChoiceView {
    pub index: u32,
    pub message: MessageView,
    pub finish_reason: FinishReason,
}

impl View for Choice {
    type V = ChoiceView;

    open spec fn view(&self) -> ChoiceView {
        ChoiceView { index: self.index, message: self.message@, finish_reason: self.finish_reason }
    }
}

/// The choices of an answer as values, in order.
pub open spec fn choice_views(cs: Seq<Choice>) -> Seq<ChoiceView> {
    cs.map_values(|c: Choice| c@)
}

/// A complete answer.
#[derive(Clone, Debug, PartialEq, Eq)]
pub struct Response {
    pub id: String,
    pub model: String,
    pub choices: Vec<Choice>,
    pub usage: Option<Usage>,
}

/// An answer as a value.
pub struct ResponseView {
    pub id: Seq<char>,
    pub model: Seq<char>,
    pub choices: Seq<ChoiceView>,
    pub usage: Option<Usage>,
}

impl View for Response {
    type V = ResponseView;

    open spec fn view(&self) -> ResponseView {
        ResponseView {
            id: self.id@,
            model: self.model@,
            choices: choice_views(self.choices@),
            usage: self.usage,
        }
    }
}

/// The message that a JSON value encodes: a `role` and a string `content`.
pub open spec fn spec_message(j: JsonValue) -> Option<MessageView> {
    match (required_role(j), text_member(j, "content"@)) {
        (Some(role), Some(content)) => Some(MessageView { content, role }),
        _ => None,
    }
}

/// The message under `message`.
pub open spec fn message_member(j: JsonValue) -> Option<MessageView> {
    match j.field("message"@) {
        Some(m) => spec_message(m),
        None => None,
    }
}

/// The choice that a JSON value encodes: an `index` that fits in `u32`, a
/// `message` and a `finish_reason`.
pub open spec fn spec_choice(j: JsonValue) -> Option<ChoiceView> {
    match (u32_member(j, "index"@), message_member(j), required_finish_reason(j)) {
        (Some(index), Some(message), Some(finish_reason)) => Some(
            ChoiceView { index, message, finish_reason },
        ),
        _ => None,
    }
}

/// The choices that the items of a JSON array encode, where each item
/// encodes one.
pub open spec fn spec_choices(items: Seq<JsonValue>) -> Option<Seq<ChoiceView>> {
    if forall|i: int| 0 <= i < items.len() ==> (#[trigger] spec_choice(items[i])) is Some {
        Some(Seq::new(items.len(), |i: int| spec_choice(items[i])->0))
    } else {
        None
    }
}

/// The choices under `choices`.
pub open spec fn choices_member(j: JsonValue) -> Option<Seq<ChoiceView>> {
    match j.field("choices"@) {
        Some(m) => match m.as_items() {
            Some(items) => spec_choices(items),
            None => None,
        },
        None => None,
    }
}

/// The token counts that a JSON value encodes: three integers that fit in
/// `u64`.
pub open spec fn spec_usage(j: JsonValue) -> Option<Usage> {
    match (
        u64_member(j, "prompt_tokens"@),
        u64_member(j, "completion_tokens"@),
        u64_member(j, "total_tokens"@),
    ) {
        (Some(prompt_tokens), Some(completion_tokens), Some(total_tokens)) => Some(
            Usage { prompt_tokens, completion_tokens, total_tokens },
        ),
        _ => None,
    }
}

/// The optional token counts under `usage`: `Some(None)` where there are
/// none, `None` where what is there encodes none.
pub open spec fn optional_usage(j: JsonValue) -> Option<Option<Usage>> {
    match optional_member(j, "usage"@) {
        None => Some(None),
        Some(m) => match spec_usage(m) {
            Some(u) => Some(Some(u)),
            None => None,
        },
    }
}

/// The answer that a JSON value encodes: strings `id` and `model`, an array
/// `choices` and an optional `usage`. Other members are ignored.
pub open spec fn spec_response(j: JsonValue) -> Option<ResponseView> {
    match (text_member(j, "id"@), text_member(j, "model"@), choices_member(j), optional_usage(j)) {
        (Some(id), Some(model), Some(choices), Some(usage)) => Some(
            ResponseView { id, model, choices, usage },
        ),
        _ => None,
    }
}

/// The answer that a body encodes, or `None` where the body is not JSON or
/// not the JSON of an answer.
pub open spec fn spec_parse_response(body: Seq<u8>) -> Option<ResponseView> {
    match json_parse(body) {
        Some(j) => spec_response(j),
        None => None,
    }
}

/// The model of a decoded answer is the string that stands under `model` on
/// the wire: writing it back as a JSON string gives the member that was read.
pub proof fn decoded_model_round_trips(j: JsonValue)
    requires
        spec_response(j) is Some,
    ensures
        j.field("model"@) == Some(JsonValue::Text(spec_response(j)->0.model)),
{
}

/// Decodes a message.
pub fn message_from_value(v: &serde_json::Value) -> (r: Result<Message, DecodeError>)
    ensures
        match r {
            Ok(m) => spec_message(json_model(*v)) == Some(m@),
            Err(e) => e == DecodeError::Json && spec_message(json_model(*v)) is None,
        },
{
    let role = match read_required_role(v) {
        Ok(x) => x,
        Err(e) => {
            return Err(e);
        },
    };
    let content = match read_text(v, "content") {
        Ok(x) => x,
        Err(e) => {
            return Err(e);
        },
    };
    Ok(Message { content, role })
}

impl Usage {
    /// Decodes token counts.
    pub fn from_value(v: &serde_json::Value) -> (r: Result<Usage, DecodeError>)
        ensures
            match r {
                Ok(u) => spec_usage(json_model(*v)) == Some(u),
                Err(e) => e == DecodeError::Json && spec_usage(json_model(*v)) is None,
            },
    {
        let prompt_tokens = match read_u64(v, "prompt_tokens") {
            Ok(x) => x,
            Err(e) => {
                return Err(e);
            },
        };
        let completion_tokens = match read_u64(v, "completion_tokens") {
            Ok(x) => x,
            Err(e) => {
                return Err(e);
            },
        };
        let total_tokens = match read_u64(v, "total_tokens") {
            Ok(x) => x,
            Err(e) => {
                return Err(e);
            },
        };
        Ok(Usage { prompt_tokens, completion_tokens, total_tokens })
    }
}

impl Choice {
    /// Decodes a choice.
    pub fn from_value(v: &serde_json::Value) -> (r: Result<Choice, DecodeError>)
        ensures
            match r {
                Ok(c) => spec_choice(json_model(*v)) == Some(c@),
                Err(e) => e == DecodeError::Json && spec_choice(json_model(*v)) is None,
            },
    {
        let index = match read_u32(v, "index") {
            Ok(x) => x,
            Err(e) => {
                return Err(e);
            },
        };
        let message = match member(v, "message") {
            Some(m) => match message_from_value(m) {
                Ok(x) => x,
                Err(e) => {
                    return Err(e);
                },
            },
            None => {
                return Err(DecodeError::Json);
            },
        };
        let finish_reason = match read_required_finish_reason(v) {
            Ok(x) => x,
            Err(e) => {
                return Err(e);
            },
        };
        Ok(Choice { index, message, finish_reason })
    }

    /// Decodes the items of an array as choices.
    pub fn all_from_values(items: &Vec<serde_json::Value>) -> (r: Result<Vec<Choice>, DecodeError>)
        ensures
            match r {
                Ok(cs) => spec_choices(item_models(items@)) == Some(choice_views(cs@)),
                Err(e) => e == DecodeError::Json && spec_choices(item_models(items@)) is None,
            },
    {
        let ghost models = item_models(items@);
        let mut out: Vec<Choice> = Vec::new();
        let mut i: usize = 0;
        while i < items.len()
            invariant
                i <= items@.len(),
                models == item_models(items@),
                out@.len() == i,
                forall|k: int| 0 <= k < i ==> spec_choice(models[k]) == Some((#[trigger] out@[k])@),
            decreases items@.len() - i,
        {
            match Choice::from_value(&items[i]) {
                Ok(c) => {
                    out.push(c);
                },
                Err(e) => {
                    assert(spec_choice(models[i as int]) is None);
                    return Err(e);
                },
            }
            i = i + 1;
        }
        assert forall|k: int| 0 <= k < models.len() implies (#[trigger] spec_choice(
            models[k],
        )) is Some by {
            assert(spec_choice(models[k]) == Some(out@[k]@));
        }
        Ok(out)
    }
}

impl Response {
    /// Decodes an answer from a parsed document.
    pub fn from_value(v: &serde_json::Value) -> (r: Result<Response, DecodeError>)
        ensures
            match r {
                Ok(x) => spec_response(json_model(*v)) == Some(x@),
                Err(e) => e == DecodeError::Json && spec_response(json_model(*v)) is None,
            },
    {
        let id = match read_text(v, "id") {
            Ok(x) => x,
            Err(e) => {
                return Err(e);
            },
        };
        let model = match read_text(v, "model") {
            Ok(x) => x,
            Err(e) => {
                return Err(e);
            },
        };
        let choices = match member(v, "choices") {
            Some(m) => match items_of(m) {
                Some(items) => match Choice::all_from_values(items) {
                    Ok(x) => x,
                    Err(e) => {
                        return Err(e);
                    },
                },
                None => {
                    return Err(DecodeError::Json);
                },
            },
            None => {
                return Err(DecodeError::Json);
            },
        };
        let usage = match read_optional(v, "usage") {
            None => None,
            Some(m) => match Usage::from_value(m) {
                Ok(u) => Some(u),
                Err(e) => {
                    return Err(e);
                },
            },
        };
        Ok(Response { id, model, choices, usage })
    }

    /// Decodes an answer from the whole body of a reply.
    pub fn parse(body: &[u8]) -> (r: Result<Response, DecodeError>)
        ensures
            match r {
                Ok(x) => spec_parse_response(body@) == Some(x@),
                Err(e) => e == DecodeError::Json && spec_parse_response(body@) is None,
            },
    {
        match parse_value(body) {
            Ok(v) => Response::from_value(&v),
            Err(_) => Err(DecodeError::Json),
        }
    }
}

} // verus!
