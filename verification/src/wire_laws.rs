//! Decoding undoes encoding: every answer and every chunk has a JSON document
//! that stands for it, and reading that document gives the value back, member
//! by member.

use vstd::prelude::*;
use crate::json::JsonValue;
use crate::reading::{
    optional_finish_reason, optional_member, optional_role, required_finish_reason,
    required_role, spec_finish_reason, spec_role, text_member, u32_member, u64_member,
};
use crate::request::MessageView;
use crate::response::{
    choices_member, message_member, optional_usage, spec_choice, spec_choices, spec_message,
    spec_response, spec_usage, ChoiceView, ResponseView, Usage,
};
use crate::streaming;

verus! {

/// The JSON object of a message.
pub open spec fn message_value(m: MessageView) -> JsonValue {
    JsonValue::Object(
        map![
            "role"@ => JsonValue::Text(m.role.spec_tag()),
            "content"@ => JsonValue::Text(m.content),
        ],
    )
}

/// The JSON object of a choice of a complete answer.
pub open spec fn choice_value(c: ChoiceView) -> JsonValue {
    JsonValue::Object(
        map![
            "index"@ => JsonValue::Number(Some(c.index as u64)),
            "message"@ => message_value(c.message),
            "finish_reason"@ => JsonValue::Text(c.finish_reason.spec_tag()),
        ],
    )
}

/// The JSON object of token counts.
pub open spec fn usage_value(u: Usage) -> JsonValue {
    JsonValue::Object(
        map![
            "prompt_tokens"@ => JsonValue::Number(Some(u.prompt_tokens)),
            "completion_tokens"@ => JsonValue::Number(Some(u.completion_tokens)),
            "total_tokens"@ => JsonValue::Number(Some(u.total_tokens)),
        ],
    )
}

/// The JSON object of a complete answer. Token counts that are not there are
/// written as `null`.
pub open spec fn response_value(r: ResponseView) -> JsonValue {
    JsonValue::Object(
        map![
            "id"@ => JsonValue::Text(r.id),
            "model"@ => JsonValue::Text(r.model),
            "choices"@ => JsonValue::Array(r.choices.map_values(|c: ChoiceView| choice_value(c))),
            "usage"@ => match r.usage {
                Some(u) => usage_value(u),
                None => JsonValue::Null,
            },
        ],
    )
}

/// The JSON object of a fragment. A role that is not there is left out.
pub open spec fn delta_value(d: streaming::DeltaView) -> JsonValue {
    match d.role {
        Some(role) => JsonValue::Object(
            map![
                "role"@ => JsonValue::Text(role.spec_tag()),
                "content"@ => JsonValue::Text(d.content),
            ],
        ),
        None => JsonValue::Object(map!["content"@ => JsonValue::Text(d.content)]),
    }
}

/// The JSON object of a streamed choice. A finish reason that is not there
/// is written as `null`.
pub open spec fn streamed_choice_value(c: streaming::ChoiceView) -> JsonValue {
    JsonValue::Object(
        map![
            "index"@ => JsonValue::Number(Some(c.index as u64)),
            "delta"@ => delta_value(c.delta),
            "finish_reason"@ => match c.finish_reason {
                Some(reason) => JsonValue::Text(reason.spec_tag()),
                None => JsonValue::Null,
            },
        ],
    )
}

/// The JSON object of a chunk.
pub open spec fn chunk_value(c: streaming::ChunkView) -> JsonValue {
    JsonValue::Object(
        map![
            "id"@ => JsonValue::Text(c.id),
            "model"@ => JsonValue::Text(c.model),
            "choices"@ => JsonValue::Array(
                c.choices.map_values(|x: streaming::ChoiceView| streamed_choice_value(x)),
            ),
        ],
    )
}

proof fn lemma_keys_differ()
    ensures
        "id"@ != "model"@,
        "id"@ != "choices"@,
        "id"@ != "usage"@,
        "model"@ != "choices"@,
        "model"@ != "usage"@,
        "choices"@ != "usage"@,
        "index"@ != "message"@,
        "index"@ != "delta"@,
        "index"@ != "finish_reason"@,
        "message"@ != "finish_reason"@,
        "delta"@ != "finish_reason"@,
        "role"@ != "content"@,
        "prompt_tokens"@ != "completion_tokens"@,
        "prompt_tokens"@ != "total_tokens"@,
        "completion_tokens"@ != "total_tokens"@,
{
    reveal_strlit("id");
    reveal_strlit("model");
    reveal_strlit("choices");
    reveal_strlit("usage");
    reveal_strlit("index");
    reveal_strlit("message");
    reveal_strlit("delta");
    reveal_strlit("finish_reason");
    reveal_strlit("role");
    reveal_strlit("content");
    reveal_strlit("prompt_tokens");
    reveal_strlit("completion_tokens");
    reveal_strlit("total_tokens");
    assert("id"@.len() == 2);
    assert("model"@.len() == 5);
    assert("choices"@.len() == 7);
    assert("usage"@.len() == 5);
    assert("model"@[0] != "usage"@[0]);
    assert("index"@.len() == 5);
    assert("message"@.len() == 7);
    assert("delta"@.len() == 5);
    assert("index"@[0] != "delta"@[0]);
    assert("finish_reason"@.len() == 13);
    assert("role"@.len() == 4);
    assert("content"@.len() == 7);
    assert("prompt_tokens"@.len() == 13);
    assert("completion_tokens"@.len() == 17);
    assert("total_tokens"@.len() == 12);
}

/// Reading the JSON object of a message gives the message back.
pub proof fn message_round_trips(m: MessageView)
    ensures
        spec_message(message_value(m)) == Some(m),
{
    lemma_keys_differ();
    m.role.tag_round_trip();
    let j = message_value(m);
    assert(j.field("role"@) == Some(JsonValue::Text(m.role.spec_tag())));
    assert(j.field("content"@) == Some(JsonValue::Text(m.content)));
    assert(required_role(j) == Some(m.role));
    assert(text_member(j, "content"@) == Some(m.content));
}

/// Reading the JSON object of a choice gives the choice back.
pub proof fn choice_round_trips(c: ChoiceView)
    ensures
        spec_choice(choice_value(c)) == Some(c),
{
    lemma_keys_differ();
    message_round_trips(c.message);
    c.finish_reason.tag_round_trip();
    let j = choice_value(c);
    assert(j.field("index"@) == Some(JsonValue::Number(Some(c.index as u64))));
    assert(j.field("message"@) == Some(message_value(c.message)));
    assert(j.field("finish_reason"@) == Some(JsonValue::Text(c.finish_reason.spec_tag())));
    assert(u32_member(j, "index"@) == Some(c.index));
    assert(message_member(j) == Some(c.message));
    assert(required_finish_reason(j) == Some(c.finish_reason));
}

/// Reading the JSON object of token counts gives the counts back.
pub proof fn usage_round_trips(u: Usage)
    ensures
        spec_usage(usage_value(u)) == Some(u),
{
    lemma_keys_differ();
    let j = usage_value(u);
    assert(j.field("prompt_tokens"@) == Some(JsonValue::Number(Some(u.prompt_tokens))));
    assert(j.field("completion_tokens"@) == Some(JsonValue::Number(Some(u.completion_tokens))));
    assert(j.field("total_tokens"@) == Some(JsonValue::Number(Some(u.total_tokens))));
    assert(u64_member(j, "prompt_tokens"@) == Some(u.prompt_tokens));
    assert(u64_member(j, "completion_tokens"@) == Some(u.completion_tokens));
    assert(u64_member(j, "total_tokens"@) == Some(u.total_tokens));
}

/// Reading the JSON object of a complete answer gives the answer back: its
/// identifier, its model, each of its choices in order, and its token counts.
pub proof fn response_round_trips(r: ResponseView)
    ensures
        spec_response(response_value(r)) == Some(r),
        text_member(response_value(r), "model"@) == Some(r.model),
{
    lemma_keys_differ();
    let j = response_value(r);
    let items = r.choices.map_values(|c: ChoiceView| choice_value(c));
    assert(j.field("id"@) == Some(JsonValue::Text(r.id)));
    assert(j.field("model"@) == Some(JsonValue::Text(r.model)));
    assert(j.field("choices"@) == Some(JsonValue::Array(items)));
    assert forall|i: int| 0 <= i < items.len() implies #[trigger] spec_choice(items[i]) == Some(
        r.choices[i],
    ) by {
        choice_round_trips(r.choices[i]);
    }
    assert(spec_choices(items) is Some);
    assert(spec_choices(items)->0 =~= r.choices);
    assert(choices_member(j) == Some(r.choices));
    match r.usage {
        Some(u) => {
            usage_round_trips(u);
            assert(j.field("usage"@) == Some(usage_value(u)));
            assert(optional_member(j, "usage"@) == Some(usage_value(u)));
        },
        None => {
            assert(j.field("usage"@) == Some(JsonValue::Null));
            assert(optional_member(j, "usage"@) is None);
        },
    }
    assert(optional_usage(j) == Some(r.usage));
    assert(text_member(j, "id"@) == Some(r.id));
    assert(text_member(j, "model"@) == Some(r.model));
}

/// Reading the JSON object of a fragment gives the fragment back.
pub proof fn delta_round_trips(d: streaming::DeltaView)
    ensures
        streaming::spec_delta(delta_value(d)) == Some(d),
{
    lemma_keys_differ();
    let j = delta_value(d);
    match d.role {
        Some(role) => {
            role.tag_round_trip();
            assert(j.field("role"@) == Some(JsonValue::Text(role.spec_tag())));
            assert(j.field("content"@) == Some(JsonValue::Text(d.content)));
            assert(optional_member(j, "role"@) == Some(JsonValue::Text(role.spec_tag())));
            assert(spec_role(JsonValue::Text(role.spec_tag())) == Some(role));
        },
        None => {
            assert(j.field("role"@) is None);
            assert(j.field("content"@) == Some(JsonValue::Text(d.content)));
        },
    }
    assert(optional_role(j) == Some(d.role));
    assert(streaming::content_or_empty(j) == Some(d.content));
}

/// Reading the JSON object of a streamed choice gives the choice back.
pub proof fn streamed_choice_round_trips(c: streaming::ChoiceView)
    ensures
        streaming::spec_choice(streamed_choice_value(c)) == Some(c),
{
    lemma_keys_differ();
    delta_round_trips(c.delta);
    let j = streamed_choice_value(c);
    assert(j.field("index"@) == Some(JsonValue::Number(Some(c.index as u64))));
    assert(j.field("delta"@) == Some(delta_value(c.delta)));
    match c.finish_reason {
        Some(reason) => {
            reason.tag_round_trip();
            assert(j.field("finish_reason"@) == Some(JsonValue::Text(reason.spec_tag())));
            assert(spec_finish_reason(JsonValue::Text(reason.spec_tag())) == Some(reason));
        },
        None => {
            assert(j.field("finish_reason"@) == Some(JsonValue::Null));
        },
    }
    assert(optional_finish_reason(j) == Some(c.finish_reason));
    assert(u32_member(j, "index"@) == Some(c.index));
    assert(streaming::delta_member(j) == Some(c.delta));
}

/// Reading the JSON object of a chunk gives the chunk back: its identifier,
/// its model and each of its choices in order.
pub proof fn chunk_round_trips(c: streaming::ChunkView)
    ensures
        streaming::spec_chunk(chunk_value(c)) == Some(c),
{
    lemma_keys_differ();
    let j = chunk_value(c);
    let items = c.choices.map_values(|x: streaming::ChoiceView| streamed_choice_value(x));
    assert(j.field("id"@) == Some(JsonValue::Text(c.id)));
    assert(j.field("model"@) == Some(JsonValue::Text(c.model)));
    assert(j.field("choices"@) == Some(JsonValue::Array(items)));
    assert forall|i: int| 0 <= i < items.len() implies #[trigger] streaming::spec_choice(
        items[i],
    ) == Some(c.choices[i]) by {
        streamed_choice_round_trips(c.choices[i]);
    }
    assert(streaming::spec_choices(items) is Some);
    assert(streaming::spec_choices(items)->0 =~= c.choices);
    assert(streaming::choices_member(j) == Some(c.choices));
    assert(text_member(j, "id"@) == Some(c.id));
    assert(text_member(j, "model"@) == Some(c.model));
}

} // verus!
