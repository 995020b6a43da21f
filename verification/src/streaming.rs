//! What a streamed answer is made of: chunks, each with its choices, each
//! choice with one fragment of the answer.

use vstd::prelude::*;
use crate::error::DecodeError;
use crate::json::{
    is_object, item_models, items_of, json_model, json_parse, member, parse_value, text_of,
    JsonValue,
};
use crate::reading::{
    optional_finish_reason, optional_role, read_optional_finish_reason, read_optional_role,
    read_text, read_u32, text_member, u32_member,
};
use crate::tags::{FinishReason, Role};

verus! {

/// One fragment of an answer.
#[derive(Clone, Debug, PartialEq, Eq)]
pub struct Delta {
    pub role: Option<Role>,
    pub content: String,
}

/// A fragment as a value.
pub struct DeltaView {
    pub role: Option<Role>,
    pub content: Seq<char>,
}

impl View for Delta {
    type V = DeltaView;

    open spec fn view(&self) -> DeltaView {
        DeltaView { role: self.role, content: self.content@ }
    }
}

/// One choice of a chunk: a fragment and, on the last one, why the answer
/// ended.
#[derive(Clone, Debug, PartialEq, Eq)]
pub struct Choice {
    pub index: u32,
    pub delta: Delta,
    pub finish_reason: Option<FinishReason>,
}

/// A streamed choice as a value.
pub struct ChoiceView {
    pub index: u32,
    pub delta: DeltaView,
    pub finish_reason: Option<FinishReason>,
}

impl View for Choice {
    type V = ChoiceView;

    open spec fn view(&self) -> ChoiceView {
        ChoiceView { index: self.index, delta: self.delta@, finish_reason: self.finish_reason }
    }
}

/// One event of a streamed answer.
#[derive(Clone, Debug, PartialEq, Eq)]
pub struct Chunk {
    pub id: String,
    pub model: String,
    pub choices: Vec<Choice>,
}

/// A chunk as a value.
pub struct ChunkView {
    pub id: Seq<char>,
    pub model: Seq<char>,
    pub choices: Seq<ChoiceView>,
}

/// The choices of a chunk as values, in order.
pub open spec fn choice_views(cs: Seq<Choice>) -> Seq<ChoiceView> {
    cs.map_values(|c: Choice| c@)
}

/// The chunks of a stream as values, in order.
pub open spec fn chunk_views(cs: Seq<Chunk>) -> Seq<ChunkView> {
    cs.map_values(|c: Chunk| c@)
}

/// The choices of the chunks, one after the other: each chunk's choices in
/// the order of its array, the chunks in the order in which they came.
pub open spec fn deltas_of(chunks: Seq<ChunkView>) -> Seq<ChoiceView>
    decreases chunks.len(),
{
    if chunks.len() == 0 {
        Seq::empty()
    } else {
        chunks[0].choices + deltas_of(chunks.skip(1))
    }
}

impl View for Chunk {
    type V = ChunkView;

    open spec fn view(&self) -> ChunkView {
        ChunkView { id: self.id@, model: self.model@, choices: choice_views(self.choices@) }
    }
}

/// The text under `content`, which is empty where the member is left out.
pub open spec fn content_or_empty(j: JsonValue) -> Option<Seq<char>> {
    match j.field("content"@) {
        Some(m) => m.as_text(),
        None => Some(Seq::empty()),
    }
}

/// The fragment that a JSON value encodes: an object with an optional `role`
/// and a string `content` that may be left out.
pub open spec fn spec_delta(j: JsonValue) -> Option<DeltaView> {
    if !(j is Object) {
        None
    } else {
        match (optional_role(j), content_or_empty(j)) {
            (Some(role), Some(content)) => Some(DeltaView { role, content }),
            _ => None,
        }
    }
}

/// The fragment under `delta`.
pub open spec fn delta_member(j: JsonValue) -> Option<DeltaView> {
    match j.field("delta"@) {
        Some(d) => spec_delta(d),
        None => None,
    }
}

/// The streamed choice that a JSON value encodes: an `index` that fits in
/// `u32`, a `delta`, and an optional `finish_reason`.
pub open spec fn spec_choice(j: JsonValue) -> Option<ChoiceView> {
    match (u32_member(j, "index"@), delta_member(j), optional_finish_reason(j)) {
        (Some(index), Some(delta), Some(finish_reason)) => Some(
            ChoiceView { index, delta, finish_reason },
        ),
        _ => None,
    }
}

/// The streamed choices that the items of a JSON array encode, where each
/// item encodes one.
pub open spec fn spec_choices(items: Seq<JsonValue>) -> Option<Seq<ChoiceView>> {
    if forall|i: int| 0 <= i < items.len() ==> (#[trigger] spec_choice(items[i])) is Some {
        Some(Seq::new(items.len(), |i: int| spec_choice(items[i])->0))
    } else {
        None
    }
}

/// The streamed choices under `choices`.
pub open spec fn choices_member(j: JsonValue) -> Option<Seq<ChoiceView>> {
    match j.field("choices"@) {
        Some(m) => match m.as_items() {
            Some(items) => spec_choices(items),
            None => None,
        },
        None => None,
    }
}

/// The chunk that a JSON value encodes: strings `id` and `model`, and an
/// array `choices`. Other members are ignored.
pub open spec fn spec_chunk(j: JsonValue) -> Option<ChunkView> {
    match (text_member(j, "id"@), text_member(j, "model"@), choices_member(j)) {
        (Some(id), Some(model), Some(choices)) => Some(ChunkView { id, model, choices }),
        _ => None,
    }
}

/// The chunk that a payload encodes, or `None` where the payload is not JSON
/// or not the JSON of a chunk.
pub open spec fn spec_parse_chunk(payload: Seq<u8>) -> Option<ChunkView> {
    match json_parse(payload) {
        Some(j) => spec_chunk(j),
        None => None,
    }
}

impl Delta {
    /// Decodes a fragment.
    pub fn from_value(v: &serde_json::Value) -> (r: Result<Delta, DecodeError>)
        ensures
            match r {
                Ok(d) => spec_delta(json_model(*v)) == Some(d@),
                Err(e) => e == DecodeError::Json && spec_delta(json_model(*v)) is None,
            },
    {
        if !is_object(v) {
            return Err(DecodeError::Json);
        }
        let role = match read_optional_role(v) {
            Ok(x) => x,
            Err(e) => {
                return Err(e);
            },
        };
        let content = match member(v, "content") {
            Some(m) => match text_of(m) {
                Some(t) => t.to_owned(),
                None => {
                    return Err(DecodeError::Json);
                },
            },
            None => String::new(),
        };
        Ok(Delta { role, content })
    }
}

impl Choice {
    /// A copy with the same index, fragment and finish reason.
    pub fn duplicate(&self) -> (c: Choice)
        ensures
            c@ == self@,
    {
        Choice {
            index: self.index,
            delta: Delta { role: self.delta.role, content: self.delta.content.clone() },
            finish_reason: self.finish_reason,
        }
    }

    /// Decodes a streamed choice.
    pub fn from_value(v: &serde_json::Value) -> (r: Result<Choice, DecodeError>)
        ensures
            match r {
                Ok(c) => spec_choice(json_model(*v)) == Some(c@),
                Err(e) => e == DecodeError::Json && spec_choice(json_model(*v)) is None,
            },
    {
        let index = match read_u32(v, "index") {
            Ok(x) => x,
            Err(e) => {
                return Err(e);
            },
        };
        let delta = match member(v, "delta") {
            Some(d) => match Delta::from_value(d) {
                Ok(x) => x,
                Err(e) => {
                    return Err(e);
                },
            },
            None => {
                return Err(DecodeError::Json);
            },
        };
        let finish_reason = match read_optional_finish_reason(v) {
            Ok(x) => x,
            Err(e) => {
                return Err(e);
            },
        };
        Ok(Choice { index, delta, finish_reason })
    }

    /// Decodes the items of an array as streamed choices.
    pub fn all_from_values(items: &Vec<serde_json::Value>) -> (r: Result<Vec<Choice>, DecodeError>)
        ensures
            match r {
                Ok(cs) => spec_choices(item_models(items@)) == Some(choice_views(cs@)),
                Err(e) => e == DecodeError::Json && spec_choices(item_models(items@)) is None,
            },
    {
        let ghost models = item_models(items@);
        let mut out: Vec<Choice> = Vec::new();
        let mut i: usize = 0;
        while i < items.len()
            invariant
                i <= items@.len(),
                models == item_models(items@),
                out@.len() == i,
                forall|k: int| 0 <= k < i ==> spec_choice(models[k]) == Some((#[trigger] out@[k])@),
            decreases items@.len() - i,
        {
            match Choice::from_value(&items[i]) {
                Ok(c) => {
                    out.push(c);
                },
                Err(e) => {
                    assert(spec_choice(models[i as int]) is None);
                    return Err(e);
                },
            }
            i = i + 1;
        }
        assert forall|k: int| 0 <= k < models.len() implies (#[trigger] spec_choice(
            models[k],
        )) is Some by {
            assert(spec_choice(models[k]) == Some(out@[k]@));
        }
        Ok(out)
    }
}

impl Chunk {
    /// Decodes a chunk from a parsed document.
    pub fn from_value(v: &serde_json::Value) -> (r: Result<Chunk, DecodeError>)
        ensures
            match r {
                Ok(c) => spec_chunk(json_model(*v)) == Some(c@),
                Err(e) => e == DecodeError::Json && spec_chunk(json_model(*v)) is None,
            },
    {
        let id = match read_text(v, "id") {
            Ok(x) => x,
            Err(e) => {
                return Err(e);
            },
        };
        let model = match read_text(v, "model") {
            Ok(x) => x,
            Err(e) => {
                return Err(e);
            },
        };
        let choices = match member(v, "choices") {
            Some(m) => match items_of(m) {
                Some(items) => match Choice::all_from_values(items) {
                    Ok(x) => x,
                    Err(e) => {
                        return Err(e);
                    },
                },
                None => {
                    return Err(DecodeError::Json);
                },
            },
            None => {
                return Err(DecodeError::Json);
            },
        };
        Ok(Chunk { id, model, choices })
    }

    /// Decodes a chunk from the payload of an event.
    pub fn parse(payload: &[u8]) -> (r: Result<Chunk, DecodeError>)
        ensures
            match r {
                Ok(c) => spec_parse_chunk(payload@) == Some(c@),
                Err(e) => e == DecodeError::Json && spec_parse_chunk(payload@) is None,
            },
    {
        match parse_value(payload) {
            Ok(v) => Chunk::from_value(&v),
            Err(_) => Err(DecodeError::Json),
        }
    }
}

/// Lays the choices of the chunks out as one sequence of deltas.
pub fn deltas_in_order(chunks: &Vec<Chunk>) -> (r: Vec<Choice>)
    ensures
        choice_views(r@) == deltas_of(chunk_views(chunks@)),
{
    let ghost all = chunk_views(chunks@);
    let mut out: Vec<Choice> = Vec::new();
    let mut i: usize = 0;
    assert(all.skip(0) =~= all);
    while i < chunks.len()
        invariant
            i <= chunks@.len(),
            all == chunk_views(chunks@),
            deltas_of(all) == choice_views(out@) + deltas_of(all.skip(i as int)),
        decreases chunks@.len() - i,
    {
        let ghost base = choice_views(out@);
        assert(all.skip(i as int).skip(1) =~= all.skip(i + 1));
        let chunk = &chunks[i];
        let ghost these = chunk@.choices;
        let mut j: usize = 0;
        while j < chunk.choices.len()
            invariant
                j <= chunk.choices@.len(),
                these == choice_views(chunk.choices@),
                choice_views(out@) == base + these.take(j as int),
            decreases chunk.choices@.len() - j,
        {
            let ghost before = choice_views(out@);
            out.push(chunk.choices[j].duplicate());
            assert(choice_views(out@) =~= before + seq![these[j as int]]);
            j = j + 1;
        }
        i = i + 1;
    }
    out
}

} // verus!
