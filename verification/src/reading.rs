//! Reading the members of a JSON object.
//!
//! A member that must be there is *required*; one that may be left out, or be
//! `null`, is *optional*. Whatever cannot be read as asked is a JSON decoding
//! error.

use vstd::prelude::*;
use crate::error::DecodeError;
use crate::json::{count_of, is_null, json_model, member, text_of, JsonValue};
use crate::tags::{FinishReason, Role};

verus! {

/// The member under a key, where it is there and is not `null`.
pub open spec fn optional_member(j: JsonValue, key: Seq<char>) -> Option<JsonValue> {
    match j.field(key) {
        Some(m) => if m is Null {
            None
        } else {
            Some(m)
        },
        None => None,
    }
}

/// The text of the string under a key.
pub open spec fn text_member(j: JsonValue, key: Seq<char>) -> Option<Seq<char>> {
    match j.field(key) {
        Some(m) => m.as_text(),
        None => None,
    }
}

/// The number under a key, where it is an integer that fits in `u32`.
pub open spec fn u32_member(j: JsonValue, key: Seq<char>) -> Option<u32> {
    match j.field(key) {
        Some(m) => match m.as_count() {
            Some(n) => if n <= u32::MAX {
                Some(n as u32)
            } else {
                None
            },
            None => None,
        },
        None => None,
    }
}

/// The number under a key, where it is an integer that fits in `u64`.
pub open spec fn u64_member(j: JsonValue, key: Seq<char>) -> Option<u64> {
    match j.field(key) {
        Some(m) => m.as_count(),
        None => None,
    }
}

/// The role that a JSON string names.
pub open spec fn spec_role(j: JsonValue) -> Option<Role> {
    match j.as_text() {
        Some(t) => Role::spec_from_tag(t),
        None => None,
    }
}

/// The finish reason that a JSON string names.
pub open spec fn spec_finish_reason(j: JsonValue) -> Option<FinishReason> {
    match j.as_text() {
        Some(t) => FinishReason::spec_from_tag(t),
        None => None,
    }
}

/// The optional role under `role`: `Some(None)` where there is none,
/// `None` where what is there names no role.
pub open spec fn optional_role(j: JsonValue) -> Option<Option<Role>> {
    match optional_member(j, "role"@) {
        None => Some(None),
        Some(m) => match spec_role(m) {
            Some(r) => Some(Some(r)),
            None => None,
        },
    }
}

/// The optional finish reason under `finish_reason`: `Some(None)` where
/// there is none, `None` where what is there names no finish reason.
pub open spec fn optional_finish_reason(j: JsonValue) -> Option<Option<FinishReason>> {
    match optional_member(j, "finish_reason"@) {
        None => Some(None),
        Some(m) => match spec_finish_reason(m) {
            Some(r) => Some(Some(r)),
            None => None,
        },
    }
}

/// The required finish reason under `finish_reason`.
pub open spec fn required_finish_reason(j: JsonValue) -> Option<FinishReason> {
    match j.field("finish_reason"@) {
        Some(m) => spec_finish_reason(m),
        None => None,
    }
}

/// The required role under `role`.
pub open spec fn required_role(j: JsonValue) -> Option<Role> {
    match j.field("role"@) {
        Some(m) => spec_role(m),
        None => None,
    }
}

/// Looks up a member that may be left out or be `null`.
pub fn read_optional<'a>(v: &'a serde_json::Value, key: &str) -> (r: Option<&'a serde_json::Value>)
    ensures
        match r {
            Some(m) => optional_member(json_model(*v), key@) == Some(json_model(*m)),
            None => optional_member(json_model(*v), key@) is None,
        },
{
    match member(v, key) {
        Some(m) => if is_null(m) {
            None
        } else {
            Some(m)
        },
        None => None,
    }
}

/// Reads a required string.
pub fn read_text(v: &serde_json::Value, key: &str) -> (r: Result<String, DecodeError>)
    ensures
        match r {
            Ok(s) => text_member(json_model(*v), key@) == Some(s@),
            Err(e) => e == DecodeError::Json && text_member(json_model(*v), key@) is None,
        },
{
    match member(v, key) {
        Some(m) => match text_of(m) {
            Some(t) => Ok(t.to_owned()),
            None => Err(DecodeError::Json),
        },
        None => Err(DecodeError::Json),
    }
}

/// Reads a required integer that fits in `u64`.
pub fn read_u64(v: &serde_json::Value, key: &str) -> (r: Result<u64, DecodeError>)
    ensures
        match r {
            Ok(n) => u64_member(json_model(*v), key@) == Some(n),
            Err(e) => e == DecodeError::Json && u64_member(json_model(*v), key@) is None,
        },
{
    match member(v, key) {
        Some(m) => match count_of(m) {
            Some(n) => Ok(n),
            None => Err(DecodeError::Json),
        },
        None => Err(DecodeError::Json),
    }
}

/// Reads a required integer that fits in `u32`.
pub fn read_u32(v: &serde_json::Value, key: &str) -> (r: Result<u32, DecodeError>)
    ensures
        match r {
            Ok(n) => u32_member(json_model(*v), key@) == Some(n),
            Err(e) => e == DecodeError::Json && u32_member(json_model(*v), key@) is None,
        },
{
    match read_u64(v, key) {
        Ok(n) => if n <= 0xFFFF_FFFF {
            Ok(n as u32)
        } else {
            Err(DecodeError::Json)
        },
        Err(e) => Err(e),
    }
}

/// Reads the role that a JSON string names.
pub fn read_role(v: &serde_json::Value) -> (r: Result<Role, DecodeError>)
    ensures
        match r {
            Ok(x) => spec_role(json_model(*v)) == Some(x),
            Err(e) => e == DecodeError::Json && spec_role(json_model(*v)) is None,
        },
{
    match text_of(v) {
        Some(t) => Role::from_tag(t),
        None => Err(DecodeError::Json),
    }
}

/// Reads the finish reason that a JSON string names.
pub fn read_finish_reason(v: &serde_json::Value) -> (r: Result<FinishReason, DecodeError>)
    ensures
        match r {
            Ok(x) => spec_finish_reason(json_model(*v)) == Some(x),
            Err(e) => e == DecodeError::Json && spec_finish_reason(json_model(*v)) is None,
        },
{
    match text_of(v) {
        Some(t) => FinishReason::from_tag(t),
        None => Err(DecodeError::Json),
    }
}

/// Reads the optional member `role`.
pub fn read_optional_role(v: &serde_json::Value) -> (r: Result<Option<Role>, DecodeError>)
    ensures
        match r {
            Ok(x) => optional_role(json_model(*v)) == Some(x),
            Err(e) => e == DecodeError::Json && optional_role(json_model(*v)) is None,
        },
{
    match read_optional(v, "role") {
        None => Ok(None),
        Some(m) => match read_role(m) {
            Ok(x) => Ok(Some(x)),
            Err(e) => Err(e),
        },
    }
}

/// Reads the optional member `finish_reason`.
pub fn read_optional_finish_reason(v: &serde_json::Value) -> (r: Result<
    Option<FinishReason>,
    DecodeError,
>)
    ensures
        match r {
            Ok(x) => optional_finish_reason(json_model(*v)) == Some(x),
            Err(e) => e == DecodeError::Json && optional_finish_reason(json_model(*v)) is None,
        },
{
    match read_optional(v, "finish_reason") {
        None => Ok(None),
        Some(m) => match read_finish_reason(m) {
            Ok(x) => Ok(Some(x)),
            Err(e) => Err(e),
        },
    }
}

/// Reads the required member `finish_reason`.
pub fn read_required_finish_reason(v: &serde_json::Value) -> (r: Result<FinishReason, DecodeError>)
    ensures
        match r {
            Ok(x) => required_finish_reason(json_model(*v)) == Some(x),
            Err(e) => e == DecodeError::Json && required_finish_reason(json_model(*v)) is None,
        },
{
    match member(v, "finish_reason") {
        Some(m) => read_finish_reason(m),
        None => Err(DecodeError::Json),
    }
}

/// Reads the required member `role`.
pub fn read_required_role(v: &serde_json::Value) -> (r: Result<Role, DecodeError>)
    ensures
        match r {
            Ok(x) => required_role(json_model(*v)) == Some(x),
            Err(e) => e == DecodeError::Json && required_role(json_model(*v)) is None,
        },
{
    match member(v, "role") {
        Some(m) => read_role(m),
        None => Err(DecodeError::Json),
    }
}

} // verus!
