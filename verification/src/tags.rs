//! The three closed enumerations of the wire format and their string tags.

use vstd::prelude::*;
use crate::error::DecodeError;

verus! {

/// Whether two string slices hold the same text.
pub fn same_text(a: &str, b: &str) -> (r: bool)
    ensures
        r == (a@ == b@),
{
    a.to_owned() == b.to_owned()
}

/// Which model answers.
#[derive(Clone, Copy, Debug, PartialEq, Eq, Structural)]
pub enum Model {
    /// The default chat model, `deepseek-chat` on the wire.
    DeepSeekChat,
    /// The default reasoning model, `deepseek-reasoner` on the wire.
    DeepSeekReasoner,
}

/// Who wrote a message.
#[derive(Clone, Copy, Debug, PartialEq, Eq, Structural)]
pub enum Role {
    System,
    User,
    Assistant,
    Tool,
}

/// Why the endpoint stopped generating.
#[derive(Clone, Copy, Debug, PartialEq, Eq, Structural)]
pub enum FinishReason {
    Stop,
    Length,
    ContentFilter,
    ToolCalls,
    InsufficientSystemResource,
}

impl Model {
    /// The tag of a model on the wire.
    pub open spec fn spec_tag(self) -> Seq<char> {
        match self {
            Model::DeepSeekChat => "deepseek-chat"@,
            Model::DeepSeekReasoner => "deepseek-reasoner"@,
        }
    }

    /// The model that a tag names, if any.
    pub open spec fn spec_from_tag(tag: Seq<char>) -> Option<Model> {
        if tag == "deepseek-chat"@ {
            Some(Model::DeepSeekChat)
        } else if tag == "deepseek-reasoner"@ {
            Some(Model::DeepSeekReasoner)
        } else {
            None
        }
    }

    /// The tag on the wire.
    pub fn tag(&self) -> (t: &'static str)
        ensures
            t@ == self.spec_tag(),
    {
        match self {
            Model::DeepSeekChat => "deepseek-chat",
            Model::DeepSeekReasoner => "deepseek-reasoner",
        }
    }

    /// Reads a tag; a tag that names no model is a JSON decoding error.
    pub fn from_tag(tag: &str) -> (r: Result<Model, DecodeError>)
        ensures
            r == match Model::spec_from_tag(tag@) {
                Some(m) => Ok::<Model, DecodeError>(m),
                None => Err(DecodeError::Json),
            },
    {
        if same_text(tag, "deepseek-chat") {
            Ok(Model::DeepSeekChat)
        } else if same_text(tag, "deepseek-reasoner") {
            Ok(Model::DeepSeekReasoner)
        } else {
            Err(DecodeError::Json)
        }
    }

    /// Reading the tag of a model gives the model back.
    pub proof fn tag_round_trip(self)
        ensures
            Model::spec_from_tag(self.spec_tag()) == Some(self),
    {
        reveal_strlit("deepseek-chat");
        reveal_strlit("deepseek-reasoner");
        assert("deepseek-chat"@.len() != "deepseek-reasoner"@.len());
    }
}

impl Role {
    /// The tag of a role on the wire: its name in lower case.
    pub open spec fn spec_tag(self) -> Seq<char> {
        match self {
            Role::System => "system"@,
            Role::User => "user"@,
            Role::Assistant => "assistant"@,
            Role::Tool => "tool"@,
        }
    }

    /// The role that a tag names, if any.
    pub open spec fn spec_from_tag(tag: Seq<char>) -> Option<Role> {
        if tag == "system"@ {
            Some(Role::System)
        } else if tag == "user"@ {
            Some(Role::User)
        } else if tag == "assistant"@ {
            Some(Role::Assistant)
        } else if tag == "tool"@ {
            Some(Role::Tool)
        } else {
            None
        }
    }

    /// The tag on the wire.
    pub fn tag(&self) -> (t: &'static str)
        ensures
            t@ == self.spec_tag(),
    {
        match self {
            Role::System => "system",
            Role::User => "user",
            Role::Assistant => "assistant",
            Role::Tool => "tool",
        }
    }

    /// Reads a tag; a tag that names no role is a JSON decoding error.
    pub fn from_tag(tag: &str) -> (r: Result<Role, DecodeError>)
        ensures
            r == match Role::spec_from_tag(tag@) {
                Some(x) => Ok::<Role, DecodeError>(x),
                None => Err(DecodeError::Json),
            },
    {
        if same_text(tag, "system") {
            Ok(Role::System)
        } else if same_text(tag, "user") {
            Ok(Role::User)
        } else if same_text(tag, "assistant") {
            Ok(Role::Assistant)
        } else if same_text(tag, "tool") {
            Ok(Role::Tool)
        } else {
            Err(DecodeError::Json)
        }
    }

    /// Reading the tag of a role gives the role back.
    pub proof fn tag_round_trip(self)
        ensures
            Role::spec_from_tag(self.spec_tag()) == Some(self),
    {
        reveal_strlit("system");
        reveal_strlit("user");
        reveal_strlit("assistant");
        reveal_strlit("tool");
        assert("system"@.len() == 6);
        assert("user"@.len() == 4);
        assert("assistant"@.len() == 9);
        assert("tool"@.len() == 4);
        assert("user"@[0] != "tool"@[0]);
    }
}

impl FinishReason {
    /// The tag of a finish reason on the wire: its name in lower case, the
    /// words joined by underscores.
    pub open spec fn spec_tag(self) -> Seq<char> {
        match self {
            FinishReason::Stop => "stop"@,
            FinishReason::Length => "length"@,
            FinishReason::ContentFilter => "content_filter"@,
            FinishReason::ToolCalls => "tool_calls"@,
            FinishReason::InsufficientSystemResource => "insufficient_system_resource"@,
        }
    }

    /// The finish reason that a tag names, if any.
    pub open spec fn spec_from_tag(tag: Seq<char>) -> Option<FinishReason> {
        if tag == "stop"@ {
            Some(FinishReason::Stop)
        } else if tag == "length"@ {
            Some(FinishReason::Length)
        } else if tag == "content_filter"@ {
            Some(FinishReason::ContentFilter)
        } else if tag == "tool_calls"@ {
            Some(FinishReason::ToolCalls)
        } else if tag == "insufficient_system_resource"@ {
            Some(FinishReason::InsufficientSystemResource)
        } else {
            None
        }
    }

    /// The tag on the wire.
    pub fn tag(&self) -> (t: &'static str)
        ensures
            t@ == self.spec_tag(),
    {
        match self {
            FinishReason::Stop => "stop",
            FinishReason::Length => "length",
            FinishReason::ContentFilter => "content_filter",
            FinishReason::ToolCalls => "tool_calls",
            FinishReason::InsufficientSystemResource => "insufficient_system_resource",
        }
    }

    /// Reads a tag; a tag that names no finish reason is a JSON decoding
    /// error.
    pub fn from_tag(tag: &str) -> (r: Result<FinishReason, DecodeError>)
        ensures
            r == match FinishReason::spec_from_tag(tag@) {
                Some(x) => Ok::<FinishReason, DecodeError>(x),
                None => Err(DecodeError::Json),
            },
    {
        if same_text(tag, "stop") {
            Ok(FinishReason::Stop)
        } else if same_text(tag, "length") {
            Ok(FinishReason::Length)
        } else if same_text(tag, "content_filter") {
            Ok(FinishReason::ContentFilter)
        } else if same_text(tag, "tool_calls") {
            Ok(FinishReason::ToolCalls)
        } else if same_text(tag, "insufficient_system_resource") {
            Ok(FinishReason::InsufficientSystemResource)
        } else {
            Err(DecodeError::Json)
        }
    }

    /// Reading the tag of a finish reason gives the finish reason back.
    pub proof fn tag_round_trip(self)
        ensures
            FinishReason::spec_from_tag(self.spec_tag()) == Some(self),
    {
        reveal_strlit("stop");
        reveal_strlit("length");
        reveal_strlit("content_filter");
        reveal_strlit("tool_calls");
        reveal_strlit("insufficient_system_resource");
        assert("stop"@.len() == 4);
        assert("length"@.len() == 6);
        assert("content_filter"@.len() == 14);
        assert("tool_calls"@.len() == 10);
        assert("insufficient_system_resource"@.len() == 28);
    }
}

} // verus!
