//! The wire protocols that the gateway speaks.

use crate::text::str_eq;
use vstd::prelude::*;

verus! {

/// One of the wire protocols, or `Generic` for a body of no known shape.
#[derive(Clone, Copy, Debug, PartialEq, Eq, Structural)]
pub enum WireFormat {
    OpenAiChat,
    OpenAiResponses,
    Anthropic,
    Generic,
}

/// The tag under which `format` is stored and shown.
pub open spec fn tag_of(format: WireFormat) -> Seq<char> {
    match format {
        WireFormat::OpenAiChat => "openai_chat"@,
        WireFormat::OpenAiResponses => "openai_responses"@,
        WireFormat::Anthropic => "anthropic"@,
        WireFormat::Generic => "generic"@,
    }
}

/// The format that `tag` names.
pub open spec fn format_of(tag: Seq<char>) -> Option<WireFormat> {
    if tag == "openai_chat"@ {
        Some(WireFormat::OpenAiChat)
    } else if tag == "openai_responses"@ {
        Some(WireFormat::OpenAiResponses)
    } else if tag == "anthropic"@ {
        Some(WireFormat::Anthropic)
    } else if tag == "generic"@ {
        Some(WireFormat::Generic)
    } else {
        None
    }
}

/// The path of the endpoint that takes bodies in `format`; `Generic` bodies
/// have no endpoint of their own.
pub open spec fn endpoint_of(format: WireFormat) -> Option<Seq<char>> {
    match format {
        WireFormat::OpenAiChat => Some("/v1/chat/completions"@),
        WireFormat::OpenAiResponses => Some("/v1/responses"@),
        WireFormat::Anthropic => Some("/v1/messages"@),
        WireFormat::Generic => None,
    }
}

impl WireFormat {
    /// The tag under which this format is stored and shown.
    pub fn tag(&self) -> (r: &'static str)
        ensures
            r@ == tag_of(*self),
    {
        match self {
            WireFormat::OpenAiChat => "openai_chat",
            WireFormat::OpenAiResponses => "openai_responses",
            WireFormat::Anthropic => "anthropic",
            WireFormat::Generic => "generic",
        }
    }

    /// The format that `tag` names.
    pub fn from_tag(tag: &str) -> (r: Option<WireFormat>)
        ensures
            r == format_of(tag@),
    {
        if str_eq(tag, "openai_chat") {
            Some(WireFormat::OpenAiChat)
        } else if str_eq(tag, "openai_responses") {
            Some(WireFormat::OpenAiResponses)
        } else if str_eq(tag, "anthropic") {
            Some(WireFormat::Anthropic)
        } else if str_eq(tag, "generic") {
            Some(WireFormat::Generic)
        } else {
            None
        }
    }

    /// The path of the endpoint that takes bodies in this format.
    pub fn endpoint(&self) -> (r: Option<&'static str>)
        ensures
            crate::json::slice_in(r) == endpoint_of(*self),
    {
        match self {
            WireFormat::OpenAiChat => Some("/v1/chat/completions"),
            WireFormat::OpenAiResponses => Some("/v1/responses"),
            WireFormat::Anthropic => Some("/v1/messages"),
            WireFormat::Generic => None,
        }
    }
}

/// Every format is the one that its own tag names.
pub proof fn law_tag_round_trip(format: WireFormat)
    ensures
        format_of(tag_of(format)) == Some(format),
{
    reveal_strlit("openai_chat");
    reveal_strlit("openai_responses");
    reveal_strlit("anthropic");
    reveal_strlit("generic");
    let a = "openai_chat"@;
    let b = "openai_responses"@;
    let c = "anthropic"@;
    let d = "generic"@;
    assert(a.len() == 11 && b.len() == 16 && c.len() == 9 && d.len() == 7);
}

} // verus!
