//! What differs between the protocols: endpoints, usage fields, where things stand in a
//! response.
use crate::json::{Json, JsonView};
use crate::model::{Protocol, Usage};
use vstd::prelude::*;

verus! {

/// Where a protocol reports its token counts. `reasoning` and `cached` are paths.
pub struct UsageFields {
    pub input: &'static str,
    pub output: &'static str,
    pub reasoning: &'static str,
    pub cached: &'static str,
    pub input_excludes_cache: bool,
}

/// A sum that stops at the largest value.
pub open spec fn capped(a: u64, b: u64) -> u64 {
    if a + b > u64::MAX {
        u64::MAX
    } else {
        (a + b) as u64
    }
}

pub open spec fn or_zero(n: Option<u64>) -> u64 {
    match n {
        Some(n) => n,
        None => 0,
    }
}

pub open spec fn path_u64(value: JsonView, path: Seq<char>) -> Option<u64> {
    match value.pointer(path) {
        Some(v) => v.as_u64(),
        None => None,
    }
}

impl UsageFields {
    /// The input count. Where the protocol counts cached input apart, it is added, so that
    /// the count is of all input that was processed.
    pub open spec fn input_count(self, value: JsonView) -> Option<u64> {
        match value.get_u64(self.input@) {
            None => None,
            Some(n) => Some(
                if self.input_excludes_cache {
                    capped(
                        capped(n, or_zero(value.get_u64("cache_read_input_tokens"@))),
                        or_zero(value.get_u64("cache_creation_input_tokens"@)),
                    )
                } else {
                    n
                },
            ),
        }
    }

    /// The total that is reported, or else the sum of input and output.
    pub open spec fn total_count(self, value: JsonView) -> Option<u64> {
        match value.get_u64("total_tokens"@) {
            Some(n) => Some(n),
            None => match (self.input_count(value), value.get_u64(self.output@)) {
                (Some(a), Some(b)) => Some(capped(a, b)),
                _ => None,
            },
        }
    }

    pub open spec fn counts(self, value: JsonView) -> Usage {
        Usage {
            input_tokens: self.input_count(value),
            output_tokens: value.get_u64(self.output@),
            total_tokens: self.total_count(value),
            reasoning_tokens: path_u64(value, self.reasoning@),
            cache_read_tokens: match value.get_u64("cache_read_input_tokens"@) {
                Some(n) => Some(n),
                None => path_u64(value, self.cached@),
            },
            cache_write_tokens: value.get_u64("cache_creation_input_tokens"@),
        }
    }

    /// Reads the token counts of a usage object.
    pub fn read(&self, value: &Json) -> (r: Usage)
        ensures
            r == self.counts(value@),
    {
        let read = value.get_u64("cache_read_input_tokens");
        let written = value.get_u64("cache_creation_input_tokens");
        let input = match value.get_u64(self.input) {
            None => None,
            Some(n) => Some(
                if self.input_excludes_cache {
                    n.saturating_add(read.unwrap_or(0)).saturating_add(written.unwrap_or(0))
                } else {
                    n
                },
            ),
        };
        let output = value.get_u64(self.output);
        let total = match value.get_u64("total_tokens") {
            Some(n) => Some(n),
            None => match (input, output) {
                (Some(a), Some(b)) => Some(a.saturating_add(b)),
                _ => None,
            },
        };
        let reasoning = match value.pointer(self.reasoning) {
            Some(v) => v.as_u64(),
            None => None,
        };
        let cached = match read {
            Some(n) => Some(n),
            None => match value.pointer(self.cached) {
                Some(v) => v.as_u64(),
                None => None,
            },
        };
        Usage {
            input_tokens: input,
            output_tokens: output,
            total_tokens: total,
            reasoning_tokens: reasoning,
            cache_read_tokens: cached,
            cache_write_tokens: written,
        }
    }
}

/// The usage of a response, by the fields of its protocol.
pub open spec fn usage_of(protocol: Protocol, value: JsonView) -> Usage {
    let chat = protocol == Protocol::Chat;
    (UsageFields {
        input: if chat {
            "prompt_tokens"
        } else {
            "input_tokens"
        },
        output: if chat {
            "completion_tokens"
        } else {
            "output_tokens"
        },
        reasoning: if chat {
            "/completion_tokens_details/reasoning_tokens"
        } else {
            "/output_tokens_details/reasoning_tokens"
        },
        cached: if chat {
            "/prompt_tokens_details/cached_tokens"
        } else {
            "/input_tokens_details/cached_tokens"
        },
        input_excludes_cache: protocol == Protocol::Messages,
    }).counts(value)
}

/// Reads the usage object of a response.
pub fn usage(protocol: Protocol, value: &Json) -> (r: Usage)
    ensures
        r == usage_of(protocol, value@),
{
    let fields = match protocol {
        Protocol::Chat => UsageFields {
            input: "prompt_tokens",
            output: "completion_tokens",
            reasoning: "/completion_tokens_details/reasoning_tokens",
            cached: "/prompt_tokens_details/cached_tokens",
            input_excludes_cache: false,
        },
        Protocol::Responses => UsageFields {
            input: "input_tokens",
            output: "output_tokens",
            reasoning: "/output_tokens_details/reasoning_tokens",
            cached: "/input_tokens_details/cached_tokens",
            input_excludes_cache: false,
        },
        Protocol::Messages => UsageFields {
            input: "input_tokens",
            output: "output_tokens",
            reasoning: "/output_tokens_details/reasoning_tokens",
            cached: "/input_tokens_details/cached_tokens",
            input_excludes_cache: true,
        },
    };
    fields.read(value)
}

/// Cached input is part of the input count in every protocol: where a Messages response
/// reports it apart, the count covers it.
pub proof fn messages_input_covers_cache(value: JsonView)
    ensures
        usage_of(Protocol::Messages, value).input_tokens matches Some(n) ==> n >= or_zero(
            value.get_u64("cache_read_input_tokens"@),
        ) && n >= or_zero(value.get_u64("cache_creation_input_tokens"@)),
{
}

/// A total that is not reported is never below input or output.
pub proof fn total_covers_parts(protocol: Protocol, value: JsonView)
    requires
        value.get_u64("total_tokens"@) is None,
    ensures
        usage_of(protocol, value).total_tokens matches Some(n) ==> n >= or_zero(
            usage_of(protocol, value).input_tokens,
        ) && n >= or_zero(usage_of(protocol, value).output_tokens),
{
}

/// The path of an endpoint below the base URL.
pub open spec fn endpoint_path(protocol: Protocol) -> Seq<char> {
    match protocol {
        Protocol::Chat => "chat/completions"@,
        Protocol::Responses => "responses"@,
        Protocol::Messages => "messages"@,
    }
}

pub fn endpoint(protocol: Protocol) -> (r: &'static str)
    ensures
        r@ == endpoint_path(protocol),
{
    match protocol {
        Protocol::Chat => "chat/completions",
        Protocol::Responses => "responses",
        Protocol::Messages => "messages",
    }
}

/// Where a response says why it ended.
pub open spec fn finish_value(protocol: Protocol, response: JsonView) -> Option<JsonView> {
    match protocol {
        Protocol::Chat => response.pointer("/choices/0/finish_reason"@),
        Protocol::Responses => response.get("status"@),
        Protocol::Messages => response.get("stop_reason"@),
    }
}

pub fn finish_reason<'a>(protocol: Protocol, response: &'a Json) -> (r: Option<&'a Json>)
    ensures
        r.deep_view() == finish_value(protocol, response@),
{
    match protocol {
        Protocol::Chat => response.pointer("/choices/0/finish_reason"),
        Protocol::Responses => response.get("status"),
        Protocol::Messages => response.get("stop_reason"),
    }
}

} // verus!
