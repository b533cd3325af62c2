//! What the OpenAI chat completions API is sent and what is kept of its
//! reply. The request itself is sent by the application.

use vstd::prelude::*;
use crate::api::{ApiResponse, owned};
use crate::text::push_str;

verus! {

/// The model asked for when none is named.
pub open spec fn default_openai_model() -> Seq<char> {
    "gpt-4o"@
}

/// The model a request names: `model`, or the default when it is empty.
pub fn request_model(model: &str) -> (r: String)
    ensures
        r@ == (if model@.len() == 0 { default_openai_model() } else { model@ }),
{
    if model.is_empty() {
        owned("gpt-4o")
    } else {
        owned(model)
    }
}

/// The `Authorization` header for an API key.
pub fn bearer(api_key: &str) -> (r: String)
    ensures
        r@ == "Bearer "@ + api_key@,
{
    let mut r = owned("Bearer ");
    push_str(&mut r, api_key);
    r
}

/// The models offered through this API.
pub fn openai_models() -> (r: Vec<String>)
    ensures
        r.deep_view() == seq!["gpt-4o"@, "gpt-4"@, "gpt-3.5-turbo"@],
{
    let mut r: Vec<String> = Vec::new();
    r.push(owned("gpt-4o"));
    r.push(owned("gpt-4"));
    r.push(owned("gpt-3.5-turbo"));
    assert(r.deep_view() =~= seq!["gpt-4o"@, "gpt-4"@, "gpt-3.5-turbo"@]);
    r
}

/// The reply kept from a response whose choices carried the texts
/// `choices`: the first text (empty when there is none), the model that
/// was asked for, and the total token count.
pub fn openai_reply(choices: &Vec<String>, model: &str, total_tokens: u32) -> (r: ApiResponse)
    ensures
        r.content@ == (if choices@.len() > 0 { choices@[0]@ } else { Seq::empty() }),
        r.model@ == model@,
        r.tokens_used == total_tokens,
{
    let content = if choices.len() > 0 {
        choices[0].clone()
    } else {
        String::new()
    };
    ApiResponse { content, model: owned(model), tokens_used: total_tokens }
}

} // verus!
