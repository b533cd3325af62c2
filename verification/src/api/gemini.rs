//! What the Gemini generate-content API is sent and what is kept of its
//! reply. The request itself is sent by the application.

use vstd::prelude::*;
use crate::api::{ApiResponse, owned};
use crate::text::{push_str, str_eq};

verus! {

/// The model asked for when none is named.
pub open spec fn default_gemini_model() -> Seq<char> {
    "gemini-2.5-pro"@
}

/// The role Gemini is told for a message: `model` for the assistant's
/// messages, `user` for every other.
pub fn gemini_role(role: &str) -> (r: &'static str)
    ensures
        r@ == (if role@ == "assistant"@ { "model"@ } else { "user"@ }),
{
    if str_eq(role, "assistant") {
        "model"
    } else {
        "user"
    }
}

/// The model a request names: `model`, or the default when it is empty.
pub fn request_model(model: &str) -> (r: String)
    ensures
        r@ == (if model@.len() == 0 { default_gemini_model() } else { model@ }),
{
    if model.is_empty() {
        owned("gemini-2.5-pro")
    } else {
        owned(model)
    }
}

/// The endpoint that generates content with `model` under `api_key`.
pub fn generate_url(model: &str, api_key: &str) -> (r: String)
    ensures
        r@ == "https://generativelanguage.googleapis.com/v1beta/models/"@ + model@
            + ":generateContent?key="@ + api_key@,
{
    let mut r = owned("https://generativelanguage.googleapis.com/v1beta/models/");
    push_str(&mut r, model);
    push_str(&mut r, ":generateContent?key=");
    push_str(&mut r, api_key);
    r
}

/// The models offered through this API.
pub fn gemini_models() -> (r: Vec<String>)
    ensures
        r.deep_view() == seq!["gemini-2.5-pro"@, "gemini-2.5-flash"@, "gemini-1.5-pro"@],
{
    let mut r: Vec<String> = Vec::new();
    r.push(owned("gemini-2.5-pro"));
    r.push(owned("gemini-2.5-flash"));
    r.push(owned("gemini-1.5-pro"));
    assert(r.deep_view() =~= seq!["gemini-2.5-pro"@, "gemini-2.5-flash"@, "gemini-1.5-pro"@]);
    r
}

/// The text of a reply whose candidates carried the part texts
/// `candidates`: the first part of the first candidate, empty when there
/// is none.
pub open spec fn first_part(candidates: Seq<Seq<Seq<char>>>) -> Seq<char> {
    if candidates.len() > 0 && candidates[0].len() > 0 {
        candidates[0][0]
    } else {
        Seq::empty()
    }
}

/// The reply kept from a response: the first part of the first candidate,
/// the model version the service reports and the total token count.
pub fn gemini_reply(candidates: &Vec<Vec<String>>, model_version: &str, total_tokens: u32) -> (r: ApiResponse)
    ensures
        r.content@ == first_part(candidates.deep_view()),
        r.model@ == model_version@,
        r.tokens_used == total_tokens,
{
    let content = if candidates.len() > 0 && candidates[0].len() > 0 {
        candidates[0][0].clone()
    } else {
        String::new()
    };
    ApiResponse { content, model: owned(model_version), tokens_used: total_tokens }
}

} // verus!
