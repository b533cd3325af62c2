//! Talking to hosted AI models: the message and reply types, the requests
//! each provider expects, and the chat that routes between them.

pub mod openai;
pub mod gemini;
pub mod api_chat;

use vstd::prelude::*;

verus! {

/// One message of a conversation with a model.
#[derive(Debug)]
pub struct ApiMessage {
    pub role: String,
    pub content: String,
}

/// A model's reply: its text, the model that wrote it and the tokens the
/// exchange cost.
#[derive(Debug)]
pub struct ApiResponse {
    pub content: String,
    pub model: String,
    pub tokens_used: u32,
}

/// A hosted model provider.
pub trait AiApi {
    /// Sends the conversation to `model` and returns its reply.
    fn send_message(&self, messages: &[ApiMessage], model: &str) -> Result<ApiResponse, String>;

    /// The models this provider offers.
    fn list_models(&self) -> Result<Vec<String>, String>;
}

/// `s` begins with `p`.
pub open spec fn has_prefix(s: Seq<char>, p: Seq<char>) -> bool {
    p.len() <= s.len() && s.take(p.len() as int) == p
}

/// Whether `s` begins with `p`.
pub fn starts_with(s: &str, p: &str) -> (r: bool)
    ensures
        r == has_prefix(s@, p@),
{
    let a = crate::text::chars_of(s);
    let b = crate::text::chars_of(p);
    if b.len() > a.len() {
        return false;
    }
    let mut i: usize = 0;
    while i < b.len()
        invariant
            b@.len() <= a@.len(),
            i <= b@.len(),
            a@ == s@,
            b@ == p@,
            forall|k: int| 0 <= k < i ==> a@[k] == b@[k],
        decreases b@.len() - i,
    {
        if a[i] != b[i] {
            return false;
        }
        i = i + 1;
    }
    assert(a@.take(b@.len() as int) =~= b@);
    true
}

/// A copy of `s`.
pub fn owned(s: &str) -> (r: String)
    ensures
        r@ == s@,
{
    s.to_owned()
}

} // verus!
