//! A conversation with a hosted model: the history, the chosen model and
//! the rule that picks which provider answers. Sending is left to the
//! application: `prepare_message` says where to send, `record_reply`
//! files the answer.

use vstd::prelude::*;
use crate::api::{ApiMessage, ApiResponse, has_prefix, owned, starts_with};
use crate::analyzer::{Capture, captures, caps_of, group, group_text};
use crate::text::{debug_quoted, debug_str, push_str, str_eq, trim_str, trimmed};
use crate::types::{Command, all_fresh_for};
use crate::vibi_lang::compile;
use crate::vibi_lang::lexer::lex;
use crate::vibi_lang::parser::program_requests;

verus! {

/// Where a message goes: the provider, the model to name and the key to
/// send with it.
#[derive(Debug)]
pub enum Route {
    OpenAi { model: String, api_key: String },
    Gemini { model: String, api_key: String },
}

/// Mathematical model of a [`Route`].
pub enum RouteModel {
    OpenAi { model: Seq<char>, api_key: Seq<char> },
    Gemini { model: Seq<char>, api_key: Seq<char> },
}

impl View for Route {
    type V = RouteModel;

    open spec fn view(&self) -> RouteModel {
        match self {
            Route::OpenAi { model, api_key } => RouteModel::OpenAi { model: model@, api_key: api_key@ },
            Route::Gemini { model, api_key } => RouteModel::Gemini { model: model@, api_key: api_key@ },
        }
    }
}

/// Which provider answers for `model`: OpenAI for `gpt…` models and
/// `chatgpt`, Gemini for `gemini…` models, and otherwise OpenAI with
/// `gpt-4o`; an error when the provider's key is missing.
pub open spec fn route_for(
    model: Seq<char>,
    openai_key: Option<Seq<char>>,
    gemini_key: Option<Seq<char>>,
) -> Result<RouteModel, Seq<char>> {
    if has_prefix(model, "gpt"@) || model == "chatgpt"@ {
        match openai_key {
            Some(k) => Ok(RouteModel::OpenAi { model, api_key: k }),
            None => Err("OpenAI API key not configured"@),
        }
    } else if has_prefix(model, "gemini"@) || model == "gemini"@ {
        match gemini_key {
            Some(k) => Ok(RouteModel::Gemini { model, api_key: k }),
            None => Err("Gemini API key not configured"@),
        }
    } else {
        match openai_key {
            Some(k) => Ok(RouteModel::OpenAi { model: "gpt-4o"@, api_key: k }),
            None => Err("No API key configured"@),
        }
    }
}

/// The model of an optional key.
pub open spec fn key_of(k: Option<String>) -> Option<Seq<char>> {
    match k {
        Some(s) => Some(s@),
        None => None,
    }
}

/// A message with this role and text.
pub open spec fn is_message(m: ApiMessage, role: Seq<char>, content: Seq<char>) -> bool {
    m.role@ == role && m.content@ == content
}

/// A chat with the hosted models.
pub struct ApiChat {
    openai_key: Option<String>,
    gemini_key: Option<String>,
    pub messages: Vec<ApiMessage>,
    model: String,
}

impl ApiChat {
    /// The OpenAI key, if one was given.
    pub closed spec fn openai(&self) -> Option<Seq<char>> {
        key_of(self.openai_key)
    }

    /// The Gemini key, if one was given.
    pub closed spec fn gemini(&self) -> Option<Seq<char>> {
        key_of(self.gemini_key)
    }

    /// The chosen model.
    pub closed spec fn chosen_model(&self) -> Seq<char> {
        self.model@
    }

    /// The conversation so far.
    pub closed spec fn history(&self) -> Seq<ApiMessage> {
        self.messages@
    }

    /// A chat with no history and no model chosen yet.
    pub fn new(openai_key: Option<String>, gemini_key: Option<String>) -> (c: ApiChat)
        ensures
            c.openai() == key_of(openai_key),
            c.gemini() == key_of(gemini_key),
            c.chosen_model().len() == 0,
            c.history().len() == 0,
    {
        ApiChat { openai_key, gemini_key, messages: Vec::new(), model: String::new() }
    }

    /// Chooses the model that later messages go to.
    pub fn set_model(&mut self, model: &str)
        ensures
            final(self).chosen_model() == model@,
            final(self).history() == old(self).history(),
            final(self).openai() == old(self).openai(),
            final(self).gemini() == old(self).gemini(),
    {
        self.model = owned(model);
    }

    /// The conversation so far, oldest message first.
    pub fn messages(&self) -> (r: &[ApiMessage])
        ensures
            r@ == self.history(),
    {
        self.messages.as_slice()
    }

    /// Adds the user's `text` to the conversation and says where the
    /// conversation is to be sent (see `route_for`); the error is the
    /// message shown when no suitable key was given. The user's message
    /// stays in the history either way.
    pub fn prepare_message(&mut self, text: &str) -> (r: Result<Route, String>)
        ensures
            final(self).history().len() == old(self).history().len() + 1,
            final(self).history().drop_last() == old(self).history(),
            is_message(final(self).history().last(), "user"@, text@),
            final(self).chosen_model() == old(self).chosen_model(),
            final(self).openai() == old(self).openai(),
            final(self).gemini() == old(self).gemini(),
            match route_for(old(self).chosen_model(), old(self).openai(), old(self).gemini()) {
                Ok(route) => r matches Ok(x) && x@ == route,
                Err(e) => r matches Err(x) && x@ == e,
            },
    {
        self.messages.push(ApiMessage { role: owned("user"), content: owned(text) });
        assert(self.messages@.drop_last() =~= old(self).messages@);
        let m = self.model.as_str();
        if starts_with(m, "gpt") || str_eq(m, "chatgpt") {
            match &self.openai_key {
                Some(k) => Ok(Route::OpenAi { model: owned(m), api_key: k.clone() }),
                None => Err(owned("OpenAI API key not configured")),
            }
        } else if starts_with(m, "gemini") || str_eq(m, "gemini") {
            match &self.gemini_key {
                Some(k) => Ok(Route::Gemini { model: owned(m), api_key: k.clone() }),
                None => Err(owned("Gemini API key not configured")),
            }
        } else {
            match &self.openai_key {
                Some(k) => Ok(Route::OpenAi { model: owned("gpt-4o"), api_key: k.clone() }),
                None => Err(owned("No API key configured")),
            }
        }
    }

    /// Adds the model's reply to the conversation.
    pub fn record_reply(&mut self, reply: &ApiResponse)
        ensures
            final(self).history() == old(self).history().push(final(self).history().last()),
            is_message(final(self).history().last(), "assistant"@, reply.content@),
            final(self).chosen_model() == old(self).chosen_model(),
            final(self).openai() == old(self).openai(),
            final(self).gemini() == old(self).gemini(),
    {
        self.messages.push(ApiMessage { role: owned("assistant"), content: reply.content.clone() });
    }

    /// Forgets the conversation.
    pub fn clear_history(&mut self)
        ensures
            final(self).history().len() == 0,
            final(self).chosen_model() == old(self).chosen_model(),
            final(self).openai() == old(self).openai(),
            final(self).gemini() == old(self).gemini(),
    {
        self.messages.clear();
    }
}

/// A fenced block marked `vibi`: group 1 its body.
pub open spec fn vibi_fence_pattern() -> Seq<char> {
    "```vibi\\s*([\\s\\S]*?)```"@
}

/// A raw `<vibi.claw> … </vibi.claw>` block: group 1 the whole block.
pub open spec fn claw_pattern() -> Seq<char> {
    "(<vibi\\.claw>[\\s\\S]*?</vibi\\.claw>)"@
}

/// The trimmed group 1 of each match.
pub open spec fn trimmed_groups(cs: Seq<crate::analyzer::CaptureModel>) -> Seq<Seq<char>> {
    cs.map_values(|c: crate::analyzer::CaptureModel| trimmed(group_text(c, 1)))
}

/// The VibiClaw programs in a reply: the bodies of its `vibi` fences, then
/// its raw `<vibi.claw>` blocks, each trimmed.
pub open spec fn vibi_blocks(text: Seq<char>) -> Seq<Seq<char>> {
    trimmed_groups(caps_of(vibi_fence_pattern(), text)) + trimmed_groups(
        caps_of(claw_pattern(), text),
    )
}

/// `{:?}` of a list of texts: the quoted texts between brackets,
/// separated by a comma and a space.
pub open spec fn debug_list(items: Seq<Seq<char>>) -> Seq<char>
    decreases items.len(),
{
    if items.len() == 0 {
        "[]"@
    } else if items.len() == 1 {
        "["@ + debug_quoted(items[0]) + "]"@
    } else {
        debug_list(items.drop_last()).drop_last() + ", "@ + debug_quoted(items.last()) + "]"@
    }
}

/// What compiling one program gave: its pending commands, or the line
/// that reports the failure.
#[derive(Debug)]
pub enum BlockResult {
    Compiled(Vec<Command>),
    Failed(String),
}

/// The outcome compiling `block` has: commands for the program's requests,
/// or `Compilation failed: ` and the list of messages.
pub open spec fn block_result_ok(r: BlockResult, block: Seq<char>) -> bool {
    match program_requests(lex(block)) {
        Ok(reqs) => r matches BlockResult::Compiled(cmds) && all_fresh_for(cmds@, reqs),
        Err(msg) => r matches BlockResult::Failed(s) && s@ == "Compilation failed: "@ + debug_list(
            seq![msg],
        ),
    }
}

fn trimmed_group_texts(caps: &Vec<Capture>, out: &mut Vec<String>)
    ensures
        final(out).deep_view() == old(out).deep_view() + caps@.map_values(
            |c: Capture| trimmed(group_text(c@, 1)),
        ),
{
    let ghost start = out.deep_view();
    let mut i: usize = 0;
    while i < caps.len()
        invariant
            i <= caps@.len(),
            out.deep_view() == start + caps@.take(i as int).map_values(
                |c: Capture| trimmed(group_text(c@, 1)),
            ),
        decreases caps@.len() - i,
    {
        let t = trim_str(group(&caps[i], 1).as_str());
        let ghost before = out.deep_view();
        out.push(t);
        assert(out.deep_view() =~= before.push(t@));
        assert(caps@.take(i + 1).map_values(|c: Capture| trimmed(group_text(c@, 1))) =~= caps@.take(
            i as int,
        ).map_values(|c: Capture| trimmed(group_text(c@, 1))).push(trimmed(group_text(caps@[i as int]@, 1))));
        i = i + 1;
    }
    assert(caps@.take(caps@.len() as int) =~= caps@);
}

/// Picks the VibiClaw programs out of a reply (see `vibi_blocks`).
pub fn extract_vibi_blocks(text: &str) -> (blocks: Vec<String>)
    ensures
        blocks.deep_view() == vibi_blocks(text@),
{
    let mut blocks: Vec<String> = Vec::new();
    let fenced = captures("```vibi\\s*([\\s\\S]*?)```", text);
    trimmed_group_texts(&fenced, &mut blocks);
    let raw = captures("(<vibi\\.claw>[\\s\\S]*?</vibi\\.claw>)", text);
    trimmed_group_texts(&raw, &mut blocks);
    proof {
        let f = fenced@.map_values(|c: Capture| c@);
        let g = raw@.map_values(|c: Capture| c@);
        assert(fenced@.map_values(|c: Capture| trimmed(group_text(c@, 1))) =~= trimmed_groups(f));
        assert(raw@.map_values(|c: Capture| trimmed(group_text(c@, 1))) =~= trimmed_groups(g));
        assert(Seq::<Seq<char>>::empty() + trimmed_groups(f) =~= trimmed_groups(f));
    }
    blocks
}

/// `{:?}` of a list of texts (see `debug_list`).
pub fn debug_list_text(items: &Vec<String>) -> (r: String)
    ensures
        r@ == debug_list(items.deep_view()),
{
    let mut r = owned("[");
    let mut i: usize = 0;
    proof {
        reveal_strlit("[");
        reveal_strlit("[]");
        reveal_strlit("]");
    }
    while i < items.len()
        invariant
            i <= items@.len(),
            r@ + "]"@ == debug_list(items.deep_view().take(i as int)),
        decreases items@.len() - i,
    {
        proof {
            reveal_strlit("]");
            reveal_strlit(", ");
            assert(items.deep_view().take(i + 1).drop_last() =~= items.deep_view().take(i as int));
        }
        let ghost old_r = r@;
        if i > 0 {
            push_str(&mut r, ", ");
        }
        let q = debug_str(items[i].as_str());
        push_str(&mut r, q.as_str());
        proof {
            let t = items.deep_view().take(i + 1);
            assert(t.last() == items@[i as int]@);
            assert(t.drop_last() =~= items.deep_view().take(i as int));
            let d = debug_list(items.deep_view().take(i as int));
            assert(d == old_r + "]"@);
            assert(d.drop_last() =~= old_r);
            if i == 0 {
                reveal_strlit("[]");
                reveal_strlit("[");
                assert(old_r.len() == 1);
                assert(old_r[0] == (old_r + "]"@)[0]);
                assert(old_r =~= "["@);
                assert(r@ + "]"@ =~= "["@ + debug_quoted(t[0]) + "]"@);
            } else {
                assert(r@ =~= old_r + ", "@ + q@);
                assert(r@ + "]"@ =~= d.drop_last() + ", "@ + debug_quoted(t.last()) + "]"@);
            }
            assert(r@ + "]"@ =~= debug_list(t));
        }
        i = i + 1;
    }
    push_str(&mut r, "]");
    assert(items.deep_view().take(items@.len() as int) =~= items.deep_view());
    r
}

/// Compiles each VibiClaw program found in a reply, in order (see
/// `vibi_blocks` and `block_result_ok`).
pub fn compile_vibi_blocks(text: &str) -> (results: Vec<BlockResult>)
    ensures
        results@.len() == vibi_blocks(text@).len(),
        forall|i: int|
            0 <= i < results@.len() ==> block_result_ok(#[trigger] results@[i], vibi_blocks(text@)[i]),
{
    let blocks = extract_vibi_blocks(text);
    let mut results: Vec<BlockResult> = Vec::new();
    let mut i: usize = 0;
    while i < blocks.len()
        invariant
            i <= blocks@.len(),
            blocks.deep_view() == vibi_blocks(text@),
            results@.len() == i,
            forall|k: int|
                0 <= k < i ==> block_result_ok(#[trigger] results@[k], vibi_blocks(text@)[k]),
        decreases blocks@.len() - i,
    {
        assert(blocks.deep_view()[i as int] == blocks@[i as int]@);
        match compile(blocks[i].as_str()) {
            Ok(cmds) => results.push(BlockResult::Compiled(cmds)),
            Err(errors) => {
                let mut line = owned("Compilation failed: ");
                let list = debug_list_text(&errors);
                push_str(&mut line, list.as_str());
                results.push(BlockResult::Failed(line));
            },
        }
        i = i + 1;
    }
    results
}

} // verus!
