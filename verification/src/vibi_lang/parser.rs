use vstd::prelude::*;
use super::lexer::{Token, TokenModel, token_models};
use crate::text::{debug_quoted, debug_str, push_str, str_eq};
use crate::types::{Command, CommandKind, Request, all_fresh_for, opt_str};

verus! {

// ---------------------------------------------------------------------
// The grammar, as functions over token models and cursor positions.
// A cursor position `p` behaves like a peekable iterator over the
// tokens: reading at `p` yields `t[p]` when `p < t.len()`, and moving on
// from the end stays at the end.
// ---------------------------------------------------------------------

/// Mathematical model of one job of a VibiClaw program.
#[verifier::ext_equal]
pub struct JobModel {
    pub tool_name: Seq<char>,
    pub params: Seq<(Seq<char>, Seq<char>)>,
    pub items: Seq<Seq<char>>,
    pub mappings: Seq<(Seq<char>, Seq<char>)>,
    pub content_blocks: Seq<(Seq<char>, Seq<char>)>,
}

pub open spec fn peek_at(t: Seq<TokenModel>, p: int) -> Option<TokenModel> {
    if 0 <= p < t.len() {
        Some(t[p])
    } else {
        None
    }
}

pub open spec fn advance(t: Seq<TokenModel>, p: int) -> int {
    if p < t.len() {
        p + 1
    } else {
        p
    }
}

pub open spec fn is_ident(o: Option<TokenModel>, name: Seq<char>) -> bool {
    o matches Some(TokenModel::Ident(s)) && s == name
}

/// Position of the first `{` or `Eof` at or after `p`.
pub open spec fn header_end(t: Seq<TokenModel>, p: int) -> int
    decreases t.len() - p,
{
    if 0 <= p < t.len() && !(t[p] is LBrace) && !(t[p] is Eof) {
        header_end(t, p + 1)
    } else {
        p
    }
}

/// Reads a string or identifier (anything else reads as the empty text).
pub open spec fn take_string(t: Seq<TokenModel>, p: int) -> (Seq<char>, int) {
    (
        match peek_at(t, p) {
            Some(TokenModel::Str(s)) => s,
            Some(TokenModel::Ident(s)) => s,
            _ => Seq::empty(),
        },
        advance(t, p),
    )
}

/// Reads `[text]` (skipping whatever token stands where `]` should be),
/// or a bare string literal; anything else reads as the empty text.
pub open spec fn take_bracket_string(t: Seq<TokenModel>, p: int) -> (Seq<char>, int) {
    match peek_at(t, p) {
        Some(TokenModel::LBracket) => {
            let r = take_string(t, p + 1);
            (r.0, advance(t, r.1))
        },
        Some(TokenModel::Str(s)) => (s, p + 1),
        _ => (Seq::empty(), advance(t, p)),
    }
}

pub open spec fn with_param(j: JobModel, k: Seq<char>, v: Seq<char>) -> JobModel {
    JobModel { params: j.params.push((k, v)), ..j }
}

pub open spec fn with_item(j: JobModel, v: Seq<char>) -> JobModel {
    JobModel { items: j.items.push(v), ..j }
}

pub open spec fn with_mapping(j: JobModel, k: Seq<char>, v: Seq<char>) -> JobModel {
    JobModel { mappings: j.mappings.push((k, v)), ..j }
}

pub open spec fn with_content(j: JobModel, k: Seq<char>, v: Seq<char>) -> JobModel {
    JobModel { content_blocks: j.content_blocks.push((k, v)), ..j }
}

/// A parameter's key at `q`: a word, or two words that read as one with a
/// space between them (`git token`), and the position after it.
pub open spec fn word_key(t: Seq<TokenModel>, q: int) -> (Seq<char>, int) {
    match peek_at(t, q) {
        Some(TokenModel::Ident(a)) => match peek_at(t, q + 1) {
            Some(TokenModel::Ident(b)) => if b == "vibi.tool"@ {
                (a, q + 1)
            } else {
                (a + " "@ + b, q + 2)
            },
            _ => (a, q + 1),
        },
        _ => (Seq::empty(), q),
    }
}

/// The value given to a key at `q`, and the position after it: after
/// `?=` or `:`, a bracketed or quoted value; when `loose`, also a
/// bracketed or quoted value right away (the lexer drops a lone `=`).
pub open spec fn key_value(t: Seq<TokenModel>, q: int, loose: bool) -> Option<(Seq<char>, int)> {
    match peek_at(t, q) {
        Some(TokenModel::QuestionEq) | Some(TokenModel::Colon) => Some(take_bracket_string(t, q + 1)),
        Some(TokenModel::LBracket) | Some(TokenModel::Str(_)) => if loose {
            Some(take_bracket_string(t, q))
        } else {
            None
        },
        _ => None,
    }
}

/// A quoted item `it` followed by `| key = value` at `q`: a `path` value
/// places the item under that directory; another key gives a parameter
/// beside the item.
pub open spec fn item_with_param(t: Seq<TokenModel>, q: int, j: JobModel, it: Seq<char>) -> (JobModel, int, bool) {
    match peek_at(t, q) {
        Some(TokenModel::Ident(_)) => {
            let k = word_key(t, q);
            match key_value(t, k.1, true) {
                Some(v) => if k.0 == "path"@ {
                    (with_item(j, resolve_path_spec(it, Some(v.0))), v.1, true)
                } else {
                    (with_param(with_item(j, it), k.0, v.0), v.1, true)
                },
                None => (with_item(j, it), k.1, true),
            }
        },
        _ => (with_item(j, it), q, true),
    }
}

/// One round of reading a job's parameters, items, mappings and content
/// blocks: the job so far, the new position, and whether reading goes on.
///
/// - `| key ?= value` (or `:`, or a lone `=`) is a parameter; `| [key] ?=
///   value` too; `| [value]` alone is an unnamed parameter.
/// - `?= value` right after the tool is an unnamed parameter, and
///   `?= old => new` a mapping.
/// - `"item"` and `[item]` are items; `"old" => [new]` is a mapping;
///   `"item" | path ?= [dir]` is the item under `dir`.
/// - `key:` followed by a string is a content block.
pub open spec fn job_body_step(t: Seq<TokenModel>, p: int, j: JobModel) -> (JobModel, int, bool) {
    match peek_at(t, p) {
        Some(TokenModel::Pipe) => {
            let q = p + 1;
            match peek_at(t, q) {
                Some(TokenModel::Ident(_)) => {
                    let k = word_key(t, q);
                    match key_value(t, k.1, true) {
                        Some(v) => (with_param(j, k.0, v.0), v.1, true),
                        None => (j, k.1, true),
                    }
                },
                Some(TokenModel::Str(_)) => {
                    let r = take_string(t, q);
                    match peek_at(t, r.1) {
                        Some(TokenModel::Arrow) => {
                            let d = take_bracket_string(t, r.1 + 1);
                            (with_mapping(j, r.0, d.0), d.1, true)
                        },
                        _ => (with_item(j, r.0), r.1, true),
                    }
                },
                Some(TokenModel::LBracket) => {
                    let r = take_bracket_string(t, q);
                    match key_value(t, r.1, false) {
                        Some(v) => (with_param(j, r.0, v.0), v.1, true),
                        None => (with_param(j, Seq::empty(), r.0), r.1, true),
                    }
                },
                _ => (j, q, false),
            }
        },
        Some(TokenModel::QuestionEq) => {
            let r = take_bracket_string(t, p + 1);
            match peek_at(t, r.1) {
                Some(TokenModel::Arrow) => {
                    let d = take_bracket_string(t, r.1 + 1);
                    (with_mapping(j, r.0, d.0), d.1, true)
                },
                _ => (with_param(j, Seq::empty(), r.0), r.1, true),
            }
        },
        Some(TokenModel::LBracket) => {
            let r = take_bracket_string(t, p);
            (with_item(j, r.0), r.1, true)
        },
        Some(TokenModel::RBrace) => (j, p, false),
        Some(TokenModel::And) => (j, p, false),
        Some(TokenModel::Ident(k)) => {
            if k == "vibi.tool"@ {
                (j, p, false)
            } else if peek_at(t, p + 1) is Some && peek_at(t, p + 1)->0 is Colon {
                let r = take_string(t, p + 2);
                (with_content(j, k, r.0), r.1, true)
            } else {
                (j, p + 1, false)
            }
        },
        Some(TokenModel::Str(_)) => {
            let r = take_string(t, p);
            match peek_at(t, r.1) {
                Some(TokenModel::Arrow) => {
                    let d = take_bracket_string(t, r.1 + 1);
                    (with_mapping(j, r.0, d.0), d.1, true)
                },
                Some(TokenModel::Pipe) => item_with_param(t, r.1 + 1, j, r.0),
                _ => (with_item(j, r.0), r.1, true),
            }
        },
        _ => (j, p, false),
    }
}

/// Reads the body of a job from `p` on.
pub open spec fn job_body(t: Seq<TokenModel>, p: int, j: JobModel) -> (JobModel, int)
    decreases t.len() - p,
{
    let s = job_body_step(t, p, j);
    if s.2 && p < s.1 <= t.len() {
        job_body(t, s.1, s.0)
    } else {
        (s.0, s.1)
    }
}

/// Skips an action such as `file.save()`: identifiers, dots and `(` up to
/// and including the first `)`.
pub open spec fn action_end(t: Seq<TokenModel>, p: int) -> int
    decreases t.len() - p,
{
    match peek_at(t, p) {
        Some(TokenModel::Ident(_)) | Some(TokenModel::Dot) | Some(TokenModel::LParen) => {
            if p + 1 <= t.len() {
                action_end(t, p + 1)
            } else {
                p
            }
        },
        Some(TokenModel::RParen) => p + 1,
        _ => p,
    }
}

pub open spec fn empty_job(name: Seq<char>) -> JobModel {
    JobModel {
        tool_name: name,
        params: Seq::empty(),
        items: Seq::empty(),
        mappings: Seq::empty(),
        content_blocks: Seq::empty(),
    }
}

/// Reads one job `vibi.tool = [name] ...` at `p`: the job (none when the
/// token at `p` is not `vibi.tool`, which is consumed all the same) and
/// the position after it.
pub open spec fn read_job(t: Seq<TokenModel>, p: int) -> (Option<JobModel>, int) {
    let p1 = advance(t, p);
    if !is_ident(peek_at(t, p), "vibi.tool"@) {
        (None, p1)
    } else {
        let p2 = advance(t, p1);
        let name = take_string(t, p2);
        let p4 = advance(t, name.1);
        let body = job_body(t, p4, empty_job(name.0));
        (Some(body.0), action_end(t, body.1))
    }
}

pub open spec fn opt_job(o: Option<JobModel>) -> Seq<JobModel> {
    match o {
        Some(j) => seq![j],
        None => Seq::empty(),
    }
}

/// Reads the jobs chained with `&&` after a first one.
pub open spec fn and_chain(t: Seq<TokenModel>, p: int, acc: Seq<JobModel>) -> (Seq<JobModel>, int)
    decreases t.len() - p,
{
    if peek_at(t, p) is Some && peek_at(t, p)->0 is And {
        let r = read_job(t, p + 1);
        if p < r.1 <= t.len() {
            and_chain(t, r.1, acc + opt_job(r.0))
        } else {
            (acc + opt_job(r.0), r.1)
        }
    } else {
        (acc, p)
    }
}

/// Reads the blocks `{ vibi.tool ... && ... }` of the job list; stops
/// after the `{` of the first block that does not start with `vibi.tool`.
pub open spec fn job_blocks(t: Seq<TokenModel>, p: int, acc: Seq<JobModel>) -> (Seq<JobModel>, int)
    decreases t.len() - p,
{
    if peek_at(t, p) is Some && peek_at(t, p)->0 is LBrace {
        let q = p + 1;
        if is_ident(peek_at(t, q), "vibi.tool"@) {
            let r = read_job(t, q);
            let c = and_chain(t, r.1, acc + opt_job(r.0));
            let q3 = advance(t, c.1);
            if p < q3 <= t.len() {
                job_blocks(t, q3, c.0)
            } else {
                (c.0, q3)
            }
        } else {
            (acc, q)
        }
    } else {
        (acc, p)
    }
}

/// How the parser prints a token in its messages (the `Debug` form).
pub open spec fn token_debug(t: TokenModel) -> Seq<char> {
    match t {
        TokenModel::LBrace => "LBrace"@,
        TokenModel::RBrace => "RBrace"@,
        TokenModel::LBracket => "LBracket"@,
        TokenModel::RBracket => "RBracket"@,
        TokenModel::Pipe => "Pipe"@,
        TokenModel::Arrow => "Arrow"@,
        TokenModel::QuestionEq => "QuestionEq"@,
        TokenModel::Colon => "Colon"@,
        TokenModel::And => "And"@,
        TokenModel::LParen => "LParen"@,
        TokenModel::RParen => "RParen"@,
        TokenModel::Dot => "Dot"@,
        TokenModel::Str(s) => "String("@ + debug_quoted(s) + ")"@,
        TokenModel::Ident(s) => "Identifier("@ + debug_quoted(s) + ")"@,
        TokenModel::Eof => "Eof"@,
    }
}

/// How the parser prints the token it found where it wanted another.
pub open spec fn found_debug(o: Option<TokenModel>) -> Seq<char> {
    match o {
        Some(t) => "Some("@ + token_debug(t) + ")"@,
        None => "None"@,
    }
}

/// The message for a missing identifier.
pub open spec fn expected_ident_msg(name: Seq<char>, found: Option<TokenModel>) -> Seq<char> {
    "Expected '"@ + name + "', got: "@ + found_debug(found)
}

/// The jobs of a whole program, or the message of the first error:
/// `header { jobs <blocks> jobs ( ) }`.
pub open spec fn parse_jobs_model(t: Seq<TokenModel>) -> Result<Seq<JobModel>, Seq<char>> {
    let p0 = header_end(t, 0);
    if !(peek_at(t, p0) is Some && peek_at(t, p0)->0 is LBrace) {
        Err("Expected '{'"@)
    } else {
        let p1 = advance(t, p0);
        if !is_ident(peek_at(t, p1), "jobs"@) {
            Err(expected_ident_msg("jobs"@, peek_at(t, p1)))
        } else {
            let b = job_blocks(t, advance(t, p1), Seq::empty());
            let p3 = b.1;
            if !is_ident(peek_at(t, p3), "jobs"@) {
                Err(expected_ident_msg("jobs"@, peek_at(t, p3)))
            } else {
                let p4 = advance(t, p3);
                if !(peek_at(t, p4) is Some && peek_at(t, p4)->0 is LParen) {
                    Err("Expected '('"@)
                } else {
                    let p5 = advance(t, p4);
                    if !(peek_at(t, p5) is Some && peek_at(t, p5)->0 is RParen) {
                        Err("Expected ')'"@)
                    } else {
                        let p6 = advance(t, p5);
                        if !(peek_at(t, p6) is Some && peek_at(t, p6)->0 is RBrace) {
                            Err("Expected '}'"@)
                        } else {
                            Ok(b.0)
                        }
                    }
                }
            }
        }
    }
}


// ---------------------------------------------------------------------
// The parser.
// ---------------------------------------------------------------------

/// A parsed VibiClaw program: the commands its jobs stand for.
#[derive(Debug)]
pub struct VibiProgram {
    pub commands: Vec<Command>,
}

struct Job {
    tool_name: String,
    params: Vec<(String, String)>,
    items: Vec<String>,
    mappings: Vec<(String, String)>,
    content_blocks: Vec<(String, String)>,
}

impl Job {
    closed spec fn model(&self) -> JobModel {
        JobModel {
            tool_name: self.tool_name@,
            params: self.params.deep_view(),
            items: self.items.deep_view(),
            mappings: self.mappings.deep_view(),
            content_blocks: self.content_blocks.deep_view(),
        }
    }

    fn push_param(&mut self, k: String, v: String)
        ensures
            final(self).model() == with_param(old(self).model(), k@, v@),
    {
        self.params.push((k, v));
        assert(self.model().params =~= old(self).model().params.push((k@, v@)));
    }

    fn push_item(&mut self, v: String)
        ensures
            final(self).model() == with_item(old(self).model(), v@),
    {
        self.items.push(v);
        assert(self.model().items =~= old(self).model().items.push(v@));
    }

    fn push_mapping(&mut self, k: String, v: String)
        ensures
            final(self).model() == with_mapping(old(self).model(), k@, v@),
    {
        self.mappings.push((k, v));
        assert(self.model().mappings =~= old(self).model().mappings.push((k@, v@)));
    }

    fn push_content(&mut self, k: String, v: String)
        ensures
            final(self).model() == with_content(old(self).model(), k@, v@),
    {
        self.content_blocks.push((k, v));
        assert(self.model().content_blocks =~= old(self).model().content_blocks.push((k@, v@)));
    }
}

fn skip_header(toks: &Vec<Token>, pos: &mut usize)
    requires
        *old(pos) <= toks@.len(),
    ensures
        *final(pos) as int == header_end(token_models(toks@), *old(pos) as int),
        *final(pos) <= toks@.len(),
        *old(pos) <= *final(pos),
{
    let ghost t = token_models(toks@);
    while *pos < toks.len()
        invariant
            *pos <= toks@.len(),
            t == token_models(toks@),
            header_end(t, *old(pos) as int) == header_end(t, *pos as int),
            *old(pos) <= *pos,
        decreases toks@.len() - *pos,
    {
        match &toks[*pos] {
            Token::LBrace => {
                return ;
            },
            Token::Eof => {
                return ;
            },
            _ => {
                *pos = *pos + 1;
            },
        }
    }
}

/// Whether two tokens are the same.
fn token_eq(a: &Token, b: &Token) -> (r: bool)
    ensures
        r == (a@ == b@),
{
    match a {
        Token::LBrace => matches!(b, Token::LBrace),
        Token::RBrace => matches!(b, Token::RBrace),
        Token::LBracket => matches!(b, Token::LBracket),
        Token::RBracket => matches!(b, Token::RBracket),
        Token::Pipe => matches!(b, Token::Pipe),
        Token::Arrow => matches!(b, Token::Arrow),
        Token::QuestionEq => matches!(b, Token::QuestionEq),
        Token::Colon => matches!(b, Token::Colon),
        Token::And => matches!(b, Token::And),
        Token::LParen => matches!(b, Token::LParen),
        Token::RParen => matches!(b, Token::RParen),
        Token::Dot => matches!(b, Token::Dot),
        Token::Eof => matches!(b, Token::Eof),
        Token::String(x) => match b {
            Token::String(y) => str_eq(x.as_str(), y.as_str()),
            _ => false,
        },
        Token::Identifier(x) => match b {
            Token::Identifier(y) => str_eq(x.as_str(), y.as_str()),
            _ => false,
        },
    }
}

/// Moves on by one token; fails with `err` unless that token is `expected`.
fn expect_token(toks: &Vec<Token>, pos: &mut usize, expected: &Token, err: &str) -> (r: Result<(), Vec<String>>)
    requires
        *old(pos) <= toks@.len(),
    ensures
        *final(pos) as int == advance(token_models(toks@), *old(pos) as int),
        *final(pos) <= toks@.len(),
        *old(pos) <= *final(pos),
        r is Ok <==> peek_at(token_models(toks@), *old(pos) as int) == Some(expected@),
        r matches Err(v) ==> v.deep_view() == seq![err@],
{
    let p = *pos;
    if p < toks.len() {
        *pos = p + 1;
        if token_eq(&toks[p], expected) {
            return Ok(());
        }
    }
    let mut v: Vec<String> = Vec::new();
    v.push(err.to_owned());
    assert(v.deep_view() =~= seq![err@]);
    Err(v)
}

fn token_debug_text(t: &Token) -> (s: String)
    ensures
        s@ == token_debug(t@),
{
    match t {
        Token::LBrace => "LBrace".to_owned(),
        Token::RBrace => "RBrace".to_owned(),
        Token::LBracket => "LBracket".to_owned(),
        Token::RBracket => "RBracket".to_owned(),
        Token::Pipe => "Pipe".to_owned(),
        Token::Arrow => "Arrow".to_owned(),
        Token::QuestionEq => "QuestionEq".to_owned(),
        Token::Colon => "Colon".to_owned(),
        Token::And => "And".to_owned(),
        Token::LParen => "LParen".to_owned(),
        Token::RParen => "RParen".to_owned(),
        Token::Dot => "Dot".to_owned(),
        Token::Eof => "Eof".to_owned(),
        Token::String(x) => {
            let mut s = "String(".to_owned();
            push_str(&mut s, debug_str(x.as_str()).as_str());
            push_str(&mut s, ")");
            s
        },
        Token::Identifier(x) => {
            let mut s = "Identifier(".to_owned();
            push_str(&mut s, debug_str(x.as_str()).as_str());
            push_str(&mut s, ")");
            s
        },
    }
}

/// Moves on by one token; fails unless that token is the identifier `expected`.
fn expect_identifier(toks: &Vec<Token>, pos: &mut usize, expected: &str) -> (r: Result<(), Vec<String>>)
    requires
        *old(pos) <= toks@.len(),
    ensures
        *final(pos) as int == advance(token_models(toks@), *old(pos) as int),
        *final(pos) <= toks@.len(),
        *old(pos) <= *final(pos),
        r is Ok <==> is_ident(peek_at(token_models(toks@), *old(pos) as int), expected@),
        r matches Err(v) ==> v.deep_view() == seq![
            expected_ident_msg(expected@, peek_at(token_models(toks@), *old(pos) as int)),
        ],
{
    let p = *pos;
    let found: String;
    if p < toks.len() {
        *pos = p + 1;
        match &toks[p] {
            Token::Identifier(s) => {
                if str_eq(s.as_str(), expected) {
                    return Ok(());
                }
            },
            _ => {},
        }
        let mut f = "Some(".to_owned();
        push_str(&mut f, token_debug_text(&toks[p]).as_str());
        push_str(&mut f, ")");
        found = f;
    } else {
        found = "None".to_owned();
    }
    let mut msg = "Expected '".to_owned();
    push_str(&mut msg, expected);
    push_str(&mut msg, "', got: ");
    push_str(&mut msg, found.as_str());
    let mut v: Vec<String> = Vec::new();
    v.push(msg);
    assert(v.deep_view() =~= seq![
        expected_ident_msg(expected@, peek_at(token_models(toks@), *old(pos) as int)),
    ]);
    Err(v)
}

fn parse_string(toks: &Vec<Token>, pos: &mut usize) -> (s: String)
    requires
        *old(pos) <= toks@.len(),
    ensures
        (s@, *final(pos) as int) == take_string(token_models(toks@), *old(pos) as int),
        *final(pos) <= toks@.len(),
        *old(pos) <= *final(pos),
{
    let p = *pos;
    if p < toks.len() {
        *pos = p + 1;
        match &toks[p] {
            Token::String(s) => s.clone(),
            Token::Identifier(s) => s.clone(),
            _ => String::new(),
        }
    } else {
        String::new()
    }
}

fn parse_bracket_string(toks: &Vec<Token>, pos: &mut usize) -> (s: String)
    requires
        *old(pos) <= toks@.len(),
    ensures
        (s@, *final(pos) as int) == take_bracket_string(token_models(toks@), *old(pos) as int),
        *final(pos) <= toks@.len(),
        *old(pos) <= *final(pos),
{
    let p = *pos;
    if p < toks.len() {
        *pos = p + 1;
        match &toks[p] {
            Token::LBracket => {
                let s = parse_string(toks, pos);
                if *pos < toks.len() {
                    *pos = *pos + 1;
                }
                s
            },
            Token::String(s) => s.clone(),
            _ => String::new(),
        }
    } else {
        String::new()
    }
}

/// Reads a parameter's key (see `word_key`).
fn read_word_key(toks: &Vec<Token>, pos: &mut usize) -> (k: String)
    requires
        *old(pos) <= toks@.len(),
    ensures
        (k@, *final(pos) as int) == word_key(token_models(toks@), *old(pos) as int),
        *final(pos) <= toks@.len(),
        *old(pos) <= *final(pos),
{
    let p = *pos;
    if p >= toks.len() {
        return String::new();
    }
    match &toks[p] {
        Token::Identifier(a) => {
            if p + 1 < toks.len() {
                match &toks[p + 1] {
                    Token::Identifier(b) => {
                        if str_eq(b.as_str(), "vibi.tool") {
                            *pos = p + 1;
                            a.clone()
                        } else {
                            let mut k = a.clone();
                            k.push(' ');
                            push_str(&mut k, b.as_str());
                            *pos = p + 2;
                            proof {
                                reveal_strlit(" ");
                                assert(k@ =~= a@ + " "@ + b@);
                            }
                            k
                        }
                    },
                    _ => {
                        *pos = p + 1;
                        a.clone()
                    },
                }
            } else {
                *pos = p + 1;
                a.clone()
            }
        },
        _ => String::new(),
    }
}

/// Reads the value given to a key (see `key_value`); the cursor stays
/// where it is when there is none.
fn read_key_value(toks: &Vec<Token>, pos: &mut usize, loose: bool) -> (v: Option<String>)
    requires
        *old(pos) <= toks@.len(),
    ensures
        match key_value(token_models(toks@), *old(pos) as int, loose) {
            Some(x) => v is Some && v->0@ == x.0 && *final(pos) as int == x.1,
            None => v is None && *final(pos) == *old(pos),
        },
        *final(pos) <= toks@.len(),
        *old(pos) <= *final(pos),
{
    let q = *pos;
    if q >= toks.len() {
        return None;
    }
    match &toks[q] {
        Token::QuestionEq | Token::Colon => {
            *pos = q + 1;
            Some(parse_bracket_string(toks, pos))
        },
        Token::LBracket | Token::String(_) => {
            if loose {
                Some(parse_bracket_string(toks, pos))
            } else {
                None
            }
        },
        _ => None,
    }
}

/// Reads `| key = value` after the quoted item `item` (see
/// `item_with_param`).
fn read_item_with_param(toks: &Vec<Token>, pos: &mut usize, job: &mut Job, item: String) -> (cont: bool)
    requires
        *old(pos) <= toks@.len(),
    ensures
        (final(job).model(), *final(pos) as int, cont) == item_with_param(
            token_models(toks@),
            *old(pos) as int,
            old(job).model(),
            item@,
        ),
        *final(pos) <= toks@.len(),
        *old(pos) <= *final(pos),
{
    let q = *pos;
    if q < toks.len() {
        match &toks[q] {
            Token::Identifier(_) => {
                let k = read_word_key(toks, pos);
                match read_key_value(toks, pos, true) {
                    Some(v) => {
                        if str_eq(k.as_str(), "path") {
                            let full = resolve_path(item.as_str(), &Some(v));
                            job.push_item(full);
                        } else {
                            job.push_item(item);
                            job.push_param(k, v);
                        }
                    },
                    None => {
                        job.push_item(item);
                    },
                }
                return true;
            },
            _ => {},
        }
    }
    job.push_item(item);
    true
}

/// One round of the job-body loop; returns whether reading goes on.
#[verifier::rlimit(50)]
fn job_body_round(toks: &Vec<Token>, pos: &mut usize, job: &mut Job) -> (cont: bool)
    requires
        *old(pos) <= toks@.len(),
    ensures
        (final(job).model(), *final(pos) as int, cont) == job_body_step(
            token_models(toks@),
            *old(pos) as int,
            old(job).model(),
        ),
        *final(pos) <= toks@.len(),
        *old(pos) <= *final(pos),
{
    let ghost t = token_models(toks@);
    let p = *pos;
    if p >= toks.len() {
        return false;
    }
    match &toks[p] {
        Token::Pipe => {
            *pos = p + 1;
            let q = p + 1;
            if q >= toks.len() {
                return false;
            }
            match &toks[q] {
                Token::Identifier(_) => {
                    let k = read_word_key(toks, pos);
                    match read_key_value(toks, pos, true) {
                        Some(v) => job.push_param(k, v),
                        None => {},
                    }
                    true
                },
                Token::String(_) => {
                    let item = parse_string(toks, pos);
                    let r1 = *pos;
                    if r1 < toks.len() {
                        match &toks[r1] {
                            Token::Arrow => {
                                *pos = r1 + 1;
                                let dest = parse_bracket_string(toks, pos);
                                job.push_mapping(item, dest);
                                return true;
                            },
                            _ => {},
                        }
                    }
                    job.push_item(item);
                    true
                },
                Token::LBracket => {
                    let r = parse_bracket_string(toks, pos);
                    match read_key_value(toks, pos, false) {
                        Some(v) => job.push_param(r, v),
                        None => job.push_param(String::new(), r),
                    }
                    proof {
                        reveal_strlit("");
                    }
                    true
                },
                _ => false,
            }
        },
        Token::QuestionEq => {
            *pos = p + 1;
            let v = parse_bracket_string(toks, pos);
            let r1 = *pos;
            if r1 < toks.len() {
                match &toks[r1] {
                    Token::Arrow => {
                        *pos = r1 + 1;
                        let dest = parse_bracket_string(toks, pos);
                        job.push_mapping(v, dest);
                        return true;
                    },
                    _ => {},
                }
            }
            job.push_param(String::new(), v);
            true
        },
        Token::LBracket => {
            let v = parse_bracket_string(toks, pos);
            job.push_item(v);
            true
        },
        Token::RBrace => false,
        Token::And => false,
        Token::Identifier(k) => {
            if str_eq(k.as_str(), "vibi.tool") {
                return false;
            }
            *pos = p + 1;
            if p + 1 < toks.len() {
                match &toks[p + 1] {
                    Token::Colon => {
                        *pos = p + 2;
                        let v = parse_string(toks, pos);
                        job.push_content(k.clone(), v);
                        return true;
                    },
                    _ => {},
                }
            }
            false
        },
        Token::String(_) => {
            let item = parse_string(toks, pos);
            let r1 = *pos;
            if r1 < toks.len() {
                match &toks[r1] {
                    Token::Arrow => {
                        *pos = r1 + 1;
                        let dest = parse_bracket_string(toks, pos);
                        job.push_mapping(item, dest);
                        return true;
                    },
                    Token::Pipe => {
                        *pos = r1 + 1;
                        return read_item_with_param(toks, pos, job, item);
                    },
                    _ => {},
                }
            }
            job.push_item(item);
            true
        },
        _ => false,
    }
}

proof fn lemma_take_string_bounds(t: Seq<TokenModel>, p: int)
    requires
        0 <= p <= t.len(),
    ensures
        p <= take_string(t, p).1 <= t.len(),
        p < t.len() ==> p < take_string(t, p).1,
{
}

proof fn lemma_take_bracket_string_bounds(t: Seq<TokenModel>, p: int)
    requires
        0 <= p <= t.len(),
    ensures
        p <= take_bracket_string(t, p).1 <= t.len(),
        p < t.len() ==> p < take_bracket_string(t, p).1,
{
    if p < t.len() {
        lemma_take_string_bounds(t, p + 1);
    }
}

proof fn lemma_word_key_bounds(t: Seq<TokenModel>, q: int)
    requires
        0 <= q <= t.len(),
    ensures
        q <= word_key(t, q).1 <= t.len(),
        peek_at(t, q) matches Some(TokenModel::Ident(_)) ==> q < word_key(t, q).1,
{
}

proof fn lemma_key_value_bounds(t: Seq<TokenModel>, q: int, loose: bool)
    requires
        0 <= q <= t.len(),
    ensures
        key_value(t, q, loose) matches Some(v) ==> q < v.1 <= t.len(),
{
    if q < t.len() {
        lemma_take_bracket_string_bounds(t, q);
        lemma_take_bracket_string_bounds(t, q + 1);
    }
}

proof fn lemma_item_with_param_progress(t: Seq<TokenModel>, q: int, j: JobModel, it: Seq<char>)
    requires
        0 <= q <= t.len(),
    ensures
        q <= item_with_param(t, q, j, it).1 <= t.len(),
{
    lemma_word_key_bounds(t, q);
    let k = word_key(t, q);
    lemma_key_value_bounds(t, k.1, true);
}

/// A round that goes on always makes progress.
proof fn lemma_job_body_step_progress(t: Seq<TokenModel>, p: int, j: JobModel)
    requires
        0 <= p <= t.len(),
    ensures
        job_body_step(t, p, j).1 <= t.len(),
        job_body_step(t, p, j).2 ==> p < job_body_step(t, p, j).1,
{
    if p < t.len() {
        lemma_take_string_bounds(t, p);
        lemma_take_bracket_string_bounds(t, p);
        lemma_take_bracket_string_bounds(t, p + 1);
        let r = take_string(t, p);
        lemma_take_bracket_string_bounds(t, r.1);
        if r.1 < t.len() {
            lemma_take_bracket_string_bounds(t, r.1 + 1);
            lemma_item_with_param_progress(t, r.1 + 1, j, r.0);
        }
        let b = take_bracket_string(t, p + 1);
        if b.1 < t.len() {
            lemma_take_bracket_string_bounds(t, b.1 + 1);
        }
        if p + 1 < t.len() {
            let q = p + 1;
            lemma_word_key_bounds(t, q);
            lemma_key_value_bounds(t, word_key(t, q).1, true);
            lemma_take_string_bounds(t, q);
            let r2 = take_string(t, q);
            if r2.1 < t.len() {
                lemma_take_bracket_string_bounds(t, r2.1 + 1);
            }
            lemma_take_bracket_string_bounds(t, q);
            lemma_key_value_bounds(t, take_bracket_string(t, q).1, false);
        }
    }
}

fn skip_action(toks: &Vec<Token>, pos: &mut usize)
    requires
        *old(pos) <= toks@.len(),
    ensures
        *final(pos) as int == action_end(token_models(toks@), *old(pos) as int),
        *final(pos) <= toks@.len(),
        *old(pos) <= *final(pos),
{
    let ghost t = token_models(toks@);
    while *pos < toks.len()
        invariant
            *pos <= toks@.len(),
            t == token_models(toks@),
            action_end(t, *old(pos) as int) == action_end(t, *pos as int),
            *old(pos) <= *pos,
        decreases toks@.len() - *pos,
    {
        match &toks[*pos] {
            Token::Identifier(_) | Token::Dot | Token::LParen => {
                *pos = *pos + 1;
            },
            Token::RParen => {
                *pos = *pos + 1;
                return ;
            },
            _ => {
                return ;
            },
        }
    }
}

/// Reads one job at the cursor (see `read_job`).
fn parse_job(toks: &Vec<Token>, pos: &mut usize) -> (r: Option<Job>)
    requires
        *old(pos) <= toks@.len(),
    ensures
        ({
            let m = read_job(token_models(toks@), *old(pos) as int);
            &&& *final(pos) as int == m.1
            &&& (match r {
                Some(j) => m.0 == Some(j.model()),
                None => m.0 is None,
            })
        }),
        *final(pos) <= toks@.len(),
        *old(pos) <= *final(pos),
{
    let ghost t = token_models(toks@);
    if expect_identifier(toks, pos, "vibi.tool").is_err() {
        return None;
    }
    let _ = expect_token(toks, pos, &Token::LBracket, "");
    let tool_name = parse_string(toks, pos);
    let _ = expect_token(toks, pos, &Token::RBracket, "");
    let mut job = Job {
        tool_name,
        params: Vec::new(),
        items: Vec::new(),
        mappings: Vec::new(),
        content_blocks: Vec::new(),
    };
    assert(job.model() =~= empty_job(job.tool_name@));
    let ghost start = *pos as int;
    let ghost start_job = job.model();
    loop
        invariant_except_break
            *pos <= toks@.len(),
            start <= *pos,
            t == token_models(toks@),
            job_body(t, start, start_job) == job_body(t, *pos as int, job.model()),
        ensures
            *pos <= toks@.len(),
            start <= *pos,
            job_body(t, start, start_job) == (job.model(), *pos as int),
        decreases toks@.len() - *pos,
    {
        let ghost p = *pos as int;
        let ghost j = job.model();
        proof {
            lemma_job_body_step_progress(t, p, j);
        }
        let cont = job_body_round(toks, pos, &mut job);
        if !cont {
            break;
        }
    }
    skip_action(toks, pos);
    Some(job)
}

/// Reads the jobs chained with `&&` at the cursor.
fn parse_and_chain(toks: &Vec<Token>, pos: &mut usize, jobs: &mut Vec<Job>)
    requires
        *old(pos) <= toks@.len(),
    ensures
        ({
            let m = and_chain(token_models(toks@), *old(pos) as int, job_models(old(jobs)@));
            &&& *final(pos) as int == m.1
            &&& job_models(final(jobs)@) == m.0
        }),
        *final(pos) <= toks@.len(),
        *old(pos) <= *final(pos),
{
    let ghost t = token_models(toks@);
    let ghost start = *pos as int;
    let ghost start_jobs = job_models(jobs@);
    loop
        invariant_except_break
            *pos <= toks@.len(),
            start <= *pos,
            t == token_models(toks@),
            and_chain(t, start, start_jobs) == and_chain(t, *pos as int, job_models(jobs@)),
        ensures
            *pos <= toks@.len(),
            start <= *pos,
            and_chain(t, start, start_jobs) == (job_models(jobs@), *pos as int),
        decreases toks@.len() - *pos,
    {
        let p = *pos;
        if p >= toks.len() {
            break;
        }
        match &toks[p] {
            Token::And => {},
            _ => {
                break;
            },
        }
        *pos = p + 1;
        let ghost before = job_models(jobs@);
        let r = parse_job(toks, pos);
        if let Some(j) = r {
            jobs.push(j);
        }
        assert(job_models(jobs@) =~= before + opt_job(read_job(t, p + 1).0));
    }
}

spec fn job_models(js: Seq<Job>) -> Seq<JobModel> {
    js.map_values(|j: Job| j.model())
}

/// Reads the job blocks at the cursor (see `job_blocks`).
#[verifier::spinoff_prover]
#[verifier::rlimit(40)]
fn parse_jobs(toks: &Vec<Token>, pos: &mut usize) -> (jobs: Vec<Job>)
    requires
        *old(pos) <= toks@.len(),
    ensures
        ({
            let m = job_blocks(token_models(toks@), *old(pos) as int, Seq::empty());
            &&& *final(pos) as int == m.1
            &&& job_models(jobs@) == m.0
        }),
        *final(pos) <= toks@.len(),
        *old(pos) <= *final(pos),
{
    let ghost t = token_models(toks@);
    let ghost start = *pos as int;
    let mut jobs: Vec<Job> = Vec::new();
    assert(job_models(jobs@) =~= Seq::<JobModel>::empty());
    loop
        invariant_except_break
            *pos <= toks@.len(),
            start <= *pos,
            t == token_models(toks@),
            job_blocks(t, start, Seq::empty()) == job_blocks(t, *pos as int, job_models(jobs@)),
        ensures
            *pos <= toks@.len(),
            start <= *pos,
            job_blocks(t, start, Seq::empty()) == (job_models(jobs@), *pos as int),
        decreases toks@.len() - *pos,
    {
        let p = *pos;
        if p >= toks.len() {
            break;
        }
        match &toks[p] {
            Token::LBrace => {},
            _ => {
                break;
            },
        }
        *pos = p + 1;
        let q = p + 1;
        let is_tool = if q < toks.len() {
            match &toks[q] {
                Token::Identifier(s) => str_eq(s.as_str(), "vibi.tool"),
                _ => false,
            }
        } else {
            false
        };
        if !is_tool {
            break;
        }
        let ghost before = job_models(jobs@);
        let r = parse_job(toks, pos);
        if let Some(j) = r {
            jobs.push(j);
        }
        assert(job_models(jobs@) =~= before + opt_job(read_job(t, q as int).0));
        parse_and_chain(toks, pos, &mut jobs);
        let _ = expect_token(toks, pos, &Token::RBrace, "Expected '}'");
    }
    jobs
}

// ---------------------------------------------------------------------
// From jobs to requests.
// ---------------------------------------------------------------------

/// The value of the first pair whose key is `key`.
pub open spec fn find_value(pairs: Seq<(Seq<char>, Seq<char>)>, key: Seq<char>) -> Option<Seq<char>>
    decreases pairs.len(),
{
    if pairs.len() == 0 {
        None
    } else if pairs[0].0 == key {
        Some(pairs[0].1)
    } else {
        find_value(pairs.drop_first(), key)
    }
}

/// `s` without the `/` characters at its end.
pub open spec fn trim_end_slashes(s: Seq<char>) -> Seq<char>
    decreases s.len(),
{
    if s.len() > 0 && s.last() == '/' {
        trim_end_slashes(s.drop_last())
    } else {
        s
    }
}

/// `name` placed under the directory `base`, when there is a non-empty one.
pub open spec fn resolve_path_spec(name: Seq<char>, base: Option<Seq<char>>) -> Seq<char> {
    match base {
        Some(p) => if p.len() > 0 {
            trim_end_slashes(p) + seq!['/'] + name
        } else {
            name
        },
        None => name,
    }
}

pub open spec fn first_item(j: JobModel) -> Option<Seq<char>> {
    if j.items.len() > 0 {
        Some(j.items[0])
    } else {
        None
    }
}

/// The first item, else the first unnamed parameter, else the empty text.
pub open spec fn item_or_unnamed(j: JobModel) -> Seq<char> {
    match first_item(j) {
        Some(v) => v,
        None => match find_value(j.params, Seq::empty()) {
            Some(v) => v,
            None => Seq::empty(),
        },
    }
}

pub open spec fn req(kind: CommandKind, path: Option<Seq<char>>, content: Option<Seq<char>>) -> Request {
    Request { kind, path, content }
}

/// One request per item: a path under `base`.
pub open spec fn item_paths(items: Seq<Seq<char>>, kind: CommandKind, base: Option<Seq<char>>) -> Seq<Request> {
    items.map_values(|it: Seq<char>| req(kind, Some(resolve_path_spec(it, base)), None))
}

/// One request per item: the item itself as the path.
pub open spec fn item_raw_paths(items: Seq<Seq<char>>, kind: CommandKind) -> Seq<Request> {
    items.map_values(|it: Seq<char>| req(kind, Some(it), None))
}

/// One request per item: the item as the content, `path` as the path.
pub open spec fn item_contents(items: Seq<Seq<char>>, kind: CommandKind, path: Option<Seq<char>>) -> Seq<Request> {
    items.map_values(|it: Seq<char>| req(kind, path, Some(it)))
}

/// One request per mapping `old => new`: `old` under `base`, `new` as content.
pub open spec fn mapping_requests(maps: Seq<(Seq<char>, Seq<char>)>, kind: CommandKind, base: Option<Seq<char>>) -> Seq<Request> {
    maps.map_values(|m: (Seq<char>, Seq<char>)| req(kind, Some(resolve_path_spec(m.0, base)), Some(m.1)))
}

pub open spec fn edit_requests(j: JobModel, path: Option<Seq<char>>) -> Seq<Request> {
    let full = resolve_path_spec(item_or_unnamed(j), path);
    match find_value(j.content_blocks, "full.file.content"@) {
        Some(c) => seq![req(CommandKind::EditFile, Some(full), Some(c))],
        None => match (
            find_value(j.content_blocks, "search.file.content"@),
            find_value(j.content_blocks, "replace.file.content"@),
        ) {
            (Some(s), Some(r)) => seq![req(CommandKind::EditFile, Some(full), Some("SEARCH:"@ + s + "|REPLACE:"@ + r))],
            _ => Seq::empty(),
        },
    }
}

/// The value of the first parameter named `git token` or `git.token`.
pub open spec fn find_token(pairs: Seq<(Seq<char>, Seq<char>)>) -> Option<Seq<char>>
    decreases pairs.len(),
{
    if pairs.len() == 0 {
        None
    } else if pairs[0].0 == "git token"@ || pairs[0].0 == "git.token"@ {
        Some(pairs[0].1)
    } else {
        find_token(pairs.drop_first())
    }
}

pub open spec fn unwrap_or_empty(o: Option<Seq<char>>) -> Seq<char> {
    match o {
        Some(v) => v,
        None => Seq::empty(),
    }
}

pub open spec fn directory_requests(j: JobModel, path: Option<Seq<char>>) -> Seq<Request> {
    let dir_path = match path {
        Some(p) => Some(p),
        None => find_value(j.params, Seq::empty()),
    };
    let first = match dir_path {
        Some(p) => seq![req(CommandKind::CreateFolder, Some(p), None)],
        None => Seq::empty(),
    };
    first + item_raw_paths(j.items, CommandKind::CreateFolder)
}

/// `a`, or `b` when `a` is none.
pub open spec fn or_else(a: Option<Seq<char>>, b: Option<Seq<char>>) -> Option<Seq<char>> {
    match a {
        Some(v) => Some(v),
        None => b,
    }
}

/// The folder named by the `path` parameter, else by the first unnamed one.
pub open spec fn base_folder(j: JobModel) -> Option<Seq<char>> {
    or_else(find_value(j.params, "path"@), find_value(j.params, Seq::empty()))
}

/// The folder a renamed folder had: the first item, else the source of
/// the first mapping, else the empty text.
pub open spec fn old_folder(j: JobModel) -> Seq<char> {
    match first_item(j) {
        Some(v) => v,
        None => if j.mappings.len() > 0 {
            j.mappings[0].0
        } else {
            Seq::empty()
        },
    }
}

/// The folders to open: the items, or else the first unnamed parameter.
pub open spec fn folders_to_open(j: JobModel) -> Seq<Request> {
    if j.items.len() > 0 {
        item_raw_paths(j.items, CommandKind::OpenFolder)
    } else {
        match find_value(j.params, Seq::empty()) {
            Some(v) => seq![req(CommandKind::OpenFolder, Some(v), None)],
            None => Seq::empty(),
        }
    }
}

/// The tools a job can name.
pub open spec fn known_tool(t: Seq<char>) -> bool {
    t == "create.file"@ || t == "edit.file"@ || t == "delete.file"@ || t == "run.command"@ || t
        == "rename.file"@ || t == "rename.folder"@ || t == "create.directory"@ || t
        == "download.repository"@ || t == "download.private.repository"@ || t == "open.folder"@ || t
        == "open.app"@ || t == "move.file"@ || t == "copy.file"@ || t == "read.file"@ || t
        == "path.tree"@
}

/// The requests that one job stands for.
pub open spec fn job_requests(j: JobModel) -> Seq<Request> {
    let path = find_value(j.params, "path"@);
    let t = j.tool_name;
    if t == "create.file"@ {
        item_paths(j.items, CommandKind::CreateFile, path)
    } else if t == "edit.file"@ {
        edit_requests(j, path)
    } else if t == "delete.file"@ {
        item_paths(j.items, CommandKind::DeleteFile, path)
    } else if t == "run.command"@ {
        item_contents(j.items, CommandKind::RunShell, or_else(path, find_value(j.params, "dir"@)))
    } else if t == "rename.file"@ {
        mapping_requests(j.mappings, CommandKind::RenameFile, base_folder(j))
    } else if t == "rename.folder"@ {
        let new_dir = if j.mappings.len() > 0 {
            j.mappings[0].1
        } else {
            Seq::empty()
        };
        seq![req(CommandKind::RenameFolder, Some(old_folder(j)), Some(new_dir))]
    } else if t == "create.directory"@ {
        directory_requests(j, path)
    } else if t == "download.repository"@ {
        seq![req(CommandKind::DownloadRepo, path, Some(item_or_unnamed(j)))]
    } else if t == "download.private.repository"@ {
        seq![req(CommandKind::DownloadPrivateRepo, path, Some(item_or_unnamed(j) + "|TOKEN:"@ + unwrap_or_empty(find_token(j.params))))]
    } else if t == "open.folder"@ {
        folders_to_open(j)
    } else if t == "open.app"@ {
        item_contents(j.items, CommandKind::OpenApp, None)
    } else if t == "move.file"@ {
        mapping_requests(j.mappings, CommandKind::MoveFile, base_folder(j))
    } else if t == "copy.file"@ {
        mapping_requests(j.mappings, CommandKind::CopyFile, base_folder(j))
    } else if t == "read.file"@ {
        item_paths(j.items, CommandKind::ReadFile, path)
    } else if t == "path.tree"@ {
        seq![req(CommandKind::PathTree, base_folder(j), find_value(j.params, "exclude.folders"@))]
    } else {
        Seq::empty()
    }
}

/// The requests of a list of jobs, job after job.
pub open spec fn jobs_requests(js: Seq<JobModel>) -> Seq<Request>
    decreases js.len(),
{
    if js.len() == 0 {
        Seq::empty()
    } else {
        jobs_requests(js.drop_last()) + job_requests(js.last())
    }
}

/// A job naming no known tool stands for no request.
pub proof fn law_unknown_tool_gives_nothing(j: JobModel)
    requires
        !known_tool(j.tool_name),
    ensures
        job_requests(j) == Seq::<Request>::empty(),
{
}

/// The requests of two lists of jobs one after the other are the
/// requests of the first list followed by those of the second.
pub proof fn law_jobs_requests_concatenate(a: Seq<JobModel>, b: Seq<JobModel>)
    ensures
        jobs_requests(a + b) == jobs_requests(a) + jobs_requests(b),
    decreases b.len(),
{
    if b.len() == 0 {
        assert(a + b =~= a);
        assert(jobs_requests(a) + Seq::<Request>::empty() =~= jobs_requests(a));
    } else {
        law_jobs_requests_concatenate(a, b.drop_last());
        assert((a + b).drop_last() =~= a + b.drop_last());
        assert((a + b).last() == b.last());
        assert(jobs_requests(a) + jobs_requests(b.drop_last()) + job_requests(b.last()) =~= jobs_requests(a)
            + (jobs_requests(b.drop_last()) + job_requests(b.last())));
    }
}

/// Commands made for two lists of jobs one after the other split in two:
/// the first ones stand for the jobs of the first list, as if it had been
/// compiled alone, and the rest for the jobs of the second.
pub proof fn law_jobs_commands_concatenate(a: Seq<JobModel>, b: Seq<JobModel>, cmds: Seq<Command>)
    requires
        all_fresh_for(cmds, jobs_requests(a + b)),
    ensures
        all_fresh_for(cmds.take(jobs_requests(a).len() as int), jobs_requests(a)),
        all_fresh_for(cmds.skip(jobs_requests(a).len() as int), jobs_requests(b)),
{
    law_jobs_requests_concatenate(a, b);
    let ra = jobs_requests(a);
    let rb = jobs_requests(b);
    let n = ra.len() as int;
    assert forall|i: int| 0 <= i < cmds.take(n).len() implies (#[trigger] cmds.take(n)[i])@.is_fresh_for(ra[i]) by {
        assert(cmds.take(n)[i] == cmds[i]);
        assert((ra + rb)[i] == ra[i]);
    }
    assert forall|i: int| 0 <= i < cmds.skip(n).len() implies (#[trigger] cmds.skip(n)[i])@.is_fresh_for(rb[i]) by {
        assert(cmds.skip(n)[i] == cmds[n + i]);
        assert((ra + rb)[n + i] == rb[i]);
    }
}

/// `name` is the last part of `p`.
pub open spec fn ends_with(p: Seq<char>, name: Seq<char>) -> bool {
    name.len() <= p.len() && p.skip(p.len() - name.len()) == name
}

proof fn lemma_resolved_ends_with(name: Seq<char>, base: Option<Seq<char>>)
    ensures
        ends_with(resolve_path_spec(name, base), name),
{
    let r = resolve_path_spec(name, base);
    match base {
        Some(p) => if p.len() > 0 {
            let pre = trim_end_slashes(p) + seq!['/'];
            assert(r.skip(r.len() - name.len()) =~= name);
        } else {
            assert(r.skip(0) =~= r);
        },
        None => {
            assert(r.skip(0) =~= r);
        },
    }
}

/// The tool names are distinct texts.
proof fn lemma_tool_names_differ()
    ensures
        "create.file"@ != "edit.file"@,
        "create.file"@ != "delete.file"@,
        "create.file"@ != "run.command"@,
        "create.file"@ != "rename.file"@,
        "create.file"@ != "rename.folder"@,
        "create.file"@ != "create.directory"@,
        "create.file"@ != "download.repository"@,
        "create.file"@ != "download.private.repository"@,
        "create.file"@ != "open.folder"@,
        "create.file"@ != "open.app"@,
        "create.file"@ != "move.file"@,
        "create.file"@ != "copy.file"@,
        "create.file"@ != "read.file"@,
        "create.file"@ != "path.tree"@,
        "edit.file"@ != "delete.file"@,
        "edit.file"@ != "run.command"@,
        "edit.file"@ != "rename.file"@,
        "edit.file"@ != "rename.folder"@,
        "edit.file"@ != "create.directory"@,
        "edit.file"@ != "download.repository"@,
        "edit.file"@ != "download.private.repository"@,
        "edit.file"@ != "open.folder"@,
        "edit.file"@ != "open.app"@,
        "edit.file"@ != "move.file"@,
        "edit.file"@ != "copy.file"@,
        "edit.file"@ != "read.file"@,
        "edit.file"@ != "path.tree"@,
        "delete.file"@ != "run.command"@,
        "delete.file"@ != "rename.file"@,
        "delete.file"@ != "rename.folder"@,
        "delete.file"@ != "create.directory"@,
        "delete.file"@ != "download.repository"@,
        "delete.file"@ != "download.private.repository"@,
        "delete.file"@ != "open.folder"@,
        "delete.file"@ != "open.app"@,
        "delete.file"@ != "move.file"@,
        "delete.file"@ != "copy.file"@,
        "delete.file"@ != "read.file"@,
        "delete.file"@ != "path.tree"@,
        "run.command"@ != "rename.file"@,
        "run.command"@ != "rename.folder"@,
        "run.command"@ != "create.directory"@,
        "run.command"@ != "download.repository"@,
        "run.command"@ != "download.private.repository"@,
        "run.command"@ != "open.folder"@,
        "run.command"@ != "open.app"@,
        "run.command"@ != "move.file"@,
        "run.command"@ != "copy.file"@,
        "run.command"@ != "read.file"@,
        "run.command"@ != "path.tree"@,
        "rename.file"@ != "rename.folder"@,
        "rename.file"@ != "create.directory"@,
        "rename.file"@ != "download.repository"@,
        "rename.file"@ != "download.private.repository"@,
        "rename.file"@ != "open.folder"@,
        "rename.file"@ != "open.app"@,
        "rename.file"@ != "move.file"@,
        "rename.file"@ != "copy.file"@,
        "rename.file"@ != "read.file"@,
        "rename.file"@ != "path.tree"@,
        "rename.folder"@ != "create.directory"@,
        "rename.folder"@ != "download.repository"@,
        "rename.folder"@ != "download.private.repository"@,
        "rename.folder"@ != "open.folder"@,
        "rename.folder"@ != "open.app"@,
        "rename.folder"@ != "move.file"@,
        "rename.folder"@ != "copy.file"@,
        "rename.folder"@ != "read.file"@,
        "rename.folder"@ != "path.tree"@,
        "create.directory"@ != "download.repository"@,
        "create.directory"@ != "download.private.repository"@,
        "create.directory"@ != "open.folder"@,
        "create.directory"@ != "open.app"@,
        "create.directory"@ != "move.file"@,
        "create.directory"@ != "copy.file"@,
        "create.directory"@ != "read.file"@,
        "create.directory"@ != "path.tree"@,
        "download.repository"@ != "download.private.repository"@,
        "download.repository"@ != "open.folder"@,
        "download.repository"@ != "open.app"@,
        "download.repository"@ != "move.file"@,
        "download.repository"@ != "copy.file"@,
        "download.repository"@ != "read.file"@,
        "download.repository"@ != "path.tree"@,
        "download.private.repository"@ != "open.folder"@,
        "download.private.repository"@ != "open.app"@,
        "download.private.repository"@ != "move.file"@,
        "download.private.repository"@ != "copy.file"@,
        "download.private.repository"@ != "read.file"@,
        "download.private.repository"@ != "path.tree"@,
        "open.folder"@ != "open.app"@,
        "open.folder"@ != "move.file"@,
        "open.folder"@ != "copy.file"@,
        "open.folder"@ != "read.file"@,
        "open.folder"@ != "path.tree"@,
        "open.app"@ != "move.file"@,
        "open.app"@ != "copy.file"@,
        "open.app"@ != "read.file"@,
        "open.app"@ != "path.tree"@,
        "move.file"@ != "copy.file"@,
        "move.file"@ != "read.file"@,
        "move.file"@ != "path.tree"@,
        "copy.file"@ != "read.file"@,
        "copy.file"@ != "path.tree"@,
        "read.file"@ != "path.tree"@,
{
    reveal_strlit("create.file");
    reveal_strlit("edit.file");
    reveal_strlit("delete.file");
    reveal_strlit("run.command");
    reveal_strlit("rename.file");
    reveal_strlit("rename.folder");
    reveal_strlit("create.directory");
    reveal_strlit("download.repository");
    reveal_strlit("download.private.repository");
    reveal_strlit("open.folder");
    reveal_strlit("open.app");
    reveal_strlit("move.file");
    reveal_strlit("copy.file");
    reveal_strlit("read.file");
    reveal_strlit("path.tree");
    assert("create.file"@.len() != "edit.file"@.len());
    assert("create.file"@[0] != "delete.file"@[0]);
    assert("create.file"@[0] != "run.command"@[0]);
    assert("create.file"@[0] != "rename.file"@[0]);
    assert("create.file"@.len() != "rename.folder"@.len());
    assert("create.file"@.len() != "create.directory"@.len());
    assert("create.file"@.len() != "download.repository"@.len());
    assert("create.file"@.len() != "download.private.repository"@.len());
    assert("create.file"@[0] != "open.folder"@[0]);
    assert("create.file"@.len() != "open.app"@.len());
    assert("create.file"@.len() != "move.file"@.len());
    assert("create.file"@.len() != "copy.file"@.len());
    assert("create.file"@.len() != "read.file"@.len());
    assert("create.file"@.len() != "path.tree"@.len());
    assert("edit.file"@.len() != "delete.file"@.len());
    assert("edit.file"@.len() != "run.command"@.len());
    assert("edit.file"@.len() != "rename.file"@.len());
    assert("edit.file"@.len() != "rename.folder"@.len());
    assert("edit.file"@.len() != "create.directory"@.len());
    assert("edit.file"@.len() != "download.repository"@.len());
    assert("edit.file"@.len() != "download.private.repository"@.len());
    assert("edit.file"@.len() != "open.folder"@.len());
    assert("edit.file"@.len() != "open.app"@.len());
    assert("edit.file"@[0] != "move.file"@[0]);
    assert("edit.file"@[0] != "copy.file"@[0]);
    assert("edit.file"@[0] != "read.file"@[0]);
    assert("edit.file"@[0] != "path.tree"@[0]);
    assert("delete.file"@[0] != "run.command"@[0]);
    assert("delete.file"@[0] != "rename.file"@[0]);
    assert("delete.file"@.len() != "rename.folder"@.len());
    assert("delete.file"@.len() != "create.directory"@.len());
    assert("delete.file"@.len() != "download.repository"@.len());
    assert("delete.file"@.len() != "download.private.repository"@.len());
    assert("delete.file"@[0] != "open.folder"@[0]);
    assert("delete.file"@.len() != "open.app"@.len());
    assert("delete.file"@.len() != "move.file"@.len());
    assert("delete.file"@.len() != "copy.file"@.len());
    assert("delete.file"@.len() != "read.file"@.len());
    assert("delete.file"@.len() != "path.tree"@.len());
    assert("run.command"@[1] != "rename.file"@[1]);
    assert("run.command"@.len() != "rename.folder"@.len());
    assert("run.command"@.len() != "create.directory"@.len());
    assert("run.command"@.len() != "download.repository"@.len());
    assert("run.command"@.len() != "download.private.repository"@.len());
    assert("run.command"@[0] != "open.folder"@[0]);
    assert("run.command"@.len() != "open.app"@.len());
    assert("run.command"@.len() != "move.file"@.len());
    assert("run.command"@.len() != "copy.file"@.len());
    assert("run.command"@.len() != "read.file"@.len());
    assert("run.command"@.len() != "path.tree"@.len());
    assert("rename.file"@.len() != "rename.folder"@.len());
    assert("rename.file"@.len() != "create.directory"@.len());
    assert("rename.file"@.len() != "download.repository"@.len());
    assert("rename.file"@.len() != "download.private.repository"@.len());
    assert("rename.file"@[0] != "open.folder"@[0]);
    assert("rename.file"@.len() != "open.app"@.len());
    assert("rename.file"@.len() != "move.file"@.len());
    assert("rename.file"@.len() != "copy.file"@.len());
    assert("rename.file"@.len() != "read.file"@.len());
    assert("rename.file"@.len() != "path.tree"@.len());
    assert("rename.folder"@.len() != "create.directory"@.len());
    assert("rename.folder"@.len() != "download.repository"@.len());
    assert("rename.folder"@.len() != "download.private.repository"@.len());
    assert("rename.folder"@.len() != "open.folder"@.len());
    assert("rename.folder"@.len() != "open.app"@.len());
    assert("rename.folder"@.len() != "move.file"@.len());
    assert("rename.folder"@.len() != "copy.file"@.len());
    assert("rename.folder"@.len() != "read.file"@.len());
    assert("rename.folder"@.len() != "path.tree"@.len());
    assert("create.directory"@.len() != "download.repository"@.len());
    assert("create.directory"@.len() != "download.private.repository"@.len());
    assert("create.directory"@.len() != "open.folder"@.len());
    assert("create.directory"@.len() != "open.app"@.len());
    assert("create.directory"@.len() != "move.file"@.len());
    assert("create.directory"@.len() != "copy.file"@.len());
    assert("create.directory"@.len() != "read.file"@.len());
    assert("create.directory"@.len() != "path.tree"@.len());
    assert("download.repository"@.len() != "download.private.repository"@.len());
    assert("download.repository"@.len() != "open.folder"@.len());
    assert("download.repository"@.len() != "open.app"@.len());
    assert("download.repository"@.len() != "move.file"@.len());
    assert("download.repository"@.len() != "copy.file"@.len());
    assert("download.repository"@.len() != "read.file"@.len());
    assert("download.repository"@.len() != "path.tree"@.len());
    assert("download.private.repository"@.len() != "open.folder"@.len());
    assert("download.private.repository"@.len() != "open.app"@.len());
    assert("download.private.repository"@.len() != "move.file"@.len());
    assert("download.private.repository"@.len() != "copy.file"@.len());
    assert("download.private.repository"@.len() != "read.file"@.len());
    assert("download.private.repository"@.len() != "path.tree"@.len());
    assert("open.folder"@.len() != "open.app"@.len());
    assert("open.folder"@.len() != "move.file"@.len());
    assert("open.folder"@.len() != "copy.file"@.len());
    assert("open.folder"@.len() != "read.file"@.len());
    assert("open.folder"@.len() != "path.tree"@.len());
    assert("open.app"@.len() != "move.file"@.len());
    assert("open.app"@.len() != "copy.file"@.len());
    assert("open.app"@.len() != "read.file"@.len());
    assert("open.app"@.len() != "path.tree"@.len());
    assert("move.file"@[0] != "copy.file"@[0]);
    assert("move.file"@[0] != "read.file"@[0]);
    assert("move.file"@[0] != "path.tree"@[0]);
    assert("copy.file"@[0] != "read.file"@[0]);
    assert("copy.file"@[0] != "path.tree"@[0]);
    assert("read.file"@[0] != "path.tree"@[0]);
}

/// Each tool asks for commands of its own kind only: a copy is never a
/// move, a deletion never a creation, and so on for every tool.
pub proof fn law_tool_kinds(j: JobModel, k: int)
    requires
        0 <= k < job_requests(j).len(),
    ensures
        j.tool_name == "create.file"@ ==> job_requests(j)[k].kind == CommandKind::CreateFile,
        j.tool_name == "edit.file"@ ==> job_requests(j)[k].kind == CommandKind::EditFile,
        j.tool_name == "delete.file"@ ==> job_requests(j)[k].kind == CommandKind::DeleteFile,
        j.tool_name == "run.command"@ ==> job_requests(j)[k].kind == CommandKind::RunShell,
        j.tool_name == "rename.file"@ ==> job_requests(j)[k].kind == CommandKind::RenameFile,
        j.tool_name == "rename.folder"@ ==> job_requests(j)[k].kind == CommandKind::RenameFolder,
        j.tool_name == "create.directory"@ ==> job_requests(j)[k].kind == CommandKind::CreateFolder,
        j.tool_name == "download.repository"@ ==> job_requests(j)[k].kind == CommandKind::DownloadRepo,
        j.tool_name == "download.private.repository"@ ==> job_requests(j)[k].kind == CommandKind::DownloadPrivateRepo,
        j.tool_name == "open.folder"@ ==> job_requests(j)[k].kind == CommandKind::OpenFolder,
        j.tool_name == "open.app"@ ==> job_requests(j)[k].kind == CommandKind::OpenApp,
        j.tool_name == "move.file"@ ==> job_requests(j)[k].kind == CommandKind::MoveFile,
        j.tool_name == "copy.file"@ ==> job_requests(j)[k].kind == CommandKind::CopyFile,
        j.tool_name == "read.file"@ ==> job_requests(j)[k].kind == CommandKind::ReadFile,
        j.tool_name == "path.tree"@ ==> job_requests(j)[k].kind == CommandKind::PathTree,
{
    lemma_tool_names_differ();
}

/// A copy, move or file rename asks for one command per mapping
/// `old => new`, in order: the source ends with `old` (it is `old` under
/// the job's base folder) and the destination is `new`.
pub proof fn law_mapping_tools(j: JobModel)
    requires
        j.tool_name == "copy.file"@ || j.tool_name == "move.file"@ || j.tool_name == "rename.file"@,
    ensures
        job_requests(j).len() == j.mappings.len(),
        forall|k: int|
            0 <= k < j.mappings.len() ==> {
                let r = #[trigger] job_requests(j)[k];
                &&& r.content == Some(j.mappings[k].1)
                &&& r.path matches Some(p) && ends_with(p, j.mappings[k].0)
            },
{
    lemma_tool_names_differ();
    assert forall|k: int| 0 <= k < j.mappings.len() implies ({
        let r = #[trigger] job_requests(j)[k];
        &&& r.content == Some(j.mappings[k].1)
        &&& r.path matches Some(p) && ends_with(p, j.mappings[k].0)
    }) by {
        lemma_resolved_ends_with(j.mappings[k].0, base_folder(j));
    }
}

/// Creating, deleting or reading files asks for one command per listed
/// file, in order, whose path ends with that file's name and which
/// carries no content.
pub proof fn law_file_item_tools(j: JobModel)
    requires
        j.tool_name == "create.file"@ || j.tool_name == "delete.file"@ || j.tool_name == "read.file"@,
    ensures
        job_requests(j).len() == j.items.len(),
        forall|k: int|
            0 <= k < j.items.len() ==> {
                let r = #[trigger] job_requests(j)[k];
                &&& r.content is None
                &&& r.path matches Some(p) && ends_with(p, j.items[k])
            },
{
    lemma_tool_names_differ();
    assert forall|k: int| 0 <= k < j.items.len() implies ({
        let r = #[trigger] job_requests(j)[k];
        &&& r.content is None
        &&& r.path matches Some(p) && ends_with(p, j.items[k])
    }) by {
        lemma_resolved_ends_with(j.items[k], find_value(j.params, "path"@));
    }
}

/// Running commands or opening apps asks for one command per listed
/// item, in order, carrying that item as its content.
pub proof fn law_content_item_tools(j: JobModel)
    requires
        j.tool_name == "run.command"@ || j.tool_name == "open.app"@,
    ensures
        job_requests(j).len() == j.items.len(),
        forall|k: int| 0 <= k < j.items.len() ==> (#[trigger] job_requests(j)[k]).content == Some(j.items[k]),
{
    lemma_tool_names_differ();
}

/// What a token sequence compiles to: the requests of its jobs, or the
/// message of the first syntax error.
pub open spec fn program_requests(t: Seq<TokenModel>) -> Result<Seq<Request>, Seq<char>> {
    match parse_jobs_model(t) {
        Ok(js) => Ok(jobs_requests(js)),
        Err(e) => Err(e),
    }
}

// ---------------------------------------------------------------------
// From jobs to commands.
// ---------------------------------------------------------------------

/// The value of the first pair whose key is `key`.
fn find_param(pairs: &Vec<(String, String)>, key: &str) -> (r: Option<String>)
    ensures
        opt_str(r) == find_value(pairs.deep_view(), key@),
{
    let ghost dv = pairs.deep_view();
    let mut i: usize = 0;
    assert(dv.skip(0) =~= dv);
    while i < pairs.len()
        invariant
            i <= pairs@.len(),
            dv == pairs.deep_view(),
            find_value(dv, key@) == find_value(dv.skip(i as int), key@),
        decreases pairs@.len() - i,
    {
        assert(dv.skip(i as int)[0] == dv[i as int]);
        if str_eq(pairs[i].0.as_str(), key) {
            return Some(pairs[i].1.clone());
        }
        assert(dv.skip(i as int).drop_first() =~= dv.skip(i + 1));
        i = i + 1;
    }
    None
}

/// The value of the first parameter named `git token` or `git.token`.
fn find_git_token(pairs: &Vec<(String, String)>) -> (r: Option<String>)
    ensures
        opt_str(r) == find_token(pairs.deep_view()),
{
    let ghost dv = pairs.deep_view();
    let mut i: usize = 0;
    assert(dv.skip(0) =~= dv);
    while i < pairs.len()
        invariant
            i <= pairs@.len(),
            dv == pairs.deep_view(),
            find_token(dv) == find_token(dv.skip(i as int)),
        decreases pairs@.len() - i,
    {
        assert(dv.skip(i as int)[0] == dv[i as int]);
        if str_eq(pairs[i].0.as_str(), "git token") || str_eq(pairs[i].0.as_str(), "git.token") {
            return Some(pairs[i].1.clone());
        }
        assert(dv.skip(i as int).drop_first() =~= dv.skip(i + 1));
        i = i + 1;
    }
    None
}

/// `name` placed under the directory `path` when there is a non-empty one:
/// the directory without its trailing slashes, a slash, then `name`.
fn resolve_path(name: &str, path: &Option<String>) -> (r: String)
    ensures
        r@ == resolve_path_spec(name@, opt_str(*path)),
{
    match path {
        Some(p) if !p.as_str().is_empty() => {
            let cs = crate::text::chars_of(p.as_str());
            let mut end = cs.len();
            assert(cs@.subrange(0, end as int) =~= cs@);
            while end > 0 && cs[end - 1] == '/'
                invariant
                    end <= cs@.len(),
                    trim_end_slashes(cs@) == trim_end_slashes(cs@.subrange(0, end as int)),
                decreases end,
            {
                assert(cs@.subrange(0, end as int).drop_last() =~= cs@.subrange(0, end - 1));
                end = end - 1;
            }
            let mut r = crate::text::string_of_range(&cs, 0, end);
            r.push('/');
            push_str(&mut r, name);
            proof {
                let sub = cs@.subrange(0, end as int);
                assert(trim_end_slashes(sub) == sub);
                assert(p@.len() > 0);
            }
            r
        },
        _ => {
            name.to_owned()
        },
    }
}

fn clone_opt(o: &Option<String>) -> (r: Option<String>)
    ensures
        opt_str(r) == opt_str(*o),
{
    crate::types::clone_opt_string(o)
}

fn emit(out: &mut Vec<Command>, kind: CommandKind, path: Option<String>, content: Option<String>, Ghost(prior): Ghost<Seq<Request>>)
    requires
        all_fresh_for(old(out)@, prior),
    ensures
        all_fresh_for(final(out)@, prior.push(req(kind, opt_str(path), opt_str(content)))),
{
    let ghost r = req(kind, opt_str(path), opt_str(content));
    let c = Command::new(kind, path, content);
    out.push(c);
    assert forall|i: int| 0 <= i < out@.len() implies (#[trigger] out@[i])@.is_fresh_for(
        prior.push(r)[i],
    ) by {
        if i < old(out)@.len() {
            assert(out@[i] == old(out)@[i]);
        }
    }
}

fn emit_item_paths(out: &mut Vec<Command>, items: &Vec<String>, kind: CommandKind, base: &Option<String>, Ghost(prior): Ghost<Seq<Request>>)
    requires
        all_fresh_for(old(out)@, prior),
    ensures
        all_fresh_for(final(out)@, prior + item_paths(items.deep_view(), kind, opt_str(*base))),
{
    let ghost dv = items.deep_view();
    let mut i: usize = 0;
    while i < items.len()
        invariant
            i <= items@.len(),
            dv == items.deep_view(),
            all_fresh_for(out@, prior + item_paths(dv.take(i as int), kind, opt_str(*base))),
        decreases items@.len() - i,
    {
        let ghost before = prior + item_paths(dv.take(i as int), kind, opt_str(*base));
        let p = resolve_path(items[i].as_str(), base);
        emit(out, kind, Some(p), None, Ghost(before));
        assert(before.push(req(kind, Some(p@), None)) =~= prior + item_paths(dv.take(i + 1), kind, opt_str(*base)));
        i = i + 1;
    }
    assert(dv.take(items@.len() as int) =~= dv);
}

fn emit_item_raw_paths(out: &mut Vec<Command>, items: &Vec<String>, kind: CommandKind, Ghost(prior): Ghost<Seq<Request>>)
    requires
        all_fresh_for(old(out)@, prior),
    ensures
        all_fresh_for(final(out)@, prior + item_raw_paths(items.deep_view(), kind)),
{
    let ghost dv = items.deep_view();
    let mut i: usize = 0;
    while i < items.len()
        invariant
            i <= items@.len(),
            dv == items.deep_view(),
            all_fresh_for(out@, prior + item_raw_paths(dv.take(i as int), kind)),
        decreases items@.len() - i,
    {
        let ghost before = prior + item_raw_paths(dv.take(i as int), kind);
        let p = items[i].clone();
        emit(out, kind, Some(p), None, Ghost(before));
        assert(before.push(req(kind, Some(p@), None)) =~= prior + item_raw_paths(dv.take(i + 1), kind));
        i = i + 1;
    }
    assert(dv.take(items@.len() as int) =~= dv);
}

fn emit_item_contents(out: &mut Vec<Command>, items: &Vec<String>, kind: CommandKind, path: &Option<String>, Ghost(prior): Ghost<Seq<Request>>)
    requires
        all_fresh_for(old(out)@, prior),
    ensures
        all_fresh_for(final(out)@, prior + item_contents(items.deep_view(), kind, opt_str(*path))),
{
    let ghost dv = items.deep_view();
    let mut i: usize = 0;
    while i < items.len()
        invariant
            i <= items@.len(),
            dv == items.deep_view(),
            all_fresh_for(out@, prior + item_contents(dv.take(i as int), kind, opt_str(*path))),
        decreases items@.len() - i,
    {
        let ghost before = prior + item_contents(dv.take(i as int), kind, opt_str(*path));
        let c = items[i].clone();
        let p = clone_opt(path);
        emit(out, kind, p, Some(c), Ghost(before));
        assert(before.push(req(kind, opt_str(*path), Some(c@))) =~= prior + item_contents(dv.take(i + 1), kind, opt_str(*path)));
        i = i + 1;
    }
    assert(dv.take(items@.len() as int) =~= dv);
}

fn emit_mappings(out: &mut Vec<Command>, maps: &Vec<(String, String)>, kind: CommandKind, base: &Option<String>, Ghost(prior): Ghost<Seq<Request>>)
    requires
        all_fresh_for(old(out)@, prior),
    ensures
        all_fresh_for(final(out)@, prior + mapping_requests(maps.deep_view(), kind, opt_str(*base))),
{
    let ghost dv = maps.deep_view();
    let mut i: usize = 0;
    while i < maps.len()
        invariant
            i <= maps@.len(),
            dv == maps.deep_view(),
            all_fresh_for(out@, prior + mapping_requests(dv.take(i as int), kind, opt_str(*base))),
        decreases maps@.len() - i,
    {
        let ghost before = prior + mapping_requests(dv.take(i as int), kind, opt_str(*base));
        let p = resolve_path(maps[i].0.as_str(), base);
        let c = maps[i].1.clone();
        emit(out, kind, Some(p), Some(c), Ghost(before));
        assert(before.push(req(kind, Some(p@), Some(c@))) =~= prior + mapping_requests(dv.take(i + 1), kind, opt_str(*base)));
        i = i + 1;
    }
    assert(dv.take(maps@.len() as int) =~= dv);
}

/// The first item, else the first unnamed parameter, else the empty text.
fn job_item_or_unnamed(job: &Job) -> (r: String)
    ensures
        r@ == item_or_unnamed(job.model()),
{
    proof {
        reveal_strlit("");
        assert(""@ =~= Seq::<char>::empty());
    }
    if job.items.len() > 0 {
        assert(job.items.deep_view()[0] == job.items@[0]@);
        job.items[0].clone()
    } else {
        match find_param(&job.params, "") {
            Some(v) => v,
            None => String::new(),
        }
    }
}

/// Appends the commands that one job stands for.
#[verifier::rlimit(60)]
fn emit_job(out: &mut Vec<Command>, job: &Job, Ghost(prior): Ghost<Seq<Request>>)
    requires
        all_fresh_for(old(out)@, prior),
    ensures
        all_fresh_for(final(out)@, prior + job_requests(job.model())),
{
    let ghost j = job.model();
    proof {
        reveal_strlit("");
        assert(""@ =~= Seq::<char>::empty());
    }
    let path = find_param(&job.params, "path");
    let unnamed = find_param(&job.params, "");
    let base = match &path {
        Some(p) => Some(p.clone()),
        None => clone_opt(&unnamed),
    };
    let tool = job.tool_name.as_str();
    if str_eq(tool, "create.file") {
        emit_item_paths(out, &job.items, CommandKind::CreateFile, &path, Ghost(prior));
    } else if str_eq(tool, "edit.file") {
        let file_name = job_item_or_unnamed(job);
        let full_path = resolve_path(file_name.as_str(), &path);
        let content = find_param(&job.content_blocks, "full.file.content");
        match content {
            Some(ct) => {
                emit(out, CommandKind::EditFile, Some(full_path), Some(ct), Ghost(prior));
                assert(prior.push(req(CommandKind::EditFile, Some(full_path@), Some(ct@))) =~= prior + job_requests(j));
            },
            None => {
                let search = find_param(&job.content_blocks, "search.file.content");
                let replace = find_param(&job.content_blocks, "replace.file.content");
                match (search, replace) {
                    (Some(s), Some(r)) => {
                        let mut c = "SEARCH:".to_owned();
                        push_str(&mut c, s.as_str());
                        push_str(&mut c, "|REPLACE:");
                        push_str(&mut c, r.as_str());
                        emit(out, CommandKind::EditFile, Some(full_path), Some(c), Ghost(prior));
                        assert(prior.push(req(CommandKind::EditFile, Some(full_path@), Some(c@))) =~= prior + job_requests(j));
                    },
                    _ => {
                        assert(prior =~= prior + job_requests(j));
                    },
                }
            },
        }
    } else if str_eq(tool, "delete.file") {
        emit_item_paths(out, &job.items, CommandKind::DeleteFile, &path, Ghost(prior));
    } else if str_eq(tool, "run.command") {
        let run_dir = match &path {
            Some(p) => Some(p.clone()),
            None => find_param(&job.params, "dir"),
        };
        emit_item_contents(out, &job.items, CommandKind::RunShell, &run_dir, Ghost(prior));
    } else if str_eq(tool, "rename.file") {
        emit_mappings(out, &job.mappings, CommandKind::RenameFile, &base, Ghost(prior));
    } else if str_eq(tool, "rename.folder") {
        let old_dir = if job.items.len() > 0 {
            job.items[0].clone()
        } else if job.mappings.len() > 0 {
            job.mappings[0].0.clone()
        } else {
            String::new()
        };
        let new_dir = if job.mappings.len() > 0 {
            job.mappings[0].1.clone()
        } else {
            String::new()
        };
        emit(out, CommandKind::RenameFolder, Some(old_dir), Some(new_dir), Ghost(prior));
        assert(prior.push(req(CommandKind::RenameFolder, Some(old_dir@), Some(new_dir@))) =~= prior + job_requests(j));
    } else if str_eq(tool, "create.directory") {
        let dir_path = match path {
            Some(p) => Some(p),
            None => find_param(&job.params, ""),
        };
        let ghost mid = prior;
        match dir_path {
            Some(p) => {
                emit(out, CommandKind::CreateFolder, Some(p), None, Ghost(prior));
                proof {
                    mid = prior.push(req(CommandKind::CreateFolder, Some(p@), None));
                }
            },
            None => {},
        }
        emit_item_raw_paths(out, &job.items, CommandKind::CreateFolder, Ghost(mid));
        assert(mid + item_raw_paths(job.items.deep_view(), CommandKind::CreateFolder) =~= prior + job_requests(j));
    } else if str_eq(tool, "download.repository") {
        let url = job_item_or_unnamed(job);
        emit(out, CommandKind::DownloadRepo, path, Some(url), Ghost(prior));
        assert(prior.push(req(CommandKind::DownloadRepo, find_value(j.params, "path"@), Some(url@))) =~= prior + job_requests(j));
    } else if str_eq(tool, "download.private.repository") {
        let mut c = job_item_or_unnamed(job);
        push_str(&mut c, "|TOKEN:");
        let token = find_git_token(&job.params);
        match token {
            Some(t) => push_str(&mut c, t.as_str()),
            None => {},
        }
        emit(out, CommandKind::DownloadPrivateRepo, path, Some(c), Ghost(prior));
        assert(prior.push(req(CommandKind::DownloadPrivateRepo, find_value(j.params, "path"@), Some(c@))) =~= prior + job_requests(j));
    } else if str_eq(tool, "open.folder") {
        if job.items.len() > 0 {
            emit_item_raw_paths(out, &job.items, CommandKind::OpenFolder, Ghost(prior));
        } else {
            match unnamed {
                Some(v) => {
                    emit(out, CommandKind::OpenFolder, Some(v), None, Ghost(prior));
                    assert(prior.push(req(CommandKind::OpenFolder, Some(v@), None)) =~= prior + job_requests(j));
                },
                None => {
                    assert(prior =~= prior + job_requests(j));
                },
            }
        }
    } else if str_eq(tool, "open.app") {
        emit_item_contents(out, &job.items, CommandKind::OpenApp, &None, Ghost(prior));
    } else if str_eq(tool, "move.file") {
        emit_mappings(out, &job.mappings, CommandKind::MoveFile, &base, Ghost(prior));
    } else if str_eq(tool, "copy.file") {
        emit_mappings(out, &job.mappings, CommandKind::CopyFile, &base, Ghost(prior));
    } else if str_eq(tool, "read.file") {
        emit_item_paths(out, &job.items, CommandKind::ReadFile, &path, Ghost(prior));
    } else if str_eq(tool, "path.tree") {
        let exclude = find_param(&job.params, "exclude.folders");
        emit(out, CommandKind::PathTree, base, exclude, Ghost(prior));
        assert(prior.push(req(CommandKind::PathTree, base_folder(j), opt_str(exclude))) =~= prior + job_requests(j));
    } else {
        assert(prior =~= prior + job_requests(j));
    }
}

/// The commands that a list of jobs stands for, job after job.
fn jobs_to_commands(jobs: &Vec<Job>) -> (out: Vec<Command>)
    ensures
        all_fresh_for(out@, jobs_requests(job_models(jobs@))),
{
    let ghost js = job_models(jobs@);
    let mut out: Vec<Command> = Vec::new();
    let mut i: usize = 0;
    assert(js.take(0) =~= Seq::<JobModel>::empty());
    while i < jobs.len()
        invariant
            i <= jobs@.len(),
            js == job_models(jobs@),
            all_fresh_for(out@, jobs_requests(js.take(i as int))),
        decreases jobs@.len() - i,
    {
        let ghost before = jobs_requests(js.take(i as int));
        emit_job(&mut out, &jobs[i], Ghost(before));
        assert(js.take(i + 1).drop_last() =~= js.take(i as int));
        assert(js.take(i + 1).last() == jobs@[i as int].model());
        i = i + 1;
    }
    assert(js.take(jobs@.len() as int) =~= js);
    out
}

/// Parses the tokens of a VibiClaw program into the commands its jobs
/// stand for. Fails with a one-message list when the program's frame
/// `{ jobs ... jobs() }` is broken; inside the job list, malformed pieces
/// are skipped rather than reported.
pub fn parse(tokens: Vec<Token>) -> (r: Result<VibiProgram, Vec<String>>)
    ensures
        match program_requests(token_models(tokens@)) {
            Ok(reqs) => r matches Ok(prog) && all_fresh_for(prog.commands@, reqs),
            Err(msg) => r matches Err(e) && e.deep_view() == seq![msg],
        },
{
    let ghost t = token_models(tokens@);
    let mut pos: usize = 0;
    skip_header(&tokens, &mut pos);
    expect_token(&tokens, &mut pos, &Token::LBrace, "Expected '{'")?;
    expect_identifier(&tokens, &mut pos, "jobs")?;
    let jobs = parse_jobs(&tokens, &mut pos);
    expect_identifier(&tokens, &mut pos, "jobs")?;
    expect_token(&tokens, &mut pos, &Token::LParen, "Expected '('")?;
    expect_token(&tokens, &mut pos, &Token::RParen, "Expected ')'")?;
    expect_token(&tokens, &mut pos, &Token::RBrace, "Expected '}'")?;
    let commands = jobs_to_commands(&jobs);
    Ok(VibiProgram { commands })
}

} // verus!
