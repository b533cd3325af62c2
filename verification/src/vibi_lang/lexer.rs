use vstd::prelude::*;
use crate::text::{chars_of, is_alphanumeric, string_of_range, unicode_alphanumeric};

verus! {

/// The tokens of the VibiClaw agent language.
#[derive(Debug, PartialEq, Clone)]
pub enum Token {
    LBrace,
    RBrace,
    LBracket,
    RBracket,
    Pipe,
    Arrow,
    QuestionEq,
    Colon,
    And,
    LParen,
    RParen,
    Dot,
    String(String),
    Identifier(String),
    Eof,
}

/// Mathematical model of a [`Token`].
pub enum TokenModel {
    LBrace,
    RBrace,
    LBracket,
    RBracket,
    Pipe,
    Arrow,
    QuestionEq,
    Colon,
    And,
    LParen,
    RParen,
    Dot,
    Str(Seq<char>),
    Ident(Seq<char>),
    Eof,
}

impl View for Token {
    type V = TokenModel;

    open spec fn view(&self) -> TokenModel {
        match self {
            Token::LBrace => TokenModel::LBrace,
            Token::RBrace => TokenModel::RBrace,
            Token::LBracket => TokenModel::LBracket,
            Token::RBracket => TokenModel::RBracket,
            Token::Pipe => TokenModel::Pipe,
            Token::Arrow => TokenModel::Arrow,
            Token::QuestionEq => TokenModel::QuestionEq,
            Token::Colon => TokenModel::Colon,
            Token::And => TokenModel::And,
            Token::LParen => TokenModel::LParen,
            Token::RParen => TokenModel::RParen,
            Token::Dot => TokenModel::Dot,
            Token::String(s) => TokenModel::Str(s@),
            Token::Identifier(s) => TokenModel::Ident(s@),
            Token::Eof => TokenModel::Eof,
        }
    }
}

/// The models of a sequence of tokens.
pub open spec fn token_models(toks: Seq<Token>) -> Seq<TokenModel> {
    toks.map_values(|t: Token| t@)
}

/// Characters that separate tokens and are otherwise dropped.
pub open spec fn is_separator(c: char) -> bool {
    c == ' ' || c == '\n' || c == '\r' || c == '\t' || c == ','
}

/// Characters that may continue a word (identifier or path).
pub open spec fn is_word_char(c: char) -> bool {
    unicode_alphanumeric(c) || c == '.' || c == '_' || c == '-' || c == '/'
}

/// Characters that may start a word.
pub open spec fn is_word_start(c: char) -> bool {
    unicode_alphanumeric(c) || c == '_' || c == '-'
}

/// The end of the run of word characters that starts at `k`.
pub open spec fn word_end(s: Seq<char>, k: int) -> int
    decreases s.len() - k,
{
    if 0 <= k < s.len() && is_word_char(s[k]) {
        word_end(s, k + 1)
    } else {
        k
    }
}

/// The end of the run of spaces and tabs that starts at `k`.
pub open spec fn blank_end(s: Seq<char>, k: int) -> int
    decreases s.len() - k,
{
    if 0 <= k < s.len() && (s[k] == ' ' || s[k] == '\t') {
        blank_end(s, k + 1)
    } else {
        k
    }
}

/// The position just after the line comment whose body starts at `k`:
/// after the next newline, or the end of the text.
pub open spec fn comment_end(s: Seq<char>, k: int) -> int
    decreases s.len() - k,
{
    if 0 <= k < s.len() {
        if s[k] == '\n' {
            k + 1
        } else {
            comment_end(s, k + 1)
        }
    } else {
        k
    }
}

/// The body of the string literal whose opening quote ends at `k`, with
/// `\"` read as a quote, and the position just after the closing quote
/// (or the end of the text when the literal is not closed).
pub open spec fn string_literal(s: Seq<char>, k: int) -> (Seq<char>, int)
    decreases s.len() - k,
{
    if 0 <= k < s.len() {
        if s[k] == '\\' && k + 1 < s.len() && s[k + 1] == '"' {
            let r = string_literal(s, k + 2);
            (seq!['"'] + r.0, r.1)
        } else if s[k] == '"' {
            (Seq::empty(), k + 1)
        } else {
            let r = string_literal(s, k + 1);
            (seq![s[k]] + r.0, r.1)
        }
    } else {
        (Seq::empty(), k)
    }
}

/// One step of the lexer at position `i` (with `0 <= i < s.len()`):
/// the token read there, if any, and the position where lexing goes on.
pub open spec fn lex_step(s: Seq<char>, i: int) -> (Option<TokenModel>, int) {
    let c = s[i];
    if c == '{' {
        (Some(TokenModel::LBrace), i + 1)
    } else if c == '}' {
        (Some(TokenModel::RBrace), i + 1)
    } else if c == '[' {
        (Some(TokenModel::LBracket), i + 1)
    } else if c == ']' {
        (Some(TokenModel::RBracket), i + 1)
    } else if c == '|' {
        (Some(TokenModel::Pipe), i + 1)
    } else if c == ':' {
        (Some(TokenModel::Colon), i + 1)
    } else if c == '(' {
        (Some(TokenModel::LParen), i + 1)
    } else if c == ')' {
        (Some(TokenModel::RParen), i + 1)
    } else if c == '.' {
        (Some(TokenModel::Dot), i + 1)
    } else if c == '=' {
        if i + 1 < s.len() && s[i + 1] == '>' {
            (Some(TokenModel::Arrow), i + 2)
        } else {
            (None, i + 1)
        }
    } else if c == '?' {
        let j = blank_end(s, i + 1);
        if j < s.len() && s[j] == '=' {
            (Some(TokenModel::QuestionEq), j + 1)
        } else {
            (Some(TokenModel::Ident(seq!['?'])), i + 1)
        }
    } else if c == '&' {
        if i + 1 < s.len() && s[i + 1] == '&' {
            (Some(TokenModel::And), i + 2)
        } else {
            (None, i + 1)
        }
    } else if c == '"' {
        let r = string_literal(s, i + 1);
        (Some(TokenModel::Str(r.0)), r.1)
    } else if c == '/' {
        if i + 1 < s.len() && s[i + 1] == '/' {
            (None, comment_end(s, i + 1))
        } else {
            let e = word_end(s, i + 1);
            (Some(TokenModel::Ident(s.subrange(i, e))), e)
        }
    } else if is_separator(c) {
        (None, i + 1)
    } else if is_word_start(c) {
        let e = word_end(s, i);
        (Some(TokenModel::Ident(s.subrange(i, e))), e)
    } else {
        (None, i + 1)
    }
}

pub open spec fn opt_token(t: Option<TokenModel>) -> Seq<TokenModel> {
    match t {
        Some(t) => seq![t],
        None => Seq::empty(),
    }
}

/// The tokens of `s` from position `i` on, ending with `Eof`.
pub open spec fn lex_from(s: Seq<char>, i: int) -> Seq<TokenModel>
    decreases s.len() - i,
{
    if 0 <= i < s.len() {
        let (t, j) = lex_step(s, i);
        if i < j <= s.len() {
            opt_token(t) + lex_from(s, j)
        } else {
            seq![TokenModel::Eof]
        }
    } else {
        seq![TokenModel::Eof]
    }
}

/// The tokens of a whole source text.
pub open spec fn lex(s: Seq<char>) -> Seq<TokenModel> {
    lex_from(s, 0)
}

/// Lexing never makes an `Eof` of its own: the tokens of any text end
/// with one `Eof`, and no other token is `Eof`.
pub proof fn law_tokens_end_with_one_eof(s: Seq<char>, i: int)
    ensures
        lex_from(s, i).len() > 0,
        lex_from(s, i).last() == TokenModel::Eof,
        forall|k: int| 0 <= k < lex_from(s, i).len() - 1 ==> lex_from(s, i)[k] != TokenModel::Eof,
    decreases s.len() - i,
{
    if 0 <= i < s.len() {
        let (t, j) = lex_step(s, i);
        if i < j <= s.len() {
            law_tokens_end_with_one_eof(s, j);
            let rest = lex_from(s, j);
            let all = opt_token(t) + rest;
            assert(t matches Some(x) ==> x != TokenModel::Eof);
            assert(all.last() == rest.last());
            assert forall|k: int| 0 <= k < all.len() - 1 implies all[k] != TokenModel::Eof by {
                if k >= opt_token(t).len() {
                    assert(all[k] == rest[k - opt_token(t).len()]);
                }
            }
        }
    }
}

proof fn lemma_word_end_bounds(s: Seq<char>, k: int)
    requires
        0 <= k <= s.len(),
    ensures
        k <= word_end(s, k) <= s.len(),
    decreases s.len() - k,
{
    if k < s.len() && is_word_char(s[k]) {
        lemma_word_end_bounds(s, k + 1);
    }
}

proof fn lemma_blank_end_bounds(s: Seq<char>, k: int)
    requires
        0 <= k <= s.len(),
    ensures
        k <= blank_end(s, k) <= s.len(),
    decreases s.len() - k,
{
    if k < s.len() && (s[k] == ' ' || s[k] == '\t') {
        lemma_blank_end_bounds(s, k + 1);
    }
}

proof fn lemma_comment_end_bounds(s: Seq<char>, k: int)
    requires
        0 <= k <= s.len(),
    ensures
        k <= comment_end(s, k) <= s.len(),
    decreases s.len() - k,
{
    if k < s.len() && s[k] != '\n' {
        lemma_comment_end_bounds(s, k + 1);
    }
}

proof fn lemma_string_literal_bounds(s: Seq<char>, k: int)
    requires
        0 <= k <= s.len(),
    ensures
        k <= string_literal(s, k).1 <= s.len(),
    decreases s.len() - k,
{
    if k < s.len() {
        if s[k] == '\\' && k + 1 < s.len() && s[k + 1] == '"' {
            lemma_string_literal_bounds(s, k + 2);
        } else if s[k] == '"' {
        } else {
            lemma_string_literal_bounds(s, k + 1);
        }
    }
}

/// Each lexer step makes progress and stays within the text.
proof fn lemma_lex_step_progress(s: Seq<char>, i: int)
    requires
        0 <= i < s.len(),
    ensures
        i < lex_step(s, i).1 <= s.len(),
{
    lemma_word_end_bounds(s, i + 1);
    lemma_word_end_bounds(s, i);
    lemma_blank_end_bounds(s, i + 1);
    lemma_comment_end_bounds(s, i + 1);
    lemma_string_literal_bounds(s, i + 1);
    if is_word_start(s[i]) {
        assert(is_word_char(s[i]));
    }
}

fn scan_word(s: &Vec<char>, k: usize) -> (e: usize)
    requires
        k <= s@.len(),
    ensures
        e as int == word_end(s@, k as int),
        k <= e <= s@.len(),
{
    let mut e = k;
    while e < s.len() && (is_alphanumeric(s[e]) || s[e] == '.' || s[e] == '_' || s[e] == '-'
        || s[e] == '/')
        invariant
            k <= e <= s@.len(),
            word_end(s@, k as int) == word_end(s@, e as int),
        decreases s@.len() - e,
    {
        e = e + 1;
    }
    e
}

fn scan_blanks(s: &Vec<char>, k: usize) -> (e: usize)
    requires
        k <= s@.len(),
    ensures
        e as int == blank_end(s@, k as int),
        k <= e <= s@.len(),
{
    let mut e = k;
    while e < s.len() && (s[e] == ' ' || s[e] == '\t')
        invariant
            k <= e <= s@.len(),
            blank_end(s@, k as int) == blank_end(s@, e as int),
        decreases s@.len() - e,
    {
        e = e + 1;
    }
    e
}

fn scan_comment(s: &Vec<char>, k: usize) -> (e: usize)
    requires
        k <= s@.len(),
    ensures
        e as int == comment_end(s@, k as int),
        k <= e <= s@.len(),
{
    let mut e = k;
    while e < s.len()
        invariant
            k <= e <= s@.len(),
            comment_end(s@, k as int) == comment_end(s@, e as int),
        decreases s@.len() - e,
    {
        if s[e] == '\n' {
            return e + 1;
        }
        e = e + 1;
    }
    e
}

fn scan_string(s: &Vec<char>, k: usize) -> (r: (String, usize))
    requires
        k <= s@.len(),
    ensures
        (r.0@, r.1 as int) == string_literal(s@, k as int),
        k <= r.1 <= s@.len(),
{
    let mut out = String::new();
    let mut e = k;
    while e < s.len()
        invariant
            k <= e <= s@.len(),
            string_literal(s@, k as int) == (out@ + string_literal(s@, e as int).0,
                string_literal(s@, e as int).1),
        decreases s@.len() - e,
    {
        let c = s[e];
        if c == '\\' && e + 1 < s.len() && s[e + 1] == '"' {
            let ghost before = out@;
            out.push('"');
            assert(string_literal(s@, e as int).0 == seq!['"'] + string_literal(s@, e + 2).0);
            assert(before + (seq!['"'] + string_literal(s@, e + 2).0) =~= out@ + string_literal(
                s@,
                e + 2,
            ).0);
            e = e + 2;
        } else if c == '"' {
            assert(string_literal(s@, e as int).0 =~= Seq::<char>::empty());
            assert(out@ + Seq::<char>::empty() =~= out@);
            return (out, e + 1);
        } else {
            let ghost before = out@;
            out.push(c);
            assert(before + (seq![c] + string_literal(s@, e + 1).0) =~= out@ + string_literal(
                s@,
                e + 1,
            ).0);
            e = e + 1;
        }
    }
    assert(out@ + Seq::<char>::empty() =~= out@);
    (out, e)
}

/// Splits VibiClaw source text into tokens. The result always ends with
/// `Token::Eof`; characters that start no token are skipped, so lexing
/// never fails.
pub fn tokenize(source: &str) -> (r: Result<Vec<Token>, Vec<String>>)
    ensures
        r is Ok,
        r matches Ok(toks) ==> token_models(toks@) == lex(source@),
{
    let s = chars_of(source);
    let mut tokens: Vec<Token> = Vec::new();
    let mut i: usize = 0;
    while i < s.len()
        invariant
            i <= s@.len(),
            s@ == source@,
            lex(s@) == token_models(tokens@) + lex_from(s@, i as int),
        decreases s@.len() - i,
    {
        proof {
            lemma_lex_step_progress(s@, i as int);
        }
        let ghost step = lex_step(s@, i as int);
        let ghost old_tokens = tokens@;
        let c = s[i];
        let next: usize;
        if c == '{' {
            tokens.push(Token::LBrace);
            next = i + 1;
        } else if c == '}' {
            tokens.push(Token::RBrace);
            next = i + 1;
        } else if c == '[' {
            tokens.push(Token::LBracket);
            next = i + 1;
        } else if c == ']' {
            tokens.push(Token::RBracket);
            next = i + 1;
        } else if c == '|' {
            tokens.push(Token::Pipe);
            next = i + 1;
        } else if c == ':' {
            tokens.push(Token::Colon);
            next = i + 1;
        } else if c == '(' {
            tokens.push(Token::LParen);
            next = i + 1;
        } else if c == ')' {
            tokens.push(Token::RParen);
            next = i + 1;
        } else if c == '.' {
            tokens.push(Token::Dot);
            next = i + 1;
        } else if c == '=' {
            if i + 1 < s.len() && s[i + 1] == '>' {
                tokens.push(Token::Arrow);
                next = i + 2;
            } else {
                next = i + 1;
            }
        } else if c == '?' {
            let j = scan_blanks(&s, i + 1);
            if j < s.len() && s[j] == '=' {
                tokens.push(Token::QuestionEq);
                next = j + 1;
            } else {
                let mut q = String::new();
                q.push('?');
                tokens.push(Token::Identifier(q));
                next = i + 1;
            }
        } else if c == '&' {
            if i + 1 < s.len() && s[i + 1] == '&' {
                tokens.push(Token::And);
                next = i + 2;
            } else {
                next = i + 1;
            }
        } else if c == '"' {
            let (lit, e) = scan_string(&s, i + 1);
            tokens.push(Token::String(lit));
            next = e;
        } else if c == '/' {
            if i + 1 < s.len() && s[i + 1] == '/' {
                next = scan_comment(&s, i + 1);
            } else {
                let e = scan_word(&s, i + 1);
                tokens.push(Token::Identifier(string_of_range(&s, i, e)));
                next = e;
            }
        } else if c == ' ' || c == '\n' || c == '\r' || c == '\t' || c == ',' {
            next = i + 1;
        } else if is_alphanumeric(c) || c == '_' || c == '-' {
            let e = scan_word(&s, i);
            tokens.push(Token::Identifier(string_of_range(&s, i, e)));
            next = e;
        } else {
            next = i + 1;
        }
        assert(next as int == step.1);
        assert(token_models(tokens@) =~= token_models(old_tokens) + opt_token(step.0));
        assert(lex_from(s@, i as int) == opt_token(step.0) + lex_from(s@, next as int));
        assert(lex(s@) =~= token_models(tokens@) + lex_from(s@, next as int));
        i = next;
    }
    let ghost before = tokens@;
    tokens.push(Token::Eof);
    assert(token_models(tokens@) =~= token_models(before) + seq![TokenModel::Eof]);
    Ok(tokens)
}

} // verus!
