//! Reads an AI reply written in prose and Markdown and picks out the
//! operations it asks for: fenced files, shell blocks, install lines,
//! unfenced file hints and inline "run ..." hints.

use vstd::prelude::*;
use vstd::utf8::{decode_utf8, encode_utf8, is_char_boundary};
use crate::text::{
    chars_of, contains_exec, contains_seq, count_words, lowercase, push_str, split_chars,
    split_on_char, char_parts, str_eq, to_lowercase, trim_chars, trim_str, trimmed, word_count,
};
use crate::types::{Command, CommandKind, Request, all_fresh_for, opt_str};

verus! {

// ---------------------------------------------------------------------
// Regular expressions.
// ---------------------------------------------------------------------

/// One match of a regular expression: the byte range of the whole match
/// and the text of each group (group 0 being the whole match), `None`
/// for a group that took no part in it.
pub struct Capture {
    pub start: usize,
    pub end: usize,
    pub groups: Vec<Option<String>>,
}

/// Mathematical model of a [`Capture`].
pub struct CaptureModel {
    pub start: int,
    pub end: int,
    pub groups: Seq<Option<Seq<char>>>,
}

impl View for Capture {
    type V = CaptureModel;

    open spec fn view(&self) -> CaptureModel {
        CaptureModel {
            start: self.start as int,
            end: self.end as int,
            groups: self.groups@.map_values(|g: Option<String>| opt_str(g)),
        }
    }
}

/// The successive non-overlapping matches of `pattern` in `text` (what
/// `regex::Regex::captures_iter` yields), or `None` when `pattern` is not
/// a valid regular expression.
pub uninterp spec fn regex_captures(pattern: Seq<char>, text: Seq<char>) -> Option<Seq<CaptureModel>>;

pub open spec fn captures_model(v: Option<Vec<Capture>>) -> Option<Seq<CaptureModel>> {
    match v {
        Some(v) => Some(v@.map_values(|c: Capture| c@)),
        None => None,
    }
}

/// Compiles `pattern` with `regex::Regex::new` and collects
/// `captures_iter` over `text`. The matches are named by
/// `regex_captures`; as the crate documents, each match's byte range lies
/// within the text and starts and ends at character boundaries.
#[verifier::external_body]
fn find_captures(pattern: &str, text: &str) -> (r: Option<Vec<Capture>>)
    ensures
        captures_model(r) == regex_captures(pattern@, text@),
        r matches Some(v) ==> forall|i: int|
            0 <= i < v@.len() ==> {
                let c = #[trigger] v@[i];
                &&& c.start <= c.end <= encode_utf8(text@).len()
                &&& is_char_boundary(encode_utf8(text@), c.start as int)
                &&& is_char_boundary(encode_utf8(text@), c.end as int)
            },
{
    let re = regex::Regex::new(pattern).ok()?;
    Some(
        re.captures_iter(text).map(|c| Capture {
            start: c.get(0).map_or(0, |m| m.start()),
            end: c.get(0).map_or(0, |m| m.end()),
            groups: c.iter().map(|g| g.map(|m| m.as_str().to_string())).collect(),
        }).collect(),
    )
}

/// The matches of `pattern` in `text`, none when the pattern is invalid.
pub open spec fn caps_of(pattern: Seq<char>, text: Seq<char>) -> Seq<CaptureModel> {
    match regex_captures(pattern, text) {
        Some(cs) => cs,
        None => Seq::empty(),
    }
}

/// The text of group `i` (empty when the group took no part).
pub open spec fn group_text(c: CaptureModel, i: int) -> Seq<char> {
    if 0 <= i < c.groups.len() {
        match c.groups[i] {
            Some(t) => t,
            None => Seq::empty(),
        }
    } else {
        Seq::empty()
    }
}

pub fn group(c: &Capture, i: usize) -> (r: String)
    ensures
        r@ == group_text(c@, i as int),
{
    if i < c.groups.len() {
        match &c.groups[i] {
            Some(t) => t.clone(),
            None => String::new(),
        }
    } else {
        String::new()
    }
}

// ---------------------------------------------------------------------
// The patterns.
// ---------------------------------------------------------------------

/// A fenced block whose info line names a file: group 1 the path, group 2
/// the body.
pub open spec fn block_pattern() -> Seq<char> {
    "(?m)```[\\w]*\\s+([\\w./\\-]+\\.\\w+)\\n([\\s\\S]*?)```"@
}

/// A fenced shell block: group 1 the script.
pub open spec fn shell_pattern() -> Seq<char> {
    "```(?:bash|sh|shell|zsh)\\n([\\s\\S]*?)```"@
}

/// A line that installs packages: group 1 the tool, group 2 the packages.
pub open spec fn install_pattern() -> Seq<char> {
    "(?m)^\\s*(npm install|yarn add|pip install|cargo add|apt install|apt-get install)\\s+([\\w@/.\\-\\s]+)"@
}

/// "create X with:" and two or more unfenced lines: group 1 the path,
/// group 2 the lines.
pub open spec fn hint_pattern() -> Seq<char> {
    "(?i)(?:create|make|write|add|put in|in)\\s+([\\w./\\-]+\\.\\w+)\\s+(?:with|containing|like|as follows)?:?\\s*\\n((?:[^\\n`]+\\n){2,})"@
}

/// "run X" and the like: group 1 the command.
pub open spec fn run_pattern() -> Seq<char> {
    "(?i)(?:^|\\.\\s+|\\n)(?:run|execute|type|do)\\s+[`']?([\\w][\\w\\s./\\-]{2,40})[`']?"@
}

// ---------------------------------------------------------------------
// Context and intent.
// ---------------------------------------------------------------------

pub open spec fn pre_start(pos: int, radius: int) -> int {
    if pos >= radius {
        pos - radius
    } else {
        0
    }
}

pub open spec fn post_end(len: int, pos: int, radius: int) -> int {
    if pos + radius <= len {
        pos + radius
    } else {
        len
    }
}

/// The text in the `radius` bytes before byte `pos`.
pub open spec fn pre_context(text: Seq<char>, pos: int, radius: int) -> Seq<char> {
    decode_utf8(encode_utf8(text).subrange(pre_start(pos, radius), pos))
}

/// The text in the `radius` bytes from byte `pos` on.
pub open spec fn post_context(text: Seq<char>, pos: int, radius: int) -> Seq<char> {
    decode_utf8(encode_utf8(text).subrange(pos, post_end(encode_utf8(text).len() as int, pos, radius)))
}

/// The bytes `start..end` of `text` as text.
pub fn byte_slice(text: &str, start: usize, end: usize) -> (r: String)
    requires
        start <= end <= encode_utf8(text@).len(),
        is_char_boundary(encode_utf8(text@), start as int),
        is_char_boundary(encode_utf8(text@), end as int),
    ensures
        r@ == decode_utf8(encode_utf8(text@).subrange(start as int, end as int)),
{
    let ghost b = encode_utf8(text@);
    proof {
        vstd::utf8::encode_utf8_valid_utf8(text@);
    }
    let (head, _) = text.split_at(end);
    let ghost hb = encode_utf8(head@);
    proof {
        assert(hb =~= b.subrange(0, end as int));
        vstd::utf8::encode_utf8_valid_utf8(head@);
        if start < end {
            vstd::utf8::is_char_boundary_iff_not_is_continuation_byte(b, start as int);
            vstd::utf8::is_char_boundary_iff_not_is_continuation_byte(hb, start as int);
        } else {
            vstd::utf8::is_char_boundary_start_end_of_seq(hb);
        }
    }
    let (_, mid) = head.split_at(start);
    proof {
        assert(encode_utf8(mid@) =~= b.subrange(start as int, end as int));
        vstd::utf8::encode_utf8_decode_utf8(mid@);
    }
    mid.to_owned()
}

pub struct Analyzer;

pub open spec fn delete_signals() -> Seq<Seq<char>> {
    seq!["delete"@, "remove this file"@, "clean up"@, "get rid of"@]
}

pub open spec fn edit_signals() -> Seq<Seq<char>> {
    seq!["update"@, "edit"@, "modify"@, "change"@, "replace"@, "fix"@, "adjust"@]
}

/// Whether one of `needles` occurs in `hay`.
pub open spec fn any_occurs(hay: Seq<char>, needles: Seq<Seq<char>>) -> bool {
    exists|i: int| 0 <= i < needles.len() && contains_seq(hay, #[trigger] needles[i])
}

/// What a fenced file block is for, judged by the words around it: a
/// delete signal nearby together with a reference to the file (its path,
/// "this file" or "it") before it means delete; an edit signal before it
/// means edit; otherwise create.
pub open spec fn intent(path: Seq<char>, pre: Seq<char>, post: Seq<char>) -> CommandKind {
    let p = lowercase(pre);
    let q = lowercase(post);
    let is_delete = (any_occurs(p, delete_signals()) || any_occurs(q, delete_signals())) && (
    contains_seq(p, path) || contains_seq(p, "this file"@) || contains_seq(p, "it"@));
    if is_delete {
        CommandKind::DeleteFile
    } else if any_occurs(p, edit_signals()) {
        CommandKind::EditFile
    } else {
        CommandKind::CreateFile
    }
}

/// Whether one of `needles` occurs in `hay`.
fn any_occurs_exec(hay: &Vec<char>, needles: &Vec<Vec<char>>) -> (r: bool)
    ensures
        r == any_occurs(hay@, char_parts(needles@)),
{
    let mut i: usize = 0;
    while i < needles.len()
        invariant
            i <= needles@.len(),
            forall|k: int| 0 <= k < i ==> !contains_seq(hay@, #[trigger] char_parts(needles@)[k]),
        decreases needles@.len() - i,
    {
        if contains_exec(hay, &needles[i]) {
            assert(contains_seq(hay@, char_parts(needles@)[i as int]));
            return true;
        }
        i = i + 1;
    }
    false
}

fn word_list(words: &[&str]) -> (v: Vec<Vec<char>>)
    ensures
        char_parts(v@) == words@.map_values(|w: &str| w@),
{
    let mut v: Vec<Vec<char>> = Vec::new();
    let mut i: usize = 0;
    while i < words.len()
        invariant
            i <= words@.len(),
            char_parts(v@) =~= words@.take(i as int).map_values(|w: &str| w@),
        decreases words@.len() - i,
    {
        let ghost before = char_parts(v@);
        v.push(chars_of(words[i]));
        assert(char_parts(v@) =~= before.push(words@[i as int]@));
        assert(words@.take(i + 1).map_values(|w: &str| w@) =~= words@.take(i as int).map_values(
            |w: &str| w@,
        ).push(words@[i as int]@));
        i = i + 1;
    }
    assert(words@.take(words@.len() as int) =~= words@);
    v
}

/// Whether at least two of `{ } ( ) ; = : < >` occur in `s`.
pub open spec fn looks_like_code_spec(s: Seq<char>) -> bool {
    code_char_hits(s, seq!['{', '}', '(', ')', ';', '=', ':', '<', '>']) >= 2
}

/// How many of `cs` occur in `s`.
pub open spec fn code_char_hits(s: Seq<char>, cs: Seq<char>) -> nat
    decreases cs.len(),
{
    if cs.len() == 0 {
        0
    } else {
        code_char_hits(s, cs.drop_last()) + if s.contains(cs.last()) {
            1nat
        } else {
            0nat
        }
    }
}

fn has_char(s: &Vec<char>, c: char) -> (r: bool)
    ensures
        r == s@.contains(c),
{
    let mut i: usize = 0;
    while i < s.len()
        invariant
            i <= s@.len(),
            forall|k: int| 0 <= k < i ==> s@[k] != c,
        decreases s@.len() - i,
    {
        if s[i] == c {
            return true;
        }
        i = i + 1;
    }
    false
}

impl Analyzer {
    /// Classifies a fenced file block (see `intent`).
    pub fn classify_intent(path: &str, pre_context: &str, post_context: &str) -> (k: CommandKind)
        ensures
            k == intent(path@, pre_context@, post_context@),
    {
        let pre = chars_of(to_lowercase(pre_context).as_str());
        let post = chars_of(to_lowercase(post_context).as_str());
        let del_words = word_list(&["delete", "remove this file", "clean up", "get rid of"]);
        let edit_words = word_list(&["update", "edit", "modify", "change", "replace", "fix", "adjust"]);
        proof {
            assert(char_parts(del_words@) =~= delete_signals());
            assert(char_parts(edit_words@) =~= edit_signals());
        }
        let is_delete = (any_occurs_exec(&pre, &del_words) || any_occurs_exec(&post, &del_words))
            && (contains_exec(&pre, &chars_of(path)) || contains_exec(&pre, &chars_of("this file"))
            || contains_exec(&pre, &chars_of("it")));
        let is_edit = any_occurs_exec(&pre, &edit_words);
        if is_delete {
            CommandKind::DeleteFile
        } else if is_edit {
            CommandKind::EditFile
        } else {
            CommandKind::CreateFile
        }
    }

    /// Whether `text` reads like code: at least two kinds of code punctuation.
    pub fn looks_like_code(text: &str) -> (r: bool)
        ensures
            r == looks_like_code_spec(text@),
    {
        let s = chars_of(text);
        let code_chars: Vec<char> = vec!['{', '}', '(', ')', ';', '=', ':', '<', '>'];
        let mut hits: usize = 0;
        let mut i: usize = 0;
        assert(code_chars@ =~= seq!['{', '}', '(', ')', ';', '=', ':', '<', '>']);
        while i < code_chars.len()
            invariant
                i <= code_chars@.len(),
                code_chars@ == seq!['{', '}', '(', ')', ';', '=', ':', '<', '>'],
                hits == code_char_hits(s@, code_chars@.take(i as int)),
                hits <= i,
            decreases code_chars@.len() - i,
        {
            assert(code_chars@.take(i + 1).drop_last() =~= code_chars@.take(i as int));
            if has_char(&s, code_chars[i]) {
                hits = hits + 1;
            }
            i = i + 1;
        }
        assert(code_chars@.take(9) =~= code_chars@);
        hits >= 2
    }

    /// The text in the `radius` bytes before byte `pos`.
    pub fn get_pre_context(text: &str, pos: usize, radius: usize) -> (r: String)
        requires
            pos <= encode_utf8(text@).len(),
            is_char_boundary(encode_utf8(text@), pos as int),
            is_char_boundary(encode_utf8(text@), pre_start(pos as int, radius as int)),
        ensures
            r@ == pre_context(text@, pos as int, radius as int),
    {
        let start = pos.saturating_sub(radius);
        byte_slice(text, start, pos)
    }

    /// The text in the `radius` bytes from byte `pos` on.
    pub fn get_post_context(text: &str, pos: usize, radius: usize) -> (r: String)
        requires
            pos <= encode_utf8(text@).len(),
            pos + radius <= usize::MAX,
            is_char_boundary(encode_utf8(text@), pos as int),
            is_char_boundary(encode_utf8(text@), post_end(encode_utf8(text@).len() as int, pos as int, radius as int)),
        ensures
            r@ == post_context(text@, pos as int, radius as int),
    {
        let len = text.as_bytes().len();
        let end = if pos + radius <= len { pos + radius } else { len };
        byte_slice(text, pos, end)
    }
}

// ---------------------------------------------------------------------
// What each extractor finds.
// ---------------------------------------------------------------------

pub open spec fn req(kind: CommandKind, path: Option<Seq<char>>, content: Option<Seq<char>>) -> Request {
    Request { kind, path, content }
}

/// A fenced file block: its path, its trimmed body, and the intent read
/// from the 120 bytes before and the 60 bytes after it.
pub open spec fn file_op_request(text: Seq<char>, c: CaptureModel) -> Request {
    let path = group_text(c, 1);
    req(
        intent(path, pre_context(text, c.start, 120), post_context(text, c.end, 60)),
        Some(path),
        Some(trimmed(group_text(c, 2))),
    )
}

pub open spec fn file_op_requests(text: Seq<char>, cs: Seq<CaptureModel>) -> Seq<Request> {
    cs.map_values(|c: CaptureModel| file_op_request(text, c))
}

/// The shell commands of the lines of a script: each line trimmed, blank
/// lines and `#` comments left out.
pub open spec fn script_requests(lines: Seq<Seq<char>>) -> Seq<Request>
    decreases lines.len(),
{
    if lines.len() == 0 {
        Seq::empty()
    } else {
        let t = trimmed(lines.last());
        script_requests(lines.drop_last()) + if t.len() > 0 && t[0] != '#' {
            seq![req(CommandKind::RunShell, None, Some(t))]
        } else {
            Seq::empty()
        }
    }
}

pub open spec fn shell_requests(cs: Seq<CaptureModel>) -> Seq<Request>
    decreases cs.len(),
{
    if cs.len() == 0 {
        Seq::empty()
    } else {
        shell_requests(cs.drop_last()) + script_requests(
            split_chars(trimmed(group_text(cs.last(), 1)), '\n'),
        )
    }
}

pub open spec fn install_request(c: CaptureModel) -> Request {
    req(
        CommandKind::InstallDep,
        None,
        Some(trimmed(group_text(c, 1)) + " "@ + trimmed(group_text(c, 2))),
    )
}

pub open spec fn install_requests(cs: Seq<CaptureModel>) -> Seq<Request> {
    cs.map_values(|c: CaptureModel| install_request(c))
}

pub open spec fn hint_requests(cs: Seq<CaptureModel>) -> Seq<Request>
    decreases cs.len(),
{
    if cs.len() == 0 {
        Seq::empty()
    } else {
        let c = cs.last();
        let body = trimmed(group_text(c, 2));
        hint_requests(cs.drop_last()) + if looks_like_code_spec(body) {
            seq![req(CommandKind::CreateFile, Some(group_text(c, 1)), Some(body))]
        } else {
            Seq::empty()
        }
    }
}

/// An unfenced "create/make/write <file> with:" hint only ever creates
/// files: each request it gives is a `CreateFile` of a named file whose
/// content looks like code, and there is at most one per hint.
pub proof fn law_hints_create_files(cs: Seq<CaptureModel>)
    ensures
        hint_requests(cs).len() <= cs.len(),
        forall|k: int|
            0 <= k < hint_requests(cs).len() ==> {
                let r = #[trigger] hint_requests(cs)[k];
                &&& r.kind == CommandKind::CreateFile
                &&& r.path is Some
                &&& r.content matches Some(b) && looks_like_code_spec(b)
            },
    decreases cs.len(),
{
    if cs.len() > 0 {
        law_hints_create_files(cs.drop_last());
        let prev = hint_requests(cs.drop_last());
        assert forall|k: int| 0 <= k < hint_requests(cs).len() implies ({
            let r = #[trigger] hint_requests(cs)[k];
            &&& r.kind == CommandKind::CreateFile
            &&& r.path is Some
            &&& r.content matches Some(b) && looks_like_code_spec(b)
        }) by {
            if k < prev.len() {
                assert(hint_requests(cs)[k] == prev[k]);
            }
        }
    }
}

/// A shell block only ever runs commands: each request it gives is a
/// `RunShell` with no path and a non-blank command that is not a `#`
/// comment.
pub proof fn law_shell_blocks_run_commands(cs: Seq<CaptureModel>)
    ensures
        forall|k: int|
            0 <= k < shell_requests(cs).len() ==> {
                let r = #[trigger] shell_requests(cs)[k];
                &&& r.kind == CommandKind::RunShell
                &&& r.path is None
                &&& r.content matches Some(t) && t.len() > 0 && t[0] != '#'
            },
    decreases cs.len(),
{
    if cs.len() > 0 {
        law_shell_blocks_run_commands(cs.drop_last());
        let lines = split_chars(trimmed(group_text(cs.last(), 1)), '\n');
        lemma_script_lines_run(lines);
        let prev = shell_requests(cs.drop_last());
        assert forall|k: int| 0 <= k < shell_requests(cs).len() implies ({
            let r = #[trigger] shell_requests(cs)[k];
            &&& r.kind == CommandKind::RunShell
            &&& r.path is None
            &&& r.content matches Some(t) && t.len() > 0 && t[0] != '#'
        }) by {
            if k < prev.len() {
                assert(shell_requests(cs)[k] == prev[k]);
            } else {
                assert(shell_requests(cs)[k] == script_requests(lines)[k - prev.len()]);
            }
        }
    }
}

proof fn lemma_script_lines_run(lines: Seq<Seq<char>>)
    ensures
        forall|k: int|
            0 <= k < script_requests(lines).len() ==> {
                let r = #[trigger] script_requests(lines)[k];
                &&& r.kind == CommandKind::RunShell
                &&& r.path is None
                &&& r.content matches Some(t) && t.len() > 0 && t[0] != '#'
            },
    decreases lines.len(),
{
    if lines.len() > 0 {
        lemma_script_lines_run(lines.drop_last());
        let prev = script_requests(lines.drop_last());
        assert forall|k: int| 0 <= k < script_requests(lines).len() implies ({
            let r = #[trigger] script_requests(lines)[k];
            &&& r.kind == CommandKind::RunShell
            &&& r.path is None
            &&& r.content matches Some(t) && t.len() > 0 && t[0] != '#'
        }) by {
            if k < prev.len() {
                assert(script_requests(lines)[k] == prev[k]);
            }
        }
    }
}

/// An install line only ever installs: one `InstallDep` per line found,
/// with no path.
pub proof fn law_installs_install(cs: Seq<CaptureModel>)
    ensures
        install_requests(cs).len() == cs.len(),
        forall|k: int|
            0 <= k < cs.len() ==> (#[trigger] install_requests(cs)[k]).kind == CommandKind::InstallDep
                && install_requests(cs)[k].path is None,
{
}

/// An inline "run" hint only ever runs a command: each request it gives is
/// a `RunShell` with no path, whose command is one the hint keeps.
pub proof fn law_run_hints_run(cs: Seq<CaptureModel>)
    ensures
        run_requests(cs).len() <= cs.len(),
        forall|k: int|
            0 <= k < run_requests(cs).len() ==> {
                let r = #[trigger] run_requests(cs)[k];
                &&& r.kind == CommandKind::RunShell
                &&& r.path is None
                &&& r.content matches Some(t) && run_hint_kept(t)
            },
    decreases cs.len(),
{
    if cs.len() > 0 {
        law_run_hints_run(cs.drop_last());
        let prev = run_requests(cs.drop_last());
        assert forall|k: int| 0 <= k < run_requests(cs).len() implies ({
            let r = #[trigger] run_requests(cs)[k];
            &&& r.kind == CommandKind::RunShell
            &&& r.path is None
            &&& r.content matches Some(t) && run_hint_kept(t)
        }) by {
            if k < prev.len() {
                assert(run_requests(cs)[k] == prev[k]);
            }
        }
    }
}

/// A fenced file block gives one request for its file, carrying its
/// trimmed body; with no delete or edit signal around it, that request
/// creates the file, and with an edit signal before it (and no delete
/// signal) it edits it.
pub proof fn law_file_blocks(text: Seq<char>, cs: Seq<CaptureModel>)
    ensures
        file_op_requests(text, cs).len() == cs.len(),
        forall|k: int|
            0 <= k < cs.len() ==> {
                let r = #[trigger] file_op_requests(text, cs)[k];
                let pre = lowercase(pre_context(text, cs[k].start, 120));
                let post = lowercase(post_context(text, cs[k].end, 60));
                &&& r.path == Some(group_text(cs[k], 1))
                &&& r.content == Some(trimmed(group_text(cs[k], 2)))
                &&& (r.kind == CommandKind::CreateFile || r.kind == CommandKind::EditFile || r.kind
                    == CommandKind::DeleteFile)
                &&& (!any_occurs(pre, delete_signals()) && !any_occurs(post, delete_signals())
                    && !any_occurs(pre, edit_signals()) ==> r.kind == CommandKind::CreateFile)
                &&& (!any_occurs(pre, delete_signals()) && !any_occurs(post, delete_signals())
                    && any_occurs(pre, edit_signals()) ==> r.kind == CommandKind::EditFile)
            },
{
}

/// Whether an inline "run" hint is kept: it has a space or at least four
/// bytes, and at most six words.
pub open spec fn run_hint_kept(cmd: Seq<char>) -> bool {
    (cmd.contains(' ') || encode_utf8(cmd).len() >= 4) && word_count(cmd) <= 6
}

pub open spec fn run_requests(cs: Seq<CaptureModel>) -> Seq<Request>
    decreases cs.len(),
{
    if cs.len() == 0 {
        Seq::empty()
    } else {
        let cmd = trimmed(group_text(cs.last(), 1));
        run_requests(cs.drop_last()) + if run_hint_kept(cmd) {
            seq![req(CommandKind::RunShell, None, Some(cmd))]
        } else {
            Seq::empty()
        }
    }
}

/// Drops each request whose path is present and equal to that of the
/// request kept just before it (as `Vec::dedup_by`).
pub open spec fn dedup_paths(rs: Seq<Request>) -> Seq<Request>
    decreases rs.len(),
{
    if rs.len() == 0 {
        Seq::empty()
    } else {
        let d = dedup_paths(rs.drop_last());
        let x = rs.last();
        if d.len() > 0 && x.path is Some && x.path == d.last().path {
            d
        } else {
            d.push(x)
        }
    }
}

/// The request at `i` names a path, and the same one as the request
/// before it.
pub open spec fn repeats_previous_path(rs: Seq<Request>, i: int) -> bool {
    rs[i].path is Some && rs[i].path == rs[i - 1].path
}

/// No two neighbouring requests of a deduplicated list name the same
/// path: after `dedup_paths`, a request with a path never follows one
/// with that path.
pub proof fn law_dedup_leaves_no_neighbouring_repeat(rs: Seq<Request>)
    ensures
        forall|i: int|
            0 < i < dedup_paths(rs).len() ==> !#[trigger] repeats_previous_path(dedup_paths(rs), i),
    decreases rs.len(),
{
    if rs.len() > 0 {
        law_dedup_leaves_no_neighbouring_repeat(rs.drop_last());
        let d = dedup_paths(rs.drop_last());
        let e = dedup_paths(rs);
        assert forall|i: int| 0 < i < e.len() implies !#[trigger] repeats_previous_path(e, i) by {
            if i < d.len() {
                assert(e[i] == d[i]);
                assert(e[i - 1] == d[i - 1]);
                assert(!repeats_previous_path(d, i));
            }
        }
    }
}

/// Deduplicating twice changes nothing: a deduplicated list is already
/// free of neighbouring repeats.
pub proof fn law_dedup_is_idempotent(rs: Seq<Request>)
    ensures
        dedup_paths(dedup_paths(rs)) == dedup_paths(rs),
{
    law_dedup_leaves_no_neighbouring_repeat(rs);
    lemma_dedup_of_repeat_free(dedup_paths(rs));
}

proof fn lemma_dedup_of_repeat_free(rs: Seq<Request>)
    requires
        forall|i: int| 0 < i < rs.len() ==> !#[trigger] repeats_previous_path(rs, i),
    ensures
        dedup_paths(rs) == rs,
    decreases rs.len(),
{
    if rs.len() == 0 {
        assert(rs =~= Seq::<Request>::empty());
    } else {
        let p = rs.drop_last();
        assert forall|i: int| 0 < i < p.len() implies !#[trigger] repeats_previous_path(p, i) by {
            assert(p[i] == rs[i]);
            assert(p[i - 1] == rs[i - 1]);
            assert(!repeats_previous_path(rs, i));
        }
        lemma_dedup_of_repeat_free(p);
        let k = rs.len() - 1;
        let x = rs.last();
        if k > 0 {
            assert(!repeats_previous_path(rs, k));
            assert(p.last() == rs[k - 1]);
        }
        assert(p.push(x) =~= rs);
    }
}

/// Everything the analyzer finds in a reply, in order.
pub open spec fn analysis(text: Seq<char>) -> Seq<Request> {
    dedup_paths(
        file_op_requests(text, caps_of(block_pattern(), text)) + shell_requests(
            caps_of(shell_pattern(), text),
        ) + install_requests(caps_of(install_pattern(), text)) + hint_requests(
            caps_of(hint_pattern(), text),
        ) + run_requests(caps_of(run_pattern(), text)),
    )
}

/// Whether the contexts around every fenced file block can be cut at the
/// byte offsets the analyzer uses without cutting a character (slicing a
/// `str` inside a character panics).
pub open spec fn contexts_cut_whole(text: Seq<char>) -> bool {
    let b = encode_utf8(text);
    forall|i: int|
        0 <= i < caps_of(block_pattern(), text).len() ==> {
            let c = #[trigger] caps_of(block_pattern(), text)[i];
            &&& c.end + 60 <= usize::MAX
            &&& is_char_boundary(b, pre_start(c.start, 120))
            &&& is_char_boundary(b, post_end(b.len() as int, c.end, 60))
        }
}

fn emit(out: &mut Vec<Command>, kind: CommandKind, path: Option<String>, content: Option<String>, Ghost(prior): Ghost<Seq<Request>>)
    requires
        all_fresh_for(old(out)@, prior),
    ensures
        all_fresh_for(final(out)@, prior.push(req(kind, opt_str(path), opt_str(content)))),
{
    let ghost r = req(kind, opt_str(path), opt_str(content));
    let c = Command::new(kind, path, content);
    out.push(c);
    assert forall|i: int| 0 <= i < out@.len() implies (#[trigger] out@[i])@.is_fresh_for(
        prior.push(r)[i],
    ) by {
        if i < old(out)@.len() {
            assert(out@[i] == old(out)@[i]);
        }
    }
}

proof fn lemma_fresh_append(a: Seq<Command>, ra: Seq<Request>, b: Seq<Command>, rb: Seq<Request>)
    requires
        all_fresh_for(a, ra),
        all_fresh_for(b, rb),
    ensures
        all_fresh_for(a + b, ra + rb),
{
    assert forall|i: int| 0 <= i < (a + b).len() implies (#[trigger] (a + b)[i])@.is_fresh_for(
        (ra + rb)[i],
    ) by {
        if i < a.len() {
            assert((a + b)[i] == a[i]);
        } else {
            assert((a + b)[i] == b[i - a.len()]);
        }
    }
}

pub fn captures(pattern: &str, text: &str) -> (v: Vec<Capture>)
    ensures
        v@.map_values(|c: Capture| c@) == caps_of(pattern@, text@),
        forall|i: int|
            0 <= i < v@.len() ==> {
                let c = #[trigger] v@[i];
                &&& c.start <= c.end <= encode_utf8(text@).len()
                &&& is_char_boundary(encode_utf8(text@), c.start as int)
                &&& is_char_boundary(encode_utf8(text@), c.end as int)
            },
{
    match find_captures(pattern, text) {
        Some(v) => v,
        None => {
            let v: Vec<Capture> = Vec::new();
            assert(v@.map_values(|c: Capture| c@) =~= Seq::<CaptureModel>::empty());
            v
        },
    }
}

impl Analyzer {
    fn extract_file_operations(text: &str) -> (out: Vec<Command>)
        requires
            contexts_cut_whole(text@),
        ensures
            all_fresh_for(out@, file_op_requests(text@, caps_of(block_pattern(), text@))),
    {
        let caps = captures("(?m)```[\\w]*\\s+([\\w./\\-]+\\.\\w+)\\n([\\s\\S]*?)```", text);
        let ghost cm = caps@.map_values(|c: Capture| c@);
        let mut out: Vec<Command> = Vec::new();
        let mut i: usize = 0;
        while i < caps.len()
            invariant
                i <= caps@.len(),
                cm == caps@.map_values(|c: Capture| c@),
                cm == caps_of(block_pattern(), text@),
                contexts_cut_whole(text@),
                forall|k: int|
                    0 <= k < caps@.len() ==> {
                        let c = #[trigger] caps@[k];
                        &&& c.start <= c.end <= encode_utf8(text@).len()
                        &&& is_char_boundary(encode_utf8(text@), c.start as int)
                        &&& is_char_boundary(encode_utf8(text@), c.end as int)
                    },
                all_fresh_for(out@, file_op_requests(text@, cm.take(i as int))),
            decreases caps@.len() - i,
        {
            let c = &caps[i];
            assert(cm[i as int] == c@);
            let path = group(c, 1);
            let content = group(c, 2);
            let pre = Self::get_pre_context(text, c.start, 120);
            let post = Self::get_post_context(text, c.end, 60);
            let kind = Self::classify_intent(path.as_str(), pre.as_str(), post.as_str());
            let body = trim_str(content.as_str());
            let ghost before = file_op_requests(text@, cm.take(i as int));
            emit(&mut out, kind, Some(path), Some(body), Ghost(before));
            assert(file_op_requests(text@, cm.take(i + 1)) =~= before.push(file_op_request(text@, c@)));
            i = i + 1;
        }
        assert(cm.take(caps@.len() as int) =~= cm);
        out
    }

    fn extract_shell_commands(text: &str) -> (out: Vec<Command>)
        ensures
            all_fresh_for(out@, shell_requests(caps_of(shell_pattern(), text@))),
    {
        let caps = captures("```(?:bash|sh|shell|zsh)\\n([\\s\\S]*?)```", text);
        let ghost cm = caps@.map_values(|c: Capture| c@);
        let mut out: Vec<Command> = Vec::new();
        let mut i: usize = 0;
        assert(cm.take(0) =~= Seq::<CaptureModel>::empty());
        while i < caps.len()
            invariant
                i <= caps@.len(),
                cm == caps@.map_values(|c: Capture| c@),
                all_fresh_for(out@, shell_requests(cm.take(i as int))),
            decreases caps@.len() - i,
        {
            let c = &caps[i];
            assert(cm[i as int] == c@);
            let raw = trim_str(group(c, 1).as_str());
            let lines = split_on_char(&chars_of(raw.as_str()), '\n');
            let ghost ls = char_parts(lines@);
            let ghost base = shell_requests(cm.take(i as int));
            let mut j: usize = 0;
            assert(ls.take(0) =~= Seq::<Seq<char>>::empty());
            assert(base + script_requests(ls.take(0)) =~= base);
            while j < lines.len()
                invariant
                    j <= lines@.len(),
                    ls == char_parts(lines@),
                    all_fresh_for(out@, base + script_requests(ls.take(j as int))),
                decreases lines@.len() - j,
            {
                let line = trim_chars(&lines[j]);
                let ghost before = base + script_requests(ls.take(j as int));
                assert(ls.take(j + 1).drop_last() =~= ls.take(j as int));
                assert(ls.take(j + 1).last() == lines@[j as int]@);
                let lc = chars_of(line.as_str());
                if lc.len() > 0 && lc[0] != '#' {
                    emit(&mut out, CommandKind::RunShell, None, Some(line), Ghost(before));
                    assert(before.push(req(CommandKind::RunShell, None, Some(lc@))) =~= base + script_requests(ls.take(j + 1)));
                } else {
                    assert(before =~= base + script_requests(ls.take(j + 1)));
                }
                j = j + 1;
            }
            assert(ls.take(lines@.len() as int) =~= ls);
            assert(cm.take(i + 1).drop_last() =~= cm.take(i as int));
            assert(cm.take(i + 1).last() == c@);
            i = i + 1;
        }
        assert(cm.take(caps@.len() as int) =~= cm);
        out
    }

    fn extract_installs(text: &str) -> (out: Vec<Command>)
        ensures
            all_fresh_for(out@, install_requests(caps_of(install_pattern(), text@))),
    {
        let caps = captures("(?m)^\\s*(npm install|yarn add|pip install|cargo add|apt install|apt-get install)\\s+([\\w@/.\\-\\s]+)", text);
        let ghost cm = caps@.map_values(|c: Capture| c@);
        let mut out: Vec<Command> = Vec::new();
        let mut i: usize = 0;
        while i < caps.len()
            invariant
                i <= caps@.len(),
                cm == caps@.map_values(|c: Capture| c@),
                all_fresh_for(out@, install_requests(cm.take(i as int))),
            decreases caps@.len() - i,
        {
            let c = &caps[i];
            assert(cm[i as int] == c@);
            let mut full = trim_str(group(c, 1).as_str());
            push_str(&mut full, " ");
            push_str(&mut full, trim_str(group(c, 2).as_str()).as_str());
            let ghost before = install_requests(cm.take(i as int));
            emit(&mut out, CommandKind::InstallDep, None, Some(full), Ghost(before));
            assert(install_requests(cm.take(i + 1)) =~= before.push(install_request(c@)));
            i = i + 1;
        }
        assert(cm.take(caps@.len() as int) =~= cm);
        out
    }

    fn extract_unformatted_code(text: &str) -> (out: Vec<Command>)
        ensures
            all_fresh_for(out@, hint_requests(caps_of(hint_pattern(), text@)) + run_requests(
                caps_of(run_pattern(), text@),
            )),
    {
        let hints = captures("(?i)(?:create|make|write|add|put in|in)\\s+([\\w./\\-]+\\.\\w+)\\s+(?:with|containing|like|as follows)?:?\\s*\\n((?:[^\\n`]+\\n){2,})", text);
        let ghost hm = hints@.map_values(|c: Capture| c@);
        let mut out: Vec<Command> = Vec::new();
        let mut i: usize = 0;
        assert(hm.take(0) =~= Seq::<CaptureModel>::empty());
        while i < hints.len()
            invariant
                i <= hints@.len(),
                hm == hints@.map_values(|c: Capture| c@),
                all_fresh_for(out@, hint_requests(hm.take(i as int))),
            decreases hints@.len() - i,
        {
            let c = &hints[i];
            assert(hm[i as int] == c@);
            let path = group(c, 1);
            let content = trim_str(group(c, 2).as_str());
            let ghost before = hint_requests(hm.take(i as int));
            assert(hm.take(i + 1).drop_last() =~= hm.take(i as int));
            assert(hm.take(i + 1).last() == c@);
            if Self::looks_like_code(content.as_str()) {
                emit(&mut out, CommandKind::CreateFile, Some(path), Some(content), Ghost(before));
            }
            i = i + 1;
        }
        assert(hm.take(hints@.len() as int) =~= hm);
        let ghost hint_part = hint_requests(hm);
        let runs = captures("(?i)(?:^|\\.\\s+|\\n)(?:run|execute|type|do)\\s+[`']?([\\w][\\w\\s./\\-]{2,40})[`']?", text);
        let ghost rm = runs@.map_values(|c: Capture| c@);
        let mut k: usize = 0;
        assert(rm.take(0) =~= Seq::<CaptureModel>::empty());
        assert(hint_part + run_requests(rm.take(0)) =~= hint_part);
        while k < runs.len()
            invariant
                k <= runs@.len(),
                rm == runs@.map_values(|c: Capture| c@),
                all_fresh_for(out@, hint_part + run_requests(rm.take(k as int))),
            decreases runs@.len() - k,
        {
            let c = &runs[k];
            assert(rm[k as int] == c@);
            let cmd = trim_str(group(c, 1).as_str());
            let cc = chars_of(cmd.as_str());
            let ghost before = hint_part + run_requests(rm.take(k as int));
            assert(rm.take(k + 1).drop_last() =~= rm.take(k as int));
            assert(rm.take(k + 1).last() == c@);
            let short = !has_char(&cc, ' ') && cmd.as_str().as_bytes().len() < 4;
            let wordy = count_words(&cc) > 6;
            if !short && !wordy {
                emit(&mut out, CommandKind::RunShell, None, Some(cmd), Ghost(before));
                assert(before.push(req(CommandKind::RunShell, None, Some(cc@))) =~= hint_part + run_requests(rm.take(k + 1)));
            } else {
                assert(before =~= hint_part + run_requests(rm.take(k + 1)));
            }
            k = k + 1;
        }
        assert(rm.take(runs@.len() as int) =~= rm);
        out
    }

    /// Whether `a` holds a path and `b` holds the same one.
    fn same_present_path(a: &Option<String>, b: &Option<String>) -> (r: bool)
        ensures
            r == (a is Some && opt_str(*a) == opt_str(*b)),
    {
        match (a, b) {
            (Some(x), Some(y)) => str_eq(x.as_str(), y.as_str()),
            _ => false,
        }
    }

    /// Keeps the first of each run of consecutive commands that share a
    /// (present) path.
    fn dedup_by_path(cmds: Vec<Command>, Ghost(reqs): Ghost<Seq<Request>>) -> (out: Vec<Command>)
        requires
            all_fresh_for(cmds@, reqs),
        ensures
            all_fresh_for(out@, dedup_paths(reqs)),
    {
        let mut out: Vec<Command> = Vec::new();
        let mut i: usize = 0;
        assert(reqs.take(0) =~= Seq::<Request>::empty());
        while i < cmds.len()
            invariant
                i <= cmds@.len(),
                all_fresh_for(cmds@, reqs),
                all_fresh_for(out@, dedup_paths(reqs.take(i as int))),
            decreases cmds@.len() - i,
        {
            assert(reqs.take(i + 1).drop_last() =~= reqs.take(i as int));
            assert(reqs.take(i + 1).last() == reqs[i as int]);
            let c = &cmds[i];
            assert(c@.is_fresh_for(reqs[i as int]));
            let ghost d = dedup_paths(reqs.take(i as int));
            let dup = if out.len() > 0 {
                let last = &out[out.len() - 1];
                assert(out@.last() == out@[out@.len() - 1]);
                Self::same_present_path(&c.path, &last.path)
            } else {
                false
            };
            assert(dup == (d.len() > 0 && reqs[i as int].path is Some && reqs[i as int].path
                == d.last().path));
            if !dup {
                let ghost before = out@;
                out.push(c.clone());
                assert forall|k: int| 0 <= k < out@.len() implies (#[trigger] out@[k])@.is_fresh_for(
                    dedup_paths(reqs.take(i + 1))[k],
                ) by {
                    if k < before.len() {
                        assert(out@[k] == before[k]);
                    }
                }
            }
            i = i + 1;
        }
        assert(reqs.take(cmds@.len() as int) =~= reqs);
        out
    }

    /// The commands that an AI reply asks for: fenced files (create, edit
    /// or delete, judged by the surrounding words), shell blocks line by
    /// line, install lines, unfenced file hints that look like code and
    /// short inline "run" hints, in that order, with consecutive commands
    /// on the same path reduced to the first.
    pub fn analyze(response: &str) -> (cmds: Vec<Command>)
        requires
            contexts_cut_whole(response@),
        ensures
            all_fresh_for(cmds@, analysis(response@)),
    {
        let a = Self::extract_file_operations(response);
        let b = Self::extract_shell_commands(response);
        let c = Self::extract_installs(response);
        let d = Self::extract_unformatted_code(response);
        let ghost ra = file_op_requests(response@, caps_of(block_pattern(), response@));
        let ghost rb = shell_requests(caps_of(shell_pattern(), response@));
        let ghost rc = install_requests(caps_of(install_pattern(), response@));
        let ghost rd = hint_requests(caps_of(hint_pattern(), response@)) + run_requests(
            caps_of(run_pattern(), response@),
        );
        let mut commands: Vec<Command> = Vec::new();
        let ghost all = Seq::<Request>::empty();
        let mut a = a;
        let mut b = b;
        let mut c = c;
        let mut d = d;
        let ghost (sa, sb, sc, sd) = (a@, b@, c@, d@);
        commands.append(&mut a);
        commands.append(&mut b);
        commands.append(&mut c);
        commands.append(&mut d);
        proof {
            assert(commands@ =~= sa + sb + sc + sd);
            lemma_fresh_append(sa, ra, sb, rb);
            lemma_fresh_append(sa + sb, ra + rb, sc, rc);
            lemma_fresh_append(sa + sb + sc, ra + rb + rc, sd, rd);
            assert(ra + rb + rc + rd =~= ra + rb + rc + hint_requests(caps_of(hint_pattern(), response@)) + run_requests(caps_of(run_pattern(), response@)));
        }
        Self::dedup_by_path(commands, Ghost(ra + rb + rc + rd))
    }

    /// Whether the reply's file blocks can be analyzed (see
    /// `contexts_cut_whole`).
    pub fn can_analyze(response: &str) -> (ok: bool)
        ensures
            ok == contexts_cut_whole(response@),
    {
        let caps = captures("(?m)```[\\w]*\\s+([\\w./\\-]+\\.\\w+)\\n([\\s\\S]*?)```", response);
        let ghost cm = caps@.map_values(|c: Capture| c@);
        let ghost b = encode_utf8(response@);
        let len = response.as_bytes().len();
        let mut i: usize = 0;
        while i < caps.len()
            invariant
                i <= caps@.len(),
                len == b.len(),
                b == encode_utf8(response@),
                cm == caps@.map_values(|c: Capture| c@),
                cm == caps_of(block_pattern(), response@),
                forall|k: int|
                    0 <= k < i ==> {
                        let c = #[trigger] cm[k];
                        &&& c.end + 60 <= usize::MAX
                        &&& is_char_boundary(b, pre_start(c.start, 120))
                        &&& is_char_boundary(b, post_end(b.len() as int, c.end, 60))
                    },
            decreases caps@.len() - i,
        {
            let c = &caps[i];
            assert(cm[i as int] == c@);
            if c.end > usize::MAX - 60 {
                return false;
            }
            let start = c.start.saturating_sub(120);
            let end = if c.end + 60 <= len { c.end + 60 } else { len };
            if !response.is_char_boundary(start) || !response.is_char_boundary(end) {
                return false;
            }
            i = i + 1;
        }
        true
    }

    /// The commands of an AI reply (see `analyze`), or `None` when its
    /// file blocks cannot be analyzed.
    pub fn try_analyze(response: &str) -> (r: Option<Vec<Command>>)
        ensures
            match r {
                Some(cmds) => contexts_cut_whole(response@) && all_fresh_for(cmds@, analysis(response@)),
                None => !contexts_cut_whole(response@),
            },
    {
        if Self::can_analyze(response) {
            Some(Self::analyze(response))
        } else {
            None
        }
    }
}

} // verus!
