//! The executor's decisions: which operation a command asks for, and
//! what a command records once that operation has been carried out.
//! Carrying operations out (files, processes) is left to the caller.

use vstd::prelude::*;
use crate::text::{
    chars_of, contains_exec, contains_seq, find_from, find_from_exec, occurs_at, push_str,
    char_parts, split_chars, split_on_char, str_eq, string_of_range, trim_str, trimmed,
};
use crate::api::{has_prefix, starts_with};
use crate::types::{Command, CommandKind, CommandModel, CommandStatus, StatusModel, opt_str};
use crate::vibi_lang::parser::unwrap_or_empty;

verus! {

/// The sandbox: the directory under which commands act.
#[derive(Debug)]
pub struct Sandbox {
    pub root: String,
}

impl Sandbox {
    /// A sandbox rooted at `root`.
    pub fn new(root: &str) -> (s: Sandbox)
        ensures
            s.root@ == root@,
    {
        Sandbox { root: root.to_owned() }
    }

    /// The directory in which shell commands run: the sandbox root.
    pub fn working_dir(&self) -> (r: &str)
        ensures
            r@ == self.root@,
    {
        self.root.as_str()
    }
}

/// Whether the canonical path `p` lies inside the canonical directory
/// `root`, comparing whole path components: `p` is `root`, or continues
/// it after a `/`, or `root` is `/` and `p` is absolute.
pub open spec fn within_root(root: Seq<char>, p: Seq<char>) -> bool {
    p == root || has_prefix(p, root + "/"@) || (root == "/"@ && has_prefix(p, "/"@))
}

/// How deep below its starting folder a walk along the path pieces `parts`
/// ends, starting `d` folders down: `..` climbs one, `.` and empty pieces
/// stay, any other piece descends one; `None` once it climbs above the
/// start.
pub open spec fn depth_after(parts: Seq<Seq<char>>, d: int) -> Option<int>
    decreases parts.len(),
{
    if parts.len() == 0 {
        Some(d)
    } else {
        let p = parts[0];
        let nd = if p == ".."@ {
            d - 1
        } else if p == "."@ || p.len() == 0 {
            d
        } else {
            d + 1
        };
        if nd < 0 {
            None
        } else {
            depth_after(parts.skip(1), nd)
        }
    }
}

/// Whether the relative path `rel`, read piece by piece, stays inside the
/// folder it is taken from: it is not absolute and never climbs above it.
pub open spec fn lexically_inside(rel: Seq<char>) -> bool {
    !has_prefix(rel, "/"@) && depth_after(split_chars(rel, '/'), 0) is Some
}

/// Whether `rel` stays inside the sandbox by its text alone (see
/// `lexically_inside`); tested before anything is created on disk.
pub fn stays_inside(rel: &str) -> (r: bool)
    ensures
        r == lexically_inside(rel@),
{
    if starts_with(rel, "/") {
        return false;
    }
    let cs = chars_of(rel);
    let parts = split_on_char(&cs, '/');
    let ghost all = char_parts(parts@);
    let dots = chars_of(".");
    let dotdot = chars_of("..");
    proof {
        reveal_strlit(".");
        reveal_strlit("..");
    }
    let mut depth: usize = 0;
    let mut i: usize = 0;
    assert(all.skip(0) =~= all);
    while i < parts.len()
        invariant
            all == char_parts(parts@),
            all == split_chars(rel@, '/'),
            !has_prefix(rel@, "/"@),
            all.len() == parts@.len(),
            i <= parts@.len(),
            depth <= i,
            dots@ == "."@,
            dotdot@ == ".."@,
            depth_after(all, 0) == depth_after(all.skip(i as int), depth as int),
        decreases parts@.len() - i,
    {
        let ghost rest = all.skip(i as int);
        assert(rest[0] == parts@[i as int]@);
        assert(rest.skip(1) =~= all.skip(i + 1));
        let piece = &parts[i];
        if vec_eq(piece, &dotdot) {
            if depth == 0 {
                assert(rest.len() > 0 && rest[0] == ".."@);
                assert(depth_after(rest, 0) is None);
                return false;
            }
            depth = depth - 1;
        } else if !(vec_eq(piece, &dots) || piece.len() == 0) {
            depth = depth + 1;
        }
        i = i + 1;
    }
    assert(all.skip(i as int).len() == 0);
    true
}

/// Whether two character vectors hold the same characters.
fn vec_eq(a: &Vec<char>, b: &Vec<char>) -> (r: bool)
    ensures
        r == (a@ == b@),
{
    if a.len() != b.len() {
        return false;
    }
    let mut i: usize = 0;
    while i < a.len()
        invariant
            a@.len() == b@.len(),
            i <= a@.len(),
            forall|k: int| 0 <= k < i ==> a@[k] == b@[k],
        decreases a@.len() - i,
    {
        if a[i] != b[i] {
            return false;
        }
        i = i + 1;
    }
    assert(a@ =~= b@);
    true
}

/// Whether the canonical path `p` lies inside the canonical sandbox
/// directory `root` (see `within_root`); a path outside it escapes the
/// sandbox and is refused.
pub fn is_within_root(root: &str, p: &str) -> (r: bool)
    ensures
        r == within_root(root@, p@),
{
    if str_eq(p, root) {
        return true;
    }
    let mut below = text_of(root);
    push_str(&mut below, "/");
    if starts_with(p, below.as_str()) {
        return true;
    }
    str_eq(root, "/") && starts_with(p, "/")
}

/// An operation on the file system or the machine, to be carried out
/// inside the sandbox.
#[derive(Debug)]
pub enum Operation {
    WriteFile { path: String, content: String },
    DeleteFile { path: String },
    CreateFolder { path: String },
    DeleteFolder { path: String },
    Shell { command: String, dir: String },
    MoveFile { src: String, dst: String },
    CopyFile { src: String, dst: String },
    Open { target: String },
    ReadFile { path: String },
    PathTree { dir: String, exclude: Option<String> },
    CloneRepo { url: String, target: String },
    ClonePrivateRepo { url: String, auth_url: String, target: String },
}

/// Mathematical model of an [`Operation`].
pub enum OperationModel {
    WriteFile { path: Seq<char>, content: Seq<char> },
    DeleteFile { path: Seq<char> },
    CreateFolder { path: Seq<char> },
    DeleteFolder { path: Seq<char> },
    Shell { command: Seq<char>, dir: Seq<char> },
    MoveFile { src: Seq<char>, dst: Seq<char> },
    CopyFile { src: Seq<char>, dst: Seq<char> },
    Open { target: Seq<char> },
    ReadFile { path: Seq<char> },
    PathTree { dir: Seq<char>, exclude: Option<Seq<char>> },
    CloneRepo { url: Seq<char>, target: Seq<char> },
    ClonePrivateRepo { url: Seq<char>, auth_url: Seq<char>, target: Seq<char> },
}

impl View for Operation {
    type V = OperationModel;

    open spec fn view(&self) -> OperationModel {
        match self {
            Operation::WriteFile { path, content } => OperationModel::WriteFile { path: path@, content: content@ },
            Operation::DeleteFile { path } => OperationModel::DeleteFile { path: path@ },
            Operation::CreateFolder { path } => OperationModel::CreateFolder { path: path@ },
            Operation::DeleteFolder { path } => OperationModel::DeleteFolder { path: path@ },
            Operation::Shell { command, dir } => OperationModel::Shell { command: command@, dir: dir@ },
            Operation::MoveFile { src, dst } => OperationModel::MoveFile { src: src@, dst: dst@ },
            Operation::CopyFile { src, dst } => OperationModel::CopyFile { src: src@, dst: dst@ },
            Operation::Open { target } => OperationModel::Open { target: target@ },
            Operation::ReadFile { path } => OperationModel::ReadFile { path: path@ },
            Operation::PathTree { dir, exclude } => OperationModel::PathTree { dir: dir@, exclude: opt_str(*exclude) },
            Operation::CloneRepo { url, target } => OperationModel::CloneRepo { url: url@, target: target@ },
            Operation::ClonePrivateRepo { url, auth_url, target } => OperationModel::ClonePrivateRepo {
                url: url@,
                auth_url: auth_url@,
                target: target@,
            },
        }
    }
}

/// What came of carrying out an operation.
#[derive(Debug)]
pub enum Outcome {
    /// It succeeded and has nothing to report.
    Done,
    /// It succeeded and produced this text (file content, tree listing,
    /// or the destination path that a move or copy resolved to).
    Text(String),
    /// A process ran; whether it exited successfully, and its output.
    Process { success: bool, stdout: String, stderr: String },
    /// It failed with this message.
    Failed(String),
}

/// Mathematical model of an [`Outcome`].
pub enum OutcomeModel {
    Done,
    Text(Seq<char>),
    Process { success: bool, stdout: Seq<char>, stderr: Seq<char> },
    Failed(Seq<char>),
}

impl View for Outcome {
    type V = OutcomeModel;

    open spec fn view(&self) -> OutcomeModel {
        match self {
            Outcome::Done => OutcomeModel::Done,
            Outcome::Text(t) => OutcomeModel::Text(t@),
            Outcome::Process { success, stdout, stderr } => OutcomeModel::Process {
                success: *success,
                stdout: stdout@,
                stderr: stderr@,
            },
            Outcome::Failed(e) => OutcomeModel::Failed(e@),
        }
    }
}

pub open spec fn token_marker() -> Seq<char> {
    "|TOKEN:"@
}

/// Splits `url|TOKEN:token` into the URL (the text before the first
/// marker) and the token (the text between the first and the second
/// marker, or to the end); without a marker the token is empty.
pub open spec fn split_url_token(s: Seq<char>) -> (Seq<char>, Seq<char>) {
    let m = token_marker();
    match find_from(s, m, 0) {
        None => (s, Seq::empty()),
        Some(k) => {
            let st = k + m.len();
            (
                s.subrange(0, k),
                match find_from(s, m, st) {
                    None => s.subrange(st, s.len() as int),
                    Some(k2) => s.subrange(st, k2),
                },
            )
        },
    }
}

/// `s` from `i` on, with every occurrence of `pat` (searched left to
/// right, without overlaps) replaced by `rep`.
pub open spec fn replace_from(s: Seq<char>, pat: Seq<char>, rep: Seq<char>, i: int) -> Seq<char>
    decreases s.len() - i,
{
    if i < 0 || i > s.len() || pat.len() == 0 {
        Seq::empty()
    } else {
        match find_from(s, pat, i) {
            None => s.subrange(i, s.len() as int),
            Some(k) => if i <= k && k + pat.len() <= s.len() {
                s.subrange(i, k) + rep + replace_from(s, pat, rep, k + pat.len())
            } else {
                Seq::empty()
            },
        }
    }
}

/// `s` with every occurrence of `pat` replaced by `rep`.
pub open spec fn replace_all(s: Seq<char>, pat: Seq<char>, rep: Seq<char>) -> Seq<char> {
    replace_from(s, pat, rep, 0)
}

/// The clone URL that carries `token`: for an `https://` URL, every
/// `https://` becomes `https://oauth2:<token>@`; other URLs stay as they are.
pub open spec fn authenticated_url(url: Seq<char>, token: Seq<char>) -> Seq<char> {
    if occurs_at(url, "https://"@, 0) {
        replace_all(url, "https://"@, "https://oauth2:"@ + token + "@"@)
    } else {
        url
    }
}

/// Shell text that the agent may not run: once trimmed, it holds `rm -rf`
/// or `rm-rf`, or it is a `cd` (alone or with an argument).
pub open spec fn blocked_command(t: Seq<char>) -> bool {
    let c = trimmed(t);
    contains_seq(c, "rm -rf"@) || contains_seq(c, "rm-rf"@) || c == "cd"@ || occurs_at(c, "cd "@, 0)
}

pub open spec fn path_or_dot(p: Option<Seq<char>>) -> Seq<char> {
    match p {
        Some(p) => p,
        None => "."@,
    }
}

/// The operation that a command asks for, or the message for a field
/// that it lacks.
pub open spec fn plan(c: CommandModel, root: Seq<char>) -> Result<OperationModel, Seq<char>> {
    match c.kind {
        CommandKind::CreateFile | CommandKind::EditFile => match c.path {
            None => Err("No path specified"@),
            Some(p) => Ok(OperationModel::WriteFile { path: p, content: unwrap_or_empty(c.content) }),
        },
        CommandKind::CreateFolder => match c.path {
            None => Err("No path specified"@),
            Some(p) => Ok(OperationModel::CreateFolder { path: p }),
        },
        CommandKind::DeleteFile => match c.path {
            None => Err("No path specified"@),
            Some(p) => Ok(OperationModel::DeleteFile { path: p }),
        },
        CommandKind::DeleteFolder => match c.path {
            None => Err("No path specified"@),
            Some(p) => Ok(OperationModel::DeleteFolder { path: p }),
        },
        CommandKind::RunShell | CommandKind::InstallDep => match c.content {
            None => Err("No command specified"@),
            Some(t) => if blocked_command(t) {
                Err("Command blocked: "@ + t)
            } else {
                Ok(OperationModel::Shell { command: t, dir: root })
            },
        },
        CommandKind::MoveFile | CommandKind::RenameFile | CommandKind::RenameFolder => match c.path {
            None => Err("No source path"@),
            Some(p) => match c.content {
                None => Err("No destination"@),
                Some(d) => Ok(OperationModel::MoveFile { src: p, dst: d }),
            },
        },
        CommandKind::CopyFile => match c.path {
            None => Err("No source path"@),
            Some(p) => match c.content {
                None => Err("No destination"@),
                Some(d) => Ok(OperationModel::CopyFile { src: p, dst: d }),
            },
        },
        CommandKind::OpenFolder | CommandKind::OpenApp => match c.path {
            Some(p) => Ok(OperationModel::Open { target: p }),
            None => match c.content {
                Some(t) => Ok(OperationModel::Open { target: t }),
                None => Err("No target"@),
            },
        },
        CommandKind::ReadFile => match c.path {
            None => Err("No path"@),
            Some(p) => Ok(OperationModel::ReadFile { path: p }),
        },
        CommandKind::PathTree => Ok(OperationModel::PathTree { dir: path_or_dot(c.path), exclude: c.content }),
        CommandKind::DownloadRepo => match c.content {
            None => Err("No URL"@),
            Some(u) => Ok(OperationModel::CloneRepo { url: u, target: path_or_dot(c.path) }),
        },
        CommandKind::DownloadPrivateRepo => match c.content {
            None => Err("No URL+token"@),
            Some(full) => {
                let parts = split_url_token(full);
                Ok(OperationModel::ClonePrivateRepo {
                    url: parts.0,
                    auth_url: authenticated_url(parts.0, parts.1),
                    target: path_or_dot(c.path),
                })
            },
        },
    }
}

/// The text an outcome reports, or `default` when it reports none.
pub open spec fn reported_text(o: OutcomeModel, default: Seq<char>) -> Seq<char> {
    match o {
        OutcomeModel::Text(t) => t,
        OutcomeModel::Process { stdout, .. } => stdout,
        _ => default,
    }
}

/// What a command records once its operation has been carried out: the
/// message of success, or the message of failure.
pub open spec fn outcome_result(op: OperationModel, o: OutcomeModel) -> Result<Seq<char>, Seq<char>> {
    match o {
        OutcomeModel::Failed(e) => Err(e),
        _ => match op {
            OperationModel::WriteFile { path, .. } => Ok("Written: "@ + path),
            OperationModel::DeleteFile { path } => Ok("Deleted: "@ + path),
            OperationModel::CreateFolder { path } => Ok("Created folder: "@ + path),
            OperationModel::DeleteFolder { path } => Ok("Deleted folder: "@ + path),
            OperationModel::MoveFile { src, dst } => Ok("Moved: "@ + src + " -> "@ + reported_text(o, dst)),
            OperationModel::CopyFile { src, dst } => Ok("Copied: "@ + src + " -> "@ + reported_text(o, dst)),
            OperationModel::Open { target } => Ok("Opened: "@ + target),
            OperationModel::ReadFile { .. } => Ok(reported_text(o, Seq::empty())),
            OperationModel::PathTree { .. } => Ok(reported_text(o, Seq::empty())),
            OperationModel::Shell { .. } => match o {
                OutcomeModel::Process { success, stdout, stderr } => if success {
                    Ok(if stdout.len() == 0 { "Done"@ } else { stdout })
                } else {
                    Err(if stderr.len() == 0 { "Command failed"@ } else { stderr })
                },
                _ => Ok(reported_text(o, "Done"@)),
            },
            OperationModel::CloneRepo { url, target } => match o {
                OutcomeModel::Process { success: false, stderr, .. } => Err(stderr),
                _ => Ok("Cloned: "@ + url + " -> "@ + target),
            },
            OperationModel::ClonePrivateRepo { url, target, .. } => match o {
                OutcomeModel::Process { success: false, stderr, .. } => Err(stderr),
                _ => Ok("Cloned private repo: "@ + url + " -> "@ + target),
            },
        },
    }
}

/// A command is planned as the operation its kind names, on the path and
/// text it carries: files are written, deleted or read, folders created or
/// deleted, files moved or copied from its path to its content, and so
/// on; a kind never turns into another operation.
pub proof fn law_plan_follows_kind(c: CommandModel, root: Seq<char>)
    ensures
        (c.kind == CommandKind::CreateFile || c.kind == CommandKind::EditFile) && c.path is Some
            ==> plan(c, root) == Result::<OperationModel, Seq<char>>::Ok(
            OperationModel::WriteFile { path: c.path.unwrap(), content: unwrap_or_empty(c.content) },
        ),
        c.kind == CommandKind::DeleteFile && c.path is Some ==> plan(c, root)
            == Result::<OperationModel, Seq<char>>::Ok(OperationModel::DeleteFile { path: c.path.unwrap() }),
        c.kind == CommandKind::CreateFolder && c.path is Some ==> plan(c, root)
            == Result::<OperationModel, Seq<char>>::Ok(OperationModel::CreateFolder { path: c.path.unwrap() }),
        c.kind == CommandKind::DeleteFolder && c.path is Some ==> plan(c, root)
            == Result::<OperationModel, Seq<char>>::Ok(OperationModel::DeleteFolder { path: c.path.unwrap() }),
        c.kind == CommandKind::ReadFile && c.path is Some ==> plan(c, root)
            == Result::<OperationModel, Seq<char>>::Ok(OperationModel::ReadFile { path: c.path.unwrap() }),
        (c.kind == CommandKind::MoveFile || c.kind == CommandKind::RenameFile || c.kind
            == CommandKind::RenameFolder) && c.path is Some && c.content is Some ==> plan(c, root)
            == Result::<OperationModel, Seq<char>>::Ok(
            OperationModel::MoveFile { src: c.path.unwrap(), dst: c.content.unwrap() },
        ),
        c.kind == CommandKind::CopyFile && c.path is Some && c.content is Some ==> plan(c, root)
            == Result::<OperationModel, Seq<char>>::Ok(
            OperationModel::CopyFile { src: c.path.unwrap(), dst: c.content.unwrap() },
        ),
        (c.kind == CommandKind::RunShell || c.kind == CommandKind::InstallDep) && c.content is Some
            && !blocked_command(c.content.unwrap()) ==> plan(c, root)
            == Result::<OperationModel, Seq<char>>::Ok(
            OperationModel::Shell { command: c.content.unwrap(), dir: root },
        ),
        (c.kind == CommandKind::RunShell || c.kind == CommandKind::InstallDep) && c.content is Some
            && blocked_command(c.content.unwrap()) ==> plan(c, root) is Err,
        (c.kind == CommandKind::OpenFolder || c.kind == CommandKind::OpenApp) && c.path is Some
            ==> plan(c, root) == Result::<OperationModel, Seq<char>>::Ok(
            OperationModel::Open { target: c.path.unwrap() },
        ),
        c.kind == CommandKind::PathTree ==> (plan(c, root) matches Ok(OperationModel::PathTree { exclude, .. })
            && exclude == c.content),
        c.kind == CommandKind::DownloadRepo && c.content is Some ==> (plan(c, root) matches Ok(
            OperationModel::CloneRepo { url, .. },
        ) && url == c.content.unwrap()),
        c.kind == CommandKind::DownloadPrivateRepo && c.content is Some ==> plan(c, root) matches Ok(
            OperationModel::ClonePrivateRepo { .. },
        ),
{
}

/// What a finished command reports names what was done to which path:
/// a deletion reports `Deleted: <path>`, a folder creation `Created
/// folder: <path>`, a write `Written: <path>`, and a failure of the
/// operation reports its error.
pub proof fn law_reports_name_the_operation(c: CommandModel, root: Seq<char>, o: OutcomeModel)
    requires
        c.path is Some,
    ensures
        o is Failed ==> (plan(c, root) matches Ok(op) ==> outcome_result(op, o) == Result::<Seq<char>, Seq<char>>::Err(o->Failed_0)),
        !(o is Failed) && c.kind == CommandKind::DeleteFile ==> (plan(c, root) matches Ok(op) && outcome_result(op, o)
            == Result::<Seq<char>, Seq<char>>::Ok("Deleted: "@ + c.path.unwrap())),
        !(o is Failed) && c.kind == CommandKind::DeleteFolder ==> (plan(c, root) matches Ok(op) && outcome_result(op, o)
            == Result::<Seq<char>, Seq<char>>::Ok("Deleted folder: "@ + c.path.unwrap())),
        !(o is Failed) && c.kind == CommandKind::CreateFolder ==> (plan(c, root) matches Ok(op) && outcome_result(op, o)
            == Result::<Seq<char>, Seq<char>>::Ok("Created folder: "@ + c.path.unwrap())),
        !(o is Failed) && (c.kind == CommandKind::CreateFile || c.kind == CommandKind::EditFile) ==> (plan(c, root) matches Ok(op)
            && outcome_result(op, o) == Result::<Seq<char>, Seq<char>>::Ok("Written: "@ + c.path.unwrap())),
{
}

/// The executor: turns commands into sandboxed operations and records
/// what came of them.
#[derive(Debug)]
pub struct Executor {
    pub sandbox: Sandbox,
}

fn text_of(s: &str) -> (r: String)
    ensures
        r@ == s@,
{
    s.to_owned()
}

/// Splits `url|TOKEN:token` (see `split_url_token`).
pub fn split_token_field(full: &str) -> (r: (String, String))
    ensures
        (r.0@, r.1@) == split_url_token(full@),
{
    let s = chars_of(full);
    let m = chars_of("|TOKEN:");
    let _n = s.len();
    match find_from_exec(&s, &m, 0) {
        None => (string_of_range(&s, 0, s.len()), String::new()),
        Some(k) => {
            proof {
                crate::text::lemma_find_from_found(s@, m@, 0);
            }
            let st = k + m.len();
            let url = string_of_range(&s, 0, k);
            let token = match find_from_exec(&s, &m, st) {
                None => string_of_range(&s, st, s.len()),
                Some(k2) => {
                    proof {
                        crate::text::lemma_find_from_found(s@, m@, st as int);
                    }
                    string_of_range(&s, st, k2)
                },
            };
            (url, token)
        },
    }
}

/// `s` with every occurrence of the non-empty `pat` replaced by `rep`.
pub fn replace_all_exec(s: &str, pat: &str, rep: &str) -> (r: String)
    requires
        pat@.len() > 0,
    ensures
        r@ == replace_all(s@, pat@, rep@),
{
    let cs = chars_of(s);
    let ps = chars_of(pat);
    let n = cs.len();
    let mut out = String::new();
    let mut i: usize = 0;
    loop
        invariant
            i <= cs@.len(),
            n == cs@.len(),
            cs@ == s@,
            ps@ == pat@,
            ps@.len() > 0,
            replace_all(s@, pat@, rep@) == out@ + replace_from(cs@, ps@, rep@, i as int),
        decreases cs@.len() - i,
    {
        proof {
            crate::text::lemma_find_from_found(cs@, ps@, i as int);
        }
        match find_from_exec(&cs, &ps, i) {
            None => {
                let rest = string_of_range(&cs, i, cs.len());
                let ghost before = out@;
                push_str(&mut out, rest.as_str());
                assert(out@ =~= before + replace_from(cs@, ps@, rep@, i as int));
                return out;
            },
            Some(k) => {
                let piece = string_of_range(&cs, i, k);
                let ghost before = out@;
                push_str(&mut out, piece.as_str());
                push_str(&mut out, rep);
                let next = k + ps.len();
                assert(before + replace_from(cs@, ps@, rep@, i as int) =~= out@ + replace_from(
                    cs@,
                    ps@,
                    rep@,
                    next as int,
                ));
                i = next;
            },
        }
    }
}

fn authenticated_url_exec(url: &str, token: &str) -> (r: String)
    ensures
        r@ == authenticated_url(url@, token@),
{
    let cs = chars_of(url);
    let https = chars_of("https://");
    let starts = if https.len() <= cs.len() {
        match find_from_exec(&cs, &https, 0) {
            Some(k) => k == 0,
            None => false,
        }
    } else {
        false
    };
    proof {
        crate::text::lemma_find_from_found(cs@, https@, 0);
    }
    if starts {
        let mut rep = "https://oauth2:".to_owned();
        push_str(&mut rep, token);
        push_str(&mut rep, "@");
        proof {
            reveal_strlit("https://");
        }
        replace_all_exec(url, "https://", rep.as_str())
    } else {
        text_of(url)
    }
}

impl Executor {
    /// An executor for the sandbox rooted at `sandbox_path`. The caller
    /// makes sure the directory exists.
    pub fn new(sandbox_path: &str, _auto_execute: bool) -> (e: Executor)
        ensures
            e.sandbox.root@ == sandbox_path@,
    {
        Executor { sandbox: Sandbox::new(sandbox_path) }
    }

    fn required_path(cmd: &Command, missing: &str) -> (r: Result<String, String>)
        ensures
            match opt_str(cmd.path) {
                Some(p) => r matches Ok(s) && s@ == p,
                None => r matches Err(e) && e@ == missing@,
            },
    {
        match &cmd.path {
            Some(p) => Ok(p.clone()),
            None => Err(text_of(missing)),
        }
    }

    fn required_content(cmd: &Command, missing: &str) -> (r: Result<String, String>)
        ensures
            match opt_str(cmd.content) {
                Some(p) => r matches Ok(s) && s@ == p,
                None => r matches Err(e) && e@ == missing@,
            },
    {
        match &cmd.content {
            Some(p) => Ok(p.clone()),
            None => Err(text_of(missing)),
        }
    }

    fn run_file_write(&self, cmd: &Command) -> (r: Result<Operation, String>)
        requires
            cmd.kind == CommandKind::CreateFile || cmd.kind == CommandKind::EditFile,
        ensures
            match plan(cmd@, self.sandbox.root@) {
                Ok(op) => r matches Ok(o) && o@ == op,
                Err(m) => r matches Err(e) && e@ == m,
            },
    {
        let path = Self::required_path(cmd, "No path specified")?;
        let content = match &cmd.content {
            Some(c) => c.clone(),
            None => String::new(),
        };
        Ok(Operation::WriteFile { path, content })
    }

    fn run_file_delete(&self, cmd: &Command) -> (r: Result<Operation, String>)
        requires
            cmd.kind == CommandKind::DeleteFile,
        ensures
            match plan(cmd@, self.sandbox.root@) {
                Ok(op) => r matches Ok(o) && o@ == op,
                Err(m) => r matches Err(e) && e@ == m,
            },
    {
        let path = Self::required_path(cmd, "No path specified")?;
        Ok(Operation::DeleteFile { path })
    }

    fn run_shell(&self, cmd: &Command) -> (r: Result<Operation, String>)
        requires
            cmd.kind == CommandKind::RunShell || cmd.kind == CommandKind::InstallDep,
        ensures
            match plan(cmd@, self.sandbox.root@) {
                Ok(op) => r matches Ok(o) && o@ == op,
                Err(m) => r matches Err(e) && e@ == m,
            },
    {
        let command = Self::required_content(cmd, "No command specified")?;
        if is_blocked_command(command.as_str()) {
            let mut e = text_of("Command blocked: ");
            push_str(&mut e, command.as_str());
            return Err(e);
        }
        Ok(Operation::Shell { command, dir: text_of(self.sandbox.working_dir()) })
    }

    fn run_folder_create(&self, cmd: &Command) -> (r: Result<Operation, String>)
        requires
            cmd.kind == CommandKind::CreateFolder,
        ensures
            match plan(cmd@, self.sandbox.root@) {
                Ok(op) => r matches Ok(o) && o@ == op,
                Err(m) => r matches Err(e) && e@ == m,
            },
    {
        let path = Self::required_path(cmd, "No path specified")?;
        Ok(Operation::CreateFolder { path })
    }

    fn run_folder_delete(&self, cmd: &Command) -> (r: Result<Operation, String>)
        requires
            cmd.kind == CommandKind::DeleteFolder,
        ensures
            match plan(cmd@, self.sandbox.root@) {
                Ok(op) => r matches Ok(o) && o@ == op,
                Err(m) => r matches Err(e) && e@ == m,
            },
    {
        let path = Self::required_path(cmd, "No path specified")?;
        Ok(Operation::DeleteFolder { path })
    }

    fn run_move_file(&self, cmd: &Command) -> (r: Result<Operation, String>)
        requires
            cmd.kind == CommandKind::MoveFile || cmd.kind == CommandKind::RenameFile
                || cmd.kind == CommandKind::RenameFolder,
        ensures
            match plan(cmd@, self.sandbox.root@) {
                Ok(op) => r matches Ok(o) && o@ == op,
                Err(m) => r matches Err(e) && e@ == m,
            },
    {
        let src = Self::required_path(cmd, "No source path")?;
        let dst = Self::required_content(cmd, "No destination")?;
        Ok(Operation::MoveFile { src, dst })
    }

    fn run_copy_file(&self, cmd: &Command) -> (r: Result<Operation, String>)
        requires
            cmd.kind == CommandKind::CopyFile,
        ensures
            match plan(cmd@, self.sandbox.root@) {
                Ok(op) => r matches Ok(o) && o@ == op,
                Err(m) => r matches Err(e) && e@ == m,
            },
    {
        let src = Self::required_path(cmd, "No source path")?;
        let dst = Self::required_content(cmd, "No destination")?;
        Ok(Operation::CopyFile { src, dst })
    }

    fn run_move_folder(&self, cmd: &Command) -> (r: Result<Operation, String>)
        requires
            cmd.kind == CommandKind::RenameFolder,
        ensures
            match plan(cmd@, self.sandbox.root@) {
                Ok(op) => r matches Ok(o) && o@ == op,
                Err(m) => r matches Err(e) && e@ == m,
            },
    {
        self.run_move_file(cmd)
    }

    fn run_open(&self, cmd: &Command) -> (r: Result<Operation, String>)
        requires
            cmd.kind == CommandKind::OpenFolder || cmd.kind == CommandKind::OpenApp,
        ensures
            match plan(cmd@, self.sandbox.root@) {
                Ok(op) => r matches Ok(o) && o@ == op,
                Err(m) => r matches Err(e) && e@ == m,
            },
    {
        match &cmd.path {
            Some(p) => Ok(Operation::Open { target: p.clone() }),
            None => {
                let target = Self::required_content(cmd, "No target")?;
                Ok(Operation::Open { target })
            },
        }
    }

    fn run_read_file(&self, cmd: &Command) -> (r: Result<Operation, String>)
        requires
            cmd.kind == CommandKind::ReadFile,
        ensures
            match plan(cmd@, self.sandbox.root@) {
                Ok(op) => r matches Ok(o) && o@ == op,
                Err(m) => r matches Err(e) && e@ == m,
            },
    {
        let path = Self::required_path(cmd, "No path")?;
        Ok(Operation::ReadFile { path })
    }

    fn path_or_dot_exec(cmd: &Command) -> (r: String)
        ensures
            r@ == path_or_dot(opt_str(cmd.path)),
    {
        match &cmd.path {
            Some(p) => p.clone(),
            None => text_of("."),
        }
    }

    fn run_path_tree(&self, cmd: &Command) -> (r: Result<Operation, String>)
        requires
            cmd.kind == CommandKind::PathTree,
        ensures
            match plan(cmd@, self.sandbox.root@) {
                Ok(op) => r matches Ok(o) && o@ == op,
                Err(m) => r matches Err(e) && e@ == m,
            },
    {
        let dir = Self::path_or_dot_exec(cmd);
        let exclude = crate::types::clone_opt_string(&cmd.content);
        Ok(Operation::PathTree { dir, exclude })
    }

    fn run_download_repo(&self, cmd: &Command) -> (r: Result<Operation, String>)
        requires
            cmd.kind == CommandKind::DownloadRepo,
        ensures
            match plan(cmd@, self.sandbox.root@) {
                Ok(op) => r matches Ok(o) && o@ == op,
                Err(m) => r matches Err(e) && e@ == m,
            },
    {
        let url = Self::required_content(cmd, "No URL")?;
        Ok(Operation::CloneRepo { url, target: Self::path_or_dot_exec(cmd) })
    }

    fn run_download_private_repo(&self, cmd: &Command) -> (r: Result<Operation, String>)
        requires
            cmd.kind == CommandKind::DownloadPrivateRepo,
        ensures
            match plan(cmd@, self.sandbox.root@) {
                Ok(op) => r matches Ok(o) && o@ == op,
                Err(m) => r matches Err(e) && e@ == m,
            },
    {
        let full = Self::required_content(cmd, "No URL+token")?;
        let (url, token) = split_token_field(full.as_str());
        let auth_url = authenticated_url_exec(url.as_str(), token.as_str());
        Ok(Operation::ClonePrivateRepo { url, auth_url, target: Self::path_or_dot_exec(cmd) })
    }

    /// The operation that `cmd` asks for (see `plan`).
    pub fn plan_operation(&self, cmd: &Command) -> (r: Result<Operation, String>)
        ensures
            match plan(cmd@, self.sandbox.root@) {
                Ok(op) => r matches Ok(o) && o@ == op,
                Err(m) => r matches Err(e) && e@ == m,
            },
    {
        match cmd.kind {
            CommandKind::CreateFile | CommandKind::EditFile => self.run_file_write(cmd),
            CommandKind::CreateFolder => self.run_folder_create(cmd),
            CommandKind::DeleteFile => self.run_file_delete(cmd),
            CommandKind::DeleteFolder => self.run_folder_delete(cmd),
            CommandKind::RunShell | CommandKind::InstallDep => self.run_shell(cmd),
            CommandKind::MoveFile | CommandKind::RenameFile => self.run_move_file(cmd),
            CommandKind::CopyFile => self.run_copy_file(cmd),
            CommandKind::RenameFolder => self.run_move_folder(cmd),
            CommandKind::OpenFolder | CommandKind::OpenApp => self.run_open(cmd),
            CommandKind::ReadFile => self.run_read_file(cmd),
            CommandKind::PathTree => self.run_path_tree(cmd),
            CommandKind::DownloadRepo => self.run_download_repo(cmd),
            CommandKind::DownloadPrivateRepo => self.run_download_private_repo(cmd),
        }
    }

    /// Starts running `cmd`: marks it running and hands back the operation
    /// to carry out; when the command lacks a field its operation needs,
    /// marks it failed with the message instead and hands back nothing.
    pub fn run(&self, cmd: &mut Command) -> (r: Option<Operation>)
        ensures
            final(cmd)@.request() == old(cmd)@.request(),
            final(cmd)@.id == old(cmd)@.id,
            match plan(old(cmd)@, self.sandbox.root@) {
                Ok(op) => r matches Some(o) && o@ == op && final(cmd)@.status == StatusModel::Running
                    && final(cmd)@.output == old(cmd)@.output,
                Err(m) => r is None && final(cmd)@.status == StatusModel::Failed(m)
                    && final(cmd)@.output == Some(m),
            },
    {
        cmd.status = CommandStatus::Running;
        match self.plan_operation(cmd) {
            Ok(op) => Some(op),
            Err(e) => {
                cmd.status = CommandStatus::Failed(e.clone());
                cmd.output = Some(e);
                None
            },
        }
    }

    /// Records what came of carrying out `op` for `cmd`: done with the
    /// success message as output, or failed with the failure message.
    pub fn finish(cmd: &mut Command, op: &Operation, outcome: Outcome) -> (ok: bool)
        ensures
            final(cmd)@.request() == old(cmd)@.request(),
            final(cmd)@.id == old(cmd)@.id,
            match outcome_result(op@, outcome@) {
                Ok(m) => ok && final(cmd)@.status == StatusModel::Done && final(cmd)@.output == Some(m),
                Err(e) => !ok && final(cmd)@.status == StatusModel::Failed(e) && final(cmd)@.output
                    == Some(e),
            },
    {
        let result = Self::outcome_message(op, outcome);
        match result {
            Ok(m) => {
                cmd.status = CommandStatus::Done;
                cmd.output = Some(m);
                true
            },
            Err(e) => {
                cmd.status = CommandStatus::Failed(e.clone());
                cmd.output = Some(e);
                false
            },
        }
    }

    fn joined(a: &str, b: &str, c: &str, d: &str) -> (r: String)
        ensures
            r@ == a@ + b@ + c@ + d@,
    {
        let mut s = text_of(a);
        push_str(&mut s, b);
        push_str(&mut s, c);
        push_str(&mut s, d);
        s
    }

    fn reported(o: &Outcome, default: &str) -> (r: String)
        ensures
            r@ == reported_text(o@, default@),
    {
        match o {
            Outcome::Text(t) => t.clone(),
            Outcome::Process { stdout, .. } => stdout.clone(),
            _ => text_of(default),
        }
    }

    /// The message that carrying out `op` with this outcome leaves.
    pub fn outcome_message(op: &Operation, outcome: Outcome) -> (r: Result<String, String>)
        ensures
            match outcome_result(op@, outcome@) {
                Ok(m) => r matches Ok(s) && s@ == m,
                Err(e) => r matches Err(s) && s@ == e,
            },
    {
        proof {
            reveal_strlit("");
        }
        if let Outcome::Failed(e) = outcome {
            return Err(e);
        }
        match op {
            Operation::WriteFile { path, .. } => Ok(Self::joined("Written: ", path.as_str(), "", "")),
            Operation::DeleteFile { path } => Ok(Self::joined("Deleted: ", path.as_str(), "", "")),
            Operation::CreateFolder { path } => Ok(Self::joined("Created folder: ", path.as_str(), "", "")),
            Operation::DeleteFolder { path } => Ok(Self::joined("Deleted folder: ", path.as_str(), "", "")),
            Operation::MoveFile { src, dst } => {
                let d = Self::reported(&outcome, dst.as_str());
                Ok(Self::joined("Moved: ", src.as_str(), " -> ", d.as_str()))
            },
            Operation::CopyFile { src, dst } => {
                let d = Self::reported(&outcome, dst.as_str());
                Ok(Self::joined("Copied: ", src.as_str(), " -> ", d.as_str()))
            },
            Operation::Open { target } => Ok(Self::joined("Opened: ", target.as_str(), "", "")),
            Operation::ReadFile { .. } => Ok(Self::reported(&outcome, "")),
            Operation::PathTree { .. } => Ok(Self::reported(&outcome, "")),
            Operation::Shell { .. } => match outcome {
                Outcome::Process { success, stdout, stderr } => {
                    if success {
                        if stdout.as_str().is_empty() {
                            Ok(text_of("Done"))
                        } else {
                            Ok(stdout)
                        }
                    } else {
                        if stderr.as_str().is_empty() {
                            Err(text_of("Command failed"))
                        } else {
                            Err(stderr)
                        }
                    }
                },
                _ => Ok(Self::reported(&outcome, "Done")),
            },
            Operation::CloneRepo { url, target } => match outcome {
                Outcome::Process { success: false, stderr, .. } => Err(stderr),
                _ => {
                    let mut s = Self::joined("Cloned: ", url.as_str(), " -> ", target.as_str());
                    Ok(s)
                },
            },
            Operation::ClonePrivateRepo { url, target, .. } => match outcome {
                Outcome::Process { success: false, stderr, .. } => Err(stderr),
                _ => Ok(Self::joined("Cloned private repo: ", url.as_str(), " -> ", target.as_str())),
            },
        }
    }
}

// ---------------------------------------------------------------------
// Paths for moves and copies, and the lines of a path tree.
// ---------------------------------------------------------------------

/// Whether the agent may not run the shell text `t` (see
/// `blocked_command`).
pub fn is_blocked_command(t: &str) -> (r: bool)
    ensures
        r == blocked_command(t@),
{
    let c_str = trim_str(t);
    let c = chars_of(c_str.as_str());
    let rm_spaced = contains_exec(&c, &chars_of("rm -rf"));
    let rm_joined = contains_exec(&c, &chars_of("rm-rf"));
    let lone_cd = str_eq(c_str.as_str(), "cd");
    let cd_arg = starts_with(c_str.as_str(), "cd ");
    proof {
        reveal_strlit("cd ");
        if c@.len() >= 3 {
            assert(c@.subrange(0, 3) =~= c@.take(3));
        }
    }
    rm_spaced || rm_joined || lone_cd || cd_arg
}

/// The directory part of `p` as `std::path::Path::parent` gives it, read
/// back as text; `None` where `p` has none.
pub uninterp spec fn path_parent(p: Seq<char>) -> Option<Seq<char>>;

/// `p` joined onto `dir` as `std::path::Path::join` does it, read back as
/// text.
pub uninterp spec fn path_join(dir: Seq<char>, p: Seq<char>) -> Seq<char>;

/// Calls `std::path::Path::parent` on `p` and reads the parent back with
/// `to_string_lossy`. The contract names the result (`path_parent`) and
/// states what std documents plainly: the empty path and the root `/`
/// have no parent. Which directory std takes from other paths' components
/// is left unsaid.
#[verifier::external_body]
fn parent_of(p: &str) -> (r: Option<String>)
    ensures
        match r {
            Some(d) => path_parent(p@) == Some(d@),
            None => path_parent(p@) is None,
        },
        p@.len() == 0 || p@ == "/"@ ==> r is None,
{
    match std::path::Path::new(p).parent() {
        Some(d) => Some(d.to_string_lossy().to_string()),
        None => None,
    }
}

/// Calls `std::path::Path::join` on `dir` and `p` and reads the result back
/// with `to_string_lossy`. The contract names the result (`path_join`) and
/// states what std documents plainly: an absolute `p` (one that starts
/// with `/`) replaces `dir`. How std places separators otherwise is left
/// unsaid.
#[verifier::external_body]
fn join_path(dir: &str, p: &str) -> (r: String)
    ensures
        r@ == path_join(dir@, p@),
        has_prefix(p@, "/"@) ==> r@ == p@,
{
    std::path::Path::new(dir).join(p).to_string_lossy().to_string()
}

/// The directory that a relative destination is taken from: the parent of
/// `src`, or `.` when it has none.
pub open spec fn parent_or_dot(src: Seq<char>) -> Seq<char> {
    match path_parent(src) {
        Some(d) => d,
        None => "."@,
    }
}

/// Where a move or copy of `src` to `dst` lands: `dst` itself when it is
/// absolute (starts with `/`) or holds `:/`, else `dst` joined onto the
/// directory of `src`.
pub open spec fn destination(src: Seq<char>, dst: Seq<char>) -> Seq<char> {
    if occurs_at(dst, "/"@, 0) || contains_seq(dst, ":/"@) {
        dst
    } else {
        path_join(parent_or_dot(src), dst)
    }
}

/// The path that a move or copy of `src` to `dst` writes to (see
/// `destination`).
pub fn destination_path(src: &str, dst: &str) -> (r: String)
    ensures
        r@ == destination(src@, dst@),
{
    let d = chars_of(dst);
    proof {
        reveal_strlit("/");
    }
    let absolute = if d.len() > 0 {
        d[0] == '/'
    } else {
        false
    };
    proof {
        reveal_strlit("/");
        assert("/"@ =~= seq!['/']);
        if d@.len() > 0 {
            assert(dst@.subrange(0, 1) =~= seq![d@[0]]);
            if occurs_at(dst@, "/"@, 0) {
                assert(dst@.subrange(0, 1)[0] == '/');
            }
        }
        assert(absolute == occurs_at(dst@, "/"@, 0));
    }
    if absolute || contains_exec(&d, &chars_of(":/")) {
        text_of(dst)
    } else {
        let dir = match parent_of(src) {
            Some(p) => p,
            None => text_of("."),
        };
        join_path(dir.as_str(), dst)
    }
}

/// Where a copy of `src` to `dst` lands: its destination, with `(duped)`
/// appended when that is `src` itself, so that the copy never overwrites
/// the file it was made from.
pub open spec fn copy_destination(src: Seq<char>, dst: Seq<char>) -> Seq<char> {
    let d = destination(src, dst);
    if d == src {
        d + "(duped)"@
    } else {
        d
    }
}

/// The path that a copy of `src` to `dst` writes to (see
/// `copy_destination`); it is never `src` itself.
pub fn copy_destination_path(src: &str, dst: &str) -> (r: String)
    ensures
        r@ == copy_destination(src@, dst@),
        r@ != src@,
{
    let mut d = destination_path(src, dst);
    if str_eq(d.as_str(), src) {
        push_str(&mut d, "(duped)");
        proof {
            reveal_strlit("(duped)");
            assert(d@.len() > src@.len());
        }
    }
    d
}

/// One line of a path tree: the prefix, the branch (`└── ` for the last
/// entry of a directory, `├── ` otherwise) and the entry's name.
pub open spec fn tree_line(prefix: Seq<char>, is_last: bool, name: Seq<char>) -> Seq<char> {
    prefix + (if is_last { "└── "@ } else { "├── "@ }) + name + "\n"@
}

/// The prefix of the lines below an entry: the entry's prefix, then a
/// space under the last entry or a bar under the others, then three
/// spaces.
pub open spec fn child_prefix(prefix: Seq<char>, is_last: bool) -> Seq<char> {
    prefix + (if is_last { " "@ } else { "│"@ }) + "   "@
}

/// Writes one line of a path tree (see `tree_line`).
pub fn tree_line_text(prefix: &str, is_last: bool, name: &str) -> (r: String)
    ensures
        r@ == tree_line(prefix@, is_last, name@),
{
    let mut r = text_of(prefix);
    push_str(&mut r, if is_last { "└── " } else { "├── " });
    push_str(&mut r, name);
    push_str(&mut r, "\n");
    r
}

/// The prefix for the entries inside a directory (see `child_prefix`).
pub fn child_prefix_text(prefix: &str, is_last: bool) -> (r: String)
    ensures
        r@ == child_prefix(prefix@, is_last),
{
    let mut r = text_of(prefix);
    push_str(&mut r, if is_last { " " } else { "│" });
    push_str(&mut r, "   ");
    r
}

} // verus!
