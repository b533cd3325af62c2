//! Projects created from the new-project form, and drafts saved from it.

use vstd::prelude::*;
use std::collections::HashMap;
use crate::api::has_prefix;
use crate::text::{
    char_parts, chars_of, lemma_split_chars_first, lemma_split_chars_len, push_str, split_chars,
    split_on_char, str_eq, string_of_range, trim_str, trimmed,
};
use crate::types::fresh_command_id;

verus! {

/// A project of the workspace.
#[derive(Debug)]
pub struct Project {
    pub id: String,
    pub uuid: String,
    pub name: String,
    pub category: String,
    pub directory: String,
    pub files: HashMap<String, String>,
    pub linked_chat: Option<String>,
    pub github_link: Option<String>,
}

/// A project form saved for later.
#[derive(Debug)]
pub struct DraftProject {
    pub name: String,
    pub directory: String,
    pub github_link: Option<String>,
    pub github_user: Option<String>,
    pub is_private: bool,
    pub has_token: bool,
    pub token: Option<String>,
}

/// Empty text stands for no value.
pub open spec fn non_empty(s: Seq<char>) -> Option<Seq<char>> {
    if s.len() == 0 {
        None
    } else {
        Some(s)
    }
}

pub open spec fn opt_view(o: Option<String>) -> Option<Seq<char>> {
    match o {
        Some(s) => Some(s@),
        None => None,
    }
}

fn non_empty_text(s: &str) -> (r: Option<String>)
    ensures
        opt_view(r) == non_empty(s@),
{
    if chars_of(s).len() == 0 {
        None
    } else {
        Some(s.to_owned())
    }
}

/// The project the form makes: none unless both the name and the
/// directory hold more than white space; otherwise a project named by the
/// trimmed name, in a sandbox directory of that name, in the `custom`
/// category, with a fresh identifier (used as both `id` and `uuid`), no
/// files, no linked chat, and the GitHub link when one was given.
pub fn project_from_form(name: &str, directory: &str, github: &str) -> (r: Option<Project>)
    ensures
        trimmed(name@).len() == 0 || trimmed(directory@).len() == 0 ==> r is None,
        trimmed(name@).len() > 0 && trimmed(directory@).len() > 0 ==> (r matches Some(p) && {
            &&& p.name@ == trimmed(name@)
            &&& p.directory@ == trimmed(name@)
            &&& p.category@ == "custom"@
            &&& p.id@ == p.uuid@
            &&& p.id@.len() == 36
            &&& p.files@.len() == 0
            &&& p.linked_chat is None
            &&& opt_view(p.github_link) == non_empty(github@)
        }),
{
    let n = trim_str(name);
    let d = trim_str(directory);
    if chars_of(n.as_str()).len() == 0 || chars_of(d.as_str()).len() == 0 {
        return None;
    }
    let id = fresh_command_id();
    let files: HashMap<String, String> = HashMap::new();
    Some(Project {
        id: id.clone(),
        uuid: id,
        name: n.clone(),
        category: "custom".to_owned(),
        directory: n,
        files,
        linked_chat: None,
        github_link: non_empty_text(github),
    })
}

/// The draft the form saves: the fields as typed, empty ones left out.
pub fn draft_from_form(
    name: &str,
    directory: &str,
    github: &str,
    github_user: &str,
    is_private: bool,
    has_token: bool,
    token: &str,
) -> (d: DraftProject)
    ensures
        d.name@ == name@,
        d.directory@ == directory@,
        opt_view(d.github_link) == non_empty(github@),
        opt_view(d.github_user) == non_empty(github_user@),
        d.is_private == is_private,
        d.has_token == has_token,
        opt_view(d.token) == non_empty(token@),
{
    DraftProject {
        name: name.to_owned(),
        directory: directory.to_owned(),
        github_link: non_empty_text(github),
        github_user: non_empty_text(github_user),
        is_private,
        has_token,
        token: non_empty_text(token),
    }
}

/// The `.vibecode` file written into a new project's directory.
pub open spec fn vibecode(uuid: Seq<char>, name: Seq<char>, created: Seq<char>) -> Seq<char> {
    "uuid="@ + uuid + "\nid="@ + uuid + "\nname="@ + name + "\ncreated="@ + created + "\n"@
}

/// Writes the `.vibecode` file's text (see `vibecode`).
pub fn vibecode_text(uuid: &str, name: &str, created: &str) -> (r: String)
    ensures
        r@ == vibecode(uuid@, name@, created@),
{
    let mut r = String::new();
    proof {
        reveal_strlit("");
    }
    push_str(&mut r, "uuid=");
    push_str(&mut r, uuid);
    push_str(&mut r, "\nid=");
    push_str(&mut r, uuid);
    push_str(&mut r, "\nname=");
    push_str(&mut r, name);
    push_str(&mut r, "\ncreated=");
    push_str(&mut r, created);
    push_str(&mut r, "\n");
    r
}


/// `line` without one trailing carriage return.
pub open spec fn strip_cr(line: Seq<char>) -> Seq<char> {
    if line.len() > 0 && line.last() == '\r' {
        line.drop_last()
    } else {
        line
    }
}

/// The text after `key` on the first of `lines` that starts with it, each
/// line but the last read without a trailing carriage return (the last
/// one was not ended by a line feed).
pub open spec fn line_field_in(lines: Seq<Seq<char>>, key: Seq<char>) -> Option<Seq<char>>
    decreases lines.len(),
{
    if lines.len() == 0 {
        None
    } else {
        let line = if lines.len() > 1 {
            strip_cr(lines[0])
        } else {
            lines[0]
        };
        if has_prefix(line, key) {
            Some(line.skip(key.len() as int))
        } else {
            line_field_in(lines.skip(1), key)
        }
    }
}

/// The text after `key` on the first line of `data` that starts with it,
/// where lines end at a line feed or a carriage return and line feed.
pub open spec fn line_field(data: Seq<char>, key: Seq<char>) -> Option<Seq<char>> {
    line_field_in(split_chars(data, '\n'), key)
}

/// The text after `key` on `line` (without a trailing carriage return
/// when `strip` holds), if `line` starts with `key`.
fn field_after_key(line: &Vec<char>, strip: bool, key: &Vec<char>) -> (r: Option<String>)
    ensures
        ({
            let l = if strip {
                strip_cr(line@)
            } else {
                line@
            };
            opt_view(r) == (if has_prefix(l, key@) {
                Some(l.skip(key@.len() as int))
            } else {
                None
            })
        }),
{
    let n = line.len();
    let end: usize = if strip && n > 0 && line[n - 1] == '\r' {
        n - 1
    } else {
        n
    };
    let ghost l = line@.subrange(0, end as int);
    assert(l =~= (if strip {
        strip_cr(line@)
    } else {
        line@
    }));
    if key.len() > end {
        return None;
    }
    let mut k: usize = 0;
    while k < key.len()
        invariant
            key@.len() <= end <= line@.len(),
            l == line@.subrange(0, end as int),
            k <= key@.len(),
            forall|j: int| 0 <= j < k ==> line@[j] == key@[j],
        decreases key@.len() - k,
    {
        if line[k] != key[k] {
            assert(l.take(key@.len() as int)[k as int] != key@[k as int]);
            return None;
        }
        k = k + 1;
    }
    assert(l.take(key@.len() as int) =~= key@);
    let v = string_of_range(line, key.len(), end);
    assert(v@ =~= l.skip(key@.len() as int));
    Some(v)
}

/// The text after `key` on the first line of `data` that starts with it
/// (see `line_field`).
pub fn find_line_field(data: &str, key: &str) -> (r: Option<String>)
    ensures
        opt_view(r) == line_field(data@, key@),
{
    let cs = chars_of(data);
    let kc = chars_of(key);
    let lines = split_on_char(&cs, '\n');
    let ghost all = char_parts(lines@);
    let mut i: usize = 0;
    assert(all.skip(0) =~= all);
    while i < lines.len()
        invariant
            all == char_parts(lines@),
            all.len() == lines@.len(),
            i <= lines@.len(),
            kc@ == key@,
            line_field(data@, key@) == line_field_in(all.skip(i as int), key@),
        decreases lines@.len() - i,
    {
        let ghost rest = all.skip(i as int);
        assert(rest[0] == lines@[i as int]@);
        assert(rest.len() > 1 <==> i + 1 < lines@.len());
        let f = field_after_key(&lines[i], i + 1 < lines.len(), &kc);
        if f.is_some() {
            return f;
        }
        assert(rest.skip(1) =~= all.skip(i + 1));
        i = i + 1;
    }
    assert(all.skip(i as int).len() == 0);
    None
}

/// The project that a sandbox directory named `dir` holds, read from its
/// `.vibecode` text `data`: the name from its `name=` line (else `dir`),
/// the uuid from its `uuid=` line (else a fresh one), the id from its
/// `id=` line (else the uuid), in the `custom` category, with no files,
/// no linked chat and no GitHub link.
pub fn project_from_vibecode(data: &str, dir: &str) -> (p: Project)
    ensures
        p.name@ == (match line_field(data@, "name="@) {
            Some(v) => v,
            None => dir@,
        }),
        line_field(data@, "uuid="@) matches Some(u) ==> p.uuid@ == u,
        line_field(data@, "uuid="@) is None ==> p.uuid@.len() == 36,
        p.id@ == (match line_field(data@, "id="@) {
            Some(v) => v,
            None => p.uuid@,
        }),
        p.category@ == "custom"@,
        p.directory@ == dir@,
        p.files@.len() == 0,
        p.linked_chat is None,
        p.github_link is None,
{
    let name = match find_line_field(data, "name=") {
        Some(v) => v,
        None => dir.to_owned(),
    };
    let uuid = match find_line_field(data, "uuid=") {
        Some(v) => v,
        None => fresh_command_id(),
    };
    let id = match find_line_field(data, "id=") {
        Some(v) => v,
        None => uuid.clone(),
    };
    let files: HashMap<String, String> = HashMap::new();
    Project {
        id,
        uuid,
        name,
        category: "custom".to_owned(),
        directory: dir.to_owned(),
        files,
        linked_chat: None,
        github_link: None,
    }
}

/// Whether some project of `projects` has the uuid `uuid`.
pub open spec fn has_uuid(projects: Seq<Project>, uuid: Seq<char>) -> bool {
    exists|i: int| 0 <= i < projects.len() && #[trigger] projects[i].uuid@ == uuid
}

/// Adds `p` to `projects` unless a project with its uuid is listed already.
pub fn add_project_if_new(projects: &mut Vec<Project>, p: Project)
    ensures
        has_uuid(old(projects)@, p.uuid@) ==> final(projects)@ == old(projects)@,
        !has_uuid(old(projects)@, p.uuid@) ==> final(projects)@ == old(projects)@.push(p),
{
    let mut i: usize = 0;
    while i < projects.len()
        invariant
            i <= projects@.len(),
            projects@ == old(projects)@,
            forall|j: int| 0 <= j < i ==> projects@[j].uuid@ != p.uuid@,
        decreases projects@.len() - i,
    {
        if str_eq(projects[i].uuid.as_str(), p.uuid.as_str()) {
            return;
        }
        i = i + 1;
    }
    projects.push(p);
}


/// Text that fits on one line of a `.vibecode` file: no line feed, and no
/// carriage return at its end.
pub open spec fn single_line(s: Seq<char>) -> bool {
    !s.contains('\n') && !(s.len() > 0 && s.last() == '\r')
}

proof fn lemma_line_then_rest(key: Seq<char>, v: Seq<char>, rest: Seq<char>, k: Seq<char>)
    requires
        single_line(v),
        !key.contains('\n'),
        key.len() > 0,
        key.last() != '\r',
    ensures
        line_field(key + v + "\n"@ + rest, k) == (if has_prefix(key + v, k) {
            Some((key + v).skip(k.len() as int))
        } else {
            line_field(rest, k)
        }),
{
    reveal_strlit("\n");
    let line = key + v;
    assert(!line.contains('\n')) by {
        if line.contains('\n') {
            let j = choose|j: int| 0 <= j < line.len() && line[j] == '\n';
            if j < key.len() {
                assert(key[j] == '\n');
            } else {
                assert(v[j - key.len()] == '\n');
            }
        }
    }
    assert(key + v + "\n"@ + rest =~= line + seq!['\n'] + rest);
    lemma_split_chars_first(line, '\n', rest);
    let lines = seq![line] + split_chars(rest, '\n');
    lemma_split_chars_len(rest, '\n');
    assert(lines.len() > 1);
    assert(lines[0] == line);
    if v.len() > 0 {
        assert(line.last() == v.last());
    } else {
        assert(line =~= key);
    }
    assert(strip_cr(line) == line);
    assert(lines.skip(1) =~= split_chars(rest, '\n'));
}

/// Reading back a written `.vibecode` file: its `uuid=` and `id=` lines
/// give the uuid and its `name=` line gives the name it was written with,
/// for a uuid and a name that fit on one line.
pub proof fn law_vibecode_round_trip(uuid: Seq<char>, name: Seq<char>, created: Seq<char>)
    requires
        single_line(uuid),
        single_line(name),
    ensures
        line_field(vibecode(uuid, name, created), "uuid="@) == Some(uuid),
        line_field(vibecode(uuid, name, created), "id="@) == Some(uuid),
        line_field(vibecode(uuid, name, created), "name="@) == Some(name),
{
    reveal_strlit("uuid=");
    reveal_strlit("id=");
    reveal_strlit("name=");
    reveal_strlit("created=");
    reveal_strlit("\nid=");
    reveal_strlit("\nname=");
    reveal_strlit("\ncreated=");
    reveal_strlit("\n");
    let tail3 = "created="@ + created + "\n"@;
    let tail2 = "name="@ + name + "\n"@ + tail3;
    let tail1 = "id="@ + uuid + "\n"@ + tail2;
    let text = vibecode(uuid, name, created);
    assert(text =~= "uuid="@ + uuid + "\n"@ + tail1);
    assert(!"uuid="@.contains('\n'));
    assert(!"id="@.contains('\n'));
    assert(!"name="@.contains('\n'));
    lemma_line_then_rest("uuid="@, uuid, tail1, "uuid="@);
    lemma_line_then_rest("uuid="@, uuid, tail1, "id="@);
    lemma_line_then_rest("uuid="@, uuid, tail1, "name="@);
    lemma_line_then_rest("id="@, uuid, tail2, "id="@);
    lemma_line_then_rest("id="@, uuid, tail2, "name="@);
    lemma_line_then_rest("name="@, name, tail3, "name="@);
    assert(("uuid="@ + uuid).take(5) =~= "uuid="@);
    assert(("uuid="@ + uuid).skip(5) =~= uuid);
    assert(("id="@ + uuid).take(3) =~= "id="@);
    assert(("id="@ + uuid).skip(3) =~= uuid);
    assert(("name="@ + name).take(5) =~= "name="@);
    assert(("name="@ + name).skip(5) =~= name);
    assert(("uuid="@ + uuid)[0] == 'u');
    assert(("id="@ + uuid)[0] == 'i');
}

} // verus!
