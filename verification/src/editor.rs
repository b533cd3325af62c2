//! Small rules of the code editor: the order and depth of the file tree,
//! which of its folders are folded, the icon shown for a file, and the
//! dashboard greeting.

use vstd::prelude::*;
use crate::chat_store::{first_index_of, lemma_first_index_of, lemma_first_index_none, lemma_first_index_unique};
use crate::text::{chars_of, lowercase, str_eq, string_of_range, to_lowercase};

verus! {

// ---------------------------------------------------------------------
// Order and depth of the file tree.
// ---------------------------------------------------------------------

/// One entry of a directory listed in the file tree.
#[derive(Debug)]
pub struct TreeEntry {
    pub name: String,
    pub is_dir: bool,
}

/// The deepest level of folders whose entries the file tree lists; the
/// top directory is level 0.
pub const TREE_DEPTH_LIMIT: i32 = 6;

/// Whether the file tree lists the entries of a folder at `depth`.
pub fn lists_entries_at(depth: i32) -> (r: bool)
    ensures
        r == (depth <= TREE_DEPTH_LIMIT),
{
    depth <= TREE_DEPTH_LIMIT
}

/// `a` comes no later than `b` in character order, comparing character
/// by character, a prefix first.
pub open spec fn name_le(a: Seq<char>, b: Seq<char>) -> bool
    decreases a.len(),
{
    if a.len() == 0 {
        true
    } else if b.len() == 0 {
        false
    } else if a[0] != b[0] {
        a[0] < b[0]
    } else {
        name_le(a.drop_first(), b.drop_first())
    }
}

/// Entry `x` may stand before entry `y` in the file tree: folders before
/// files, and by name among folders and among files.
pub open spec fn tree_before(x: TreeEntry, y: TreeEntry) -> bool {
    if x.is_dir != y.is_dir {
        x.is_dir
    } else {
        name_le(x.name@, y.name@)
    }
}

/// The entries are in file-tree order.
pub open spec fn tree_sorted(s: Seq<TreeEntry>) -> bool {
    forall|i: int, j: int| 0 <= i < j < s.len() ==> tree_before(#[trigger] s[i], #[trigger] s[j])
}

proof fn lemma_name_le_total(a: Seq<char>, b: Seq<char>)
    ensures
        name_le(a, b) || name_le(b, a),
    decreases a.len(),
{
    if a.len() > 0 && b.len() > 0 && a[0] == b[0] {
        lemma_name_le_total(a.drop_first(), b.drop_first());
    }
}

proof fn lemma_name_le_transitive(a: Seq<char>, b: Seq<char>, c: Seq<char>)
    requires
        name_le(a, b),
        name_le(b, c),
    ensures
        name_le(a, c),
    decreases a.len(),
{
    if a.len() > 0 && b.len() > 0 && c.len() > 0 && a[0] == b[0] && b[0] == c[0] {
        lemma_name_le_transitive(a.drop_first(), b.drop_first(), c.drop_first());
    }
}

proof fn lemma_tree_before_total(x: TreeEntry, y: TreeEntry)
    ensures
        tree_before(x, y) || tree_before(y, x),
{
    lemma_name_le_total(x.name@, y.name@);
}

proof fn lemma_tree_before_transitive(x: TreeEntry, y: TreeEntry, z: TreeEntry)
    requires
        tree_before(x, y),
        tree_before(y, z),
    ensures
        tree_before(x, z),
{
    if x.is_dir == y.is_dir && y.is_dir == z.is_dir {
        lemma_name_le_transitive(x.name@, y.name@, z.name@);
    }
}

/// Whether `a` comes no later than `b` (see `name_le`).
pub fn name_comes_first(a: &str, b: &str) -> (r: bool)
    ensures
        r == name_le(a@, b@),
{
    let x = chars_of(a);
    let y = chars_of(b);
    let mut i: usize = 0;
    assert(x@.skip(0) =~= x@);
    assert(y@.skip(0) =~= y@);
    while i < x.len() && i < y.len() && x[i] == y[i]
        invariant
            i <= x@.len(),
            i <= y@.len(),
            name_le(a@, b@) == name_le(x@.skip(i as int), y@.skip(i as int)),
            x@ == a@,
            y@ == b@,
        decreases x@.len() - i,
    {
        assert(x@.skip(i as int).drop_first() =~= x@.skip(i + 1));
        assert(y@.skip(i as int).drop_first() =~= y@.skip(i + 1));
        i = i + 1;
    }
    if i == x.len() {
        true
    } else if i == y.len() {
        false
    } else {
        assert(x@.skip(i as int)[0] == x@[i as int]);
        assert(y@.skip(i as int)[0] == y@[i as int]);
        x[i] < y[i]
    }
}

/// Whether entry `x` may stand before entry `y` (see `tree_before`).
fn entry_comes_first(x: &TreeEntry, y: &TreeEntry) -> (r: bool)
    ensures
        r == tree_before(*x, *y),
{
    if x.is_dir != y.is_dir {
        x.is_dir
    } else {
        name_comes_first(x.name.as_str(), y.name.as_str())
    }
}

/// The entries of a directory in the order the file tree shows them:
/// folders first, then files, each by name.
pub fn tree_order(entries: Vec<TreeEntry>) -> (r: Vec<TreeEntry>)
    ensures
        r@.to_multiset() == entries@.to_multiset(),
        tree_sorted(r@),
{
    broadcast use vstd::seq_lib::group_to_multiset_ensures, vstd::multiset::group_multiset_axioms;

    let mut rest = entries;
    let mut out: Vec<TreeEntry> = Vec::new();
    assert(out@.to_multiset() =~= vstd::multiset::Multiset::empty());
    while rest.len() > 0
        invariant
            out@.to_multiset().add(rest@.to_multiset()) == entries@.to_multiset(),
            tree_sorted(out@),
        decreases rest@.len(),
    {
        let ghost before = rest@;
        let x = rest.pop().unwrap();
        assert(before =~= rest@.push(x));
        let mut k: usize = 0;
        while k < out.len() && entry_comes_first(&out[k], &x)
            invariant
                k <= out@.len(),
                forall|i: int| 0 <= i < k ==> tree_before(#[trigger] out@[i], x),
            decreases out@.len() - k,
        {
            k = k + 1;
        }
        let ghost old_out = out@;
        proof {
            if k < old_out.len() {
                lemma_tree_before_total(old_out[k as int], x);
                assert forall|j: int| k <= j < old_out.len() implies tree_before(x, #[trigger] old_out[j]) by {
                    if j > k {
                        lemma_tree_before_transitive(x, old_out[k as int], old_out[j]);
                    }
                }
            }
        }
        out.insert(k, x);
        proof {
            assert forall|i: int, j: int| 0 <= i < j < out@.len() implies tree_before(
                #[trigger] out@[i],
                #[trigger] out@[j],
            ) by {
                if j < k {
                    assert(out@[i] == old_out[i] && out@[j] == old_out[j]);
                } else if j == k {
                    assert(out@[i] == old_out[i]);
                } else if i < k {
                    assert(out@[i] == old_out[i] && out@[j] == old_out[j - 1]);
                    assert(tree_before(x, old_out[j - 1]));
                    lemma_tree_before_transitive(old_out[i], x, old_out[j - 1]);
                } else if i == k {
                    assert(out@[j] == old_out[j - 1]);
                } else {
                    assert(out@[i] == old_out[i - 1] && out@[j] == old_out[j - 1]);
                }
            }
            vstd::seq_lib::to_multiset_insert(old_out, k as int, x);
            vstd::seq_lib::to_multiset_build(rest@, x);
            assert(out@.to_multiset() == old_out.to_multiset().insert(x));
            assert(before.to_multiset() == rest@.to_multiset().insert(x));
            assert(out@.to_multiset().add(rest@.to_multiset()) =~= old_out.to_multiset().add(before.to_multiset()));
        }
    }
    assert(rest@.to_multiset() =~= vstd::multiset::Multiset::empty());
    assert(out@.to_multiset().add(rest@.to_multiset()) =~= out@.to_multiset());
    out
}

// ---------------------------------------------------------------------
// Folded folders.
// ---------------------------------------------------------------------

/// The paths of the folder entries, in order.
pub open spec fn folder_paths(es: Seq<(Seq<char>, bool)>) -> Seq<Seq<char>> {
    es.map_values(|e: (Seq<char>, bool)| e.0)
}

/// Whether the folder at `path` is folded: as recorded, and folded when
/// nothing is recorded (folders start folded).
pub open spec fn is_collapsed(es: Seq<(Seq<char>, bool)>, path: Seq<char>) -> bool {
    match first_index_of(folder_paths(es), path) {
        Some(i) => es[i].1,
        None => true,
    }
}

/// The record after the folder at `path` is folded or unfolded.
pub open spec fn toggled(es: Seq<(Seq<char>, bool)>, path: Seq<char>) -> Seq<(Seq<char>, bool)> {
    match first_index_of(folder_paths(es), path) {
        Some(i) => es.update(i, (path, !es[i].1)),
        None => es.push((path, false)),
    }
}

proof fn lemma_toggled_paths(es: Seq<(Seq<char>, bool)>, path: Seq<char>)
    ensures
        match first_index_of(folder_paths(es), path) {
            Some(i) => folder_paths(toggled(es, path)) == folder_paths(es),
            None => folder_paths(toggled(es, path)) == folder_paths(es).push(path),
        },
{
    lemma_first_index_of(folder_paths(es), path);
    match first_index_of(folder_paths(es), path) {
        Some(i) => {
            assert(folder_paths(toggled(es, path)) =~= folder_paths(es));
        },
        None => {
            assert(folder_paths(toggled(es, path)) =~= folder_paths(es).push(path));
        },
    }
}

/// Folding or unfolding a folder flips its state and leaves every other
/// folder as it was.
pub proof fn law_toggle_flips_one_folder(es: Seq<(Seq<char>, bool)>, path: Seq<char>, other: Seq<char>)
    requires
        other != path,
    ensures
        is_collapsed(toggled(es, path), path) == !is_collapsed(es, path),
        is_collapsed(toggled(es, path), other) == is_collapsed(es, other),
{
    let ps = folder_paths(es);
    let t = toggled(es, path);
    let ts = folder_paths(t);
    lemma_first_index_of(ps, path);
    lemma_first_index_of(ps, other);
    lemma_toggled_paths(es, path);
    match first_index_of(ps, path) {
        Some(i) => {
            match first_index_of(ps, other) {
                Some(j) => {
                    assert(ps[j] == es[j].0);
                    assert(ps[i] == es[i].0);
                    assert(t[j] == es[j]);
                },
                None => {},
            }
        },
        None => {
            lemma_first_index_unique(ts, path, ps.len() as int);
            match first_index_of(ps, other) {
                Some(j) => {
                    assert(forall|k: int| 0 <= k < j ==> ts[k] == ps[k]);
                    lemma_first_index_unique(ts, other, j);
                    assert(t[j] == es[j]);
                },
                None => {
                    assert(ts[ps.len() as int] == path);
                    lemma_first_index_none(ts, other);
                },
            }
        },
    }
}

/// Folding a folder twice leaves it as it was.
pub proof fn law_toggle_twice_restores(es: Seq<(Seq<char>, bool)>, path: Seq<char>)
    ensures
        is_collapsed(toggled(toggled(es, path), path), path) == is_collapsed(es, path),
{
    assert(path.push('/') != path) by {
        assert(path.push('/').len() == path.len() + 1);
    }
    law_toggle_flips_one_folder(es, path, path.push('/'));
    law_toggle_flips_one_folder(toggled(es, path), path, path.push('/'));
}

/// Which folders of the file tree are folded.
#[derive(Debug)]
pub struct FolderState {
    entries: Vec<(String, bool)>,
}

impl FolderState {
    /// The recorded folders.
    pub closed spec fn model(&self) -> Seq<(Seq<char>, bool)> {
        self.entries@.map_values(|e: (String, bool)| (e.0@, e.1))
    }

    /// No folder recorded: every folder starts folded.
    pub fn new() -> (s: FolderState)
        ensures
            s.model().len() == 0,
    {
        let s = FolderState { entries: Vec::new() };
        assert(s.model() =~= Seq::<(Seq<char>, bool)>::empty());
        s
    }

    fn position_of(&self, path: &str) -> (r: Option<usize>)
        ensures
            match first_index_of(folder_paths(self.model()), path@) {
                Some(p) => r is Some && r->0 == p,
                None => r is None,
            },
            r matches Some(i) ==> i < self.model().len(),
    {
        let ghost ps = folder_paths(self.model());
        let mut i: usize = 0;
        while i < self.entries.len()
            invariant
                i <= self.entries@.len(),
                ps == folder_paths(self.model()),
                forall|j: int| 0 <= j < i ==> ps[j] != path@,
            decreases self.entries@.len() - i,
        {
            assert(ps[i as int] == self.entries@[i as int].0@);
            if str_eq(self.entries[i].0.as_str(), path) {
                proof {
                    lemma_first_index_unique(ps, path@, i as int);
                }
                return Some(i);
            }
            i = i + 1;
        }
        proof {
            lemma_first_index_none(ps, path@);
        }
        None
    }

    /// Whether the folder at `path` is folded (see `is_collapsed`).
    pub fn is_folder_collapsed(&self, path: &str) -> (r: bool)
        ensures
            r == is_collapsed(self.model(), path@),
    {
        match self.position_of(path) {
            Some(i) => self.entries[i].1,
            None => true,
        }
    }

    /// Folds or unfolds the folder at `path` and says whether it is now
    /// folded (see `toggled`).
    pub fn toggle_folder_state(&mut self, path: &str) -> (now_collapsed: bool)
        ensures
            final(self).model() == toggled(old(self).model(), path@),
            now_collapsed == !is_collapsed(old(self).model(), path@),
    {
        match self.position_of(path) {
            Some(i) => {
                proof {
                    lemma_first_index_of(folder_paths(self.model()), path@);
                    assert(folder_paths(self.model())[i as int] == self.entries@[i as int].0@);
                }
                let (p, c) = self.entries.remove(i);
                self.entries.insert(i, (p, !c));
                assert(self.model() =~= toggled(old(self).model(), path@));
                !c
            },
            None => {
                self.entries.push((path.to_owned(), false));
                assert(self.model() =~= toggled(old(self).model(), path@));
                false
            },
        }
    }
}

// ---------------------------------------------------------------------
// File icons.
// ---------------------------------------------------------------------

/// The text after the last `.` of `name`, or all of it when it has none.
pub open spec fn after_last_dot(name: Seq<char>) -> Seq<char>
    decreases name.len(),
{
    if name.len() == 0 {
        name
    } else if name.last() == '.' {
        Seq::empty()
    } else {
        after_last_dot(name.drop_last()).push(name.last())
    }
}

/// The icon file for a (lower-case) extension, if there is one.
pub open spec fn icon_for(ext: Seq<char>) -> Option<Seq<char>> {
    if ext == "rs"@ {
        Some("rust-programming-language-icon.png"@)
    } else if ext == "py"@ {
        Some("python-programming-language-icon.png"@)
    } else if ext == "js"@ {
        Some("javascript-programming-language-icon.png"@)
    } else if ext == "ts"@ {
        Some("typescript-programming-language-icon.png"@)
    } else if ext == "jsx"@ || ext == "tsx"@ {
        Some("react-js-icon.png"@)
    } else if ext == "html"@ {
        Some("html-icon.png"@)
    } else if ext == "css"@ {
        Some("css-icon.png"@)
    } else if ext == "scss"@ || ext == "sass"@ {
        Some("css-icon.png"@)
    } else if ext == "json"@ || ext == "xml"@ || ext == "yaml"@ || ext == "yml"@ || ext == "toml"@ {
        Some("yaml-icon.png"@)
    } else if ext == "md"@ || ext == "txt"@ || ext == "log"@ {
        Some("log-file-icon.png"@)
    } else if ext == "c"@ || ext == "h"@ {
        Some("c-program-icon.png"@)
    } else if ext == "cpp"@ || ext == "cc"@ || ext == "cxx"@ || ext == "hpp"@ {
        Some("c-plus-plus-programming-language-icon.png"@)
    } else if ext == "cs"@ {
        Some("c-sharp-programming-language-icon.png"@)
    } else if ext == "java"@ {
        Some("java-programming-language-icon.png"@)
    } else if ext == "kt"@ || ext == "kts"@ {
        Some("kotlin-programming-language-icon.png"@)
    } else if ext == "swift"@ {
        Some("swift-programming-language-icon.png"@)
    } else if ext == "rb"@ {
        Some("ruby-programming-language-icon.png"@)
    } else if ext == "php"@ {
        Some("php-programming-language-icon.png"@)
    } else if ext == "r"@ {
        Some("r-programming-language-icon.png"@)
    } else if ext == "sql"@ || ext == "sqlite"@ || ext == "db"@ {
        Some("sqlite-icon.png"@)
    } else if ext == "sh"@ || ext == "bash"@ || ext == "zsh"@ || ext == "ps1"@ {
        Some("bash-unix-shell-icon.png"@)
    } else if ext == "dart"@ {
        Some("dart-programming-language-icon.png"@)
    } else if ext == "zig"@ {
        Some("zig-programming-language-icon.png"@)
    } else if ext == "pl"@ {
        Some("perl-programming-language-icon.png"@)
    } else if ext == "node"@ {
        Some("node-js-icon.png"@)
    } else if ext == "flutter"@ {
        Some("flutter-icon.png"@)
    } else {
        None
    }
}

/// The icon file for a file name: by its extension, in lower case.
pub open spec fn icon_name_spec(filename: Seq<char>) -> Option<Seq<char>> {
    icon_for(lowercase(after_last_dot(filename)))
}

fn extension(name: &str) -> (r: String)
    ensures
        r@ == after_last_dot(name@),
{
    let cs = chars_of(name);
    let n = cs.len();
    let mut i: usize = n;
    assert(name@.take(n as int) =~= name@);
    assert(after_last_dot(name@) + name@.subrange(n as int, n as int) =~= after_last_dot(name@));
    while i > 0 && cs[i - 1] != '.'
        invariant
            n == cs@.len(),
            i <= n,
            cs@ == name@,
            after_last_dot(name@) == after_last_dot(name@.take(i as int)) + name@.subrange(i as int, n as int),
        decreases i,
    {
        let ghost t = name@.take(i as int);
        assert(t.drop_last() =~= name@.take(i - 1));
        assert(name@.subrange(i - 1, n as int) =~= seq![t.last()] + name@.subrange(i as int, n as int));
        assert(after_last_dot(t) == after_last_dot(t.drop_last()).push(t.last()));
        assert(after_last_dot(t.drop_last()).push(t.last()) + name@.subrange(i as int, n as int)
            =~= after_last_dot(t.drop_last()) + name@.subrange(i - 1, n as int));
        i = i - 1;
    }
    proof {
        let t = name@.take(i as int);
        if i > 0 {
            assert(t.last() == '.');
        } else {
            assert(t =~= Seq::<char>::empty());
        }
        assert(after_last_dot(t) =~= Seq::<char>::empty());
        assert(after_last_dot(name@) =~= name@.subrange(i as int, n as int));
    }
    string_of_range(&cs, i, n)
}

/// The icon file shown beside a file in the tree (see `icon_name_spec`).
pub fn icon_name(filename: &str) -> (r: Option<&'static str>)
    ensures
        match icon_name_spec(filename@) {
            Some(icon) => r matches Some(s) && s@ == icon,
            None => r is None,
        },
{
    let lower = to_lowercase(extension(filename).as_str());
    let e = lower.as_str();
    if str_eq(e, "rs") {
        Some("rust-programming-language-icon.png")
    } else if str_eq(e, "py") {
        Some("python-programming-language-icon.png")
    } else if str_eq(e, "js") {
        Some("javascript-programming-language-icon.png")
    } else if str_eq(e, "ts") {
        Some("typescript-programming-language-icon.png")
    } else if str_eq(e, "jsx") || str_eq(e, "tsx") {
        Some("react-js-icon.png")
    } else if str_eq(e, "html") {
        Some("html-icon.png")
    } else if str_eq(e, "css") {
        Some("css-icon.png")
    } else if str_eq(e, "scss") || str_eq(e, "sass") {
        Some("css-icon.png")
    } else if str_eq(e, "json") || str_eq(e, "xml") || str_eq(e, "yaml") || str_eq(e, "yml") || str_eq(e, "toml") {
        Some("yaml-icon.png")
    } else if str_eq(e, "md") || str_eq(e, "txt") || str_eq(e, "log") {
        Some("log-file-icon.png")
    } else if str_eq(e, "c") || str_eq(e, "h") {
        Some("c-program-icon.png")
    } else if str_eq(e, "cpp") || str_eq(e, "cc") || str_eq(e, "cxx") || str_eq(e, "hpp") {
        Some("c-plus-plus-programming-language-icon.png")
    } else if str_eq(e, "cs") {
        Some("c-sharp-programming-language-icon.png")
    } else if str_eq(e, "java") {
        Some("java-programming-language-icon.png")
    } else if str_eq(e, "kt") || str_eq(e, "kts") {
        Some("kotlin-programming-language-icon.png")
    } else if str_eq(e, "swift") {
        Some("swift-programming-language-icon.png")
    } else if str_eq(e, "rb") {
        Some("ruby-programming-language-icon.png")
    } else if str_eq(e, "php") {
        Some("php-programming-language-icon.png")
    } else if str_eq(e, "r") {
        Some("r-programming-language-icon.png")
    } else if str_eq(e, "sql") || str_eq(e, "sqlite") || str_eq(e, "db") {
        Some("sqlite-icon.png")
    } else if str_eq(e, "sh") || str_eq(e, "bash") || str_eq(e, "zsh") || str_eq(e, "ps1") {
        Some("bash-unix-shell-icon.png")
    } else if str_eq(e, "dart") {
        Some("dart-programming-language-icon.png")
    } else if str_eq(e, "zig") {
        Some("zig-programming-language-icon.png")
    } else if str_eq(e, "pl") {
        Some("perl-programming-language-icon.png")
    } else if str_eq(e, "node") {
        Some("node-js-icon.png")
    } else if str_eq(e, "flutter") {
        Some("flutter-icon.png")
    } else {
        None
    }
}

// ---------------------------------------------------------------------
// The dashboard greeting.
// ---------------------------------------------------------------------

/// The greeting for an hour of the day (0 to 23).
pub open spec fn greeting_for(hour: u32) -> Seq<char> {
    if hour < 4 {
        "🌙 Early Night"@
    } else if hour < 7 {
        "🌄 Early Morning"@
    } else if hour < 12 {
        "☀️ Good Morning"@
    } else if hour < 17 {
        "🌤️ Good Afternoon"@
    } else if hour < 19 {
        "🌅 Early Evening"@
    } else if hour < 21 {
        "🌆 Good Evening"@
    } else {
        "🌙 Good Night"@
    }
}

/// The dashboard greeting for the hour (see `greeting_for`).
pub fn greeting(hour: u32) -> (r: &'static str)
    ensures
        r@ == greeting_for(hour),
{
    if hour < 4 {
        "🌙 Early Night"
    } else if hour < 7 {
        "🌄 Early Morning"
    } else if hour < 12 {
        "☀️ Good Morning"
    } else if hour < 17 {
        "🌤️ Good Afternoon"
    } else if hour < 19 {
        "🌅 Early Evening"
    } else if hour < 21 {
        "🌆 Good Evening"
    } else {
        "🌙 Good Night"
    }
}

} // verus!
