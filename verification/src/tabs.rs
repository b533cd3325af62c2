//! The editor's open tabs: each a file path and the name shown on it.

use vstd::prelude::*;
use crate::chat_store::{first_index_of, lemma_first_index_none, lemma_first_index_of, lemma_first_index_unique};
use crate::text::{decimal, decimal_string, push_str, str_eq};

verus! {

/// The paths of the tabs, in order.
pub open spec fn tab_paths(tabs: Seq<(Seq<char>, Seq<char>)>) -> Seq<Seq<char>> {
    tabs.map_values(|t: (Seq<char>, Seq<char>)| t.0)
}

/// The tabs after a file is opened: unchanged when a tab already shows
/// it, else with a new tab at the end.
pub open spec fn opened(tabs: Seq<(Seq<char>, Seq<char>)>, path: Seq<char>, name: Seq<char>) -> Seq<(Seq<char>, Seq<char>)> {
    match first_index_of(tab_paths(tabs), path) {
        Some(_) => tabs,
        None => tabs.push((path, name)),
    }
}

/// The tabs after the tab of `path` is closed: every tab with that path
/// goes.
pub open spec fn closed(tabs: Seq<(Seq<char>, Seq<char>)>, path: Seq<char>) -> Seq<(Seq<char>, Seq<char>)> {
    tabs.filter(|t: (Seq<char>, Seq<char>)| t.0 != path)
}

/// Opening a file that is already open changes nothing, and the file's
/// tab is then found where it was.
pub proof fn law_opening_twice_is_opening_once(tabs: Seq<(Seq<char>, Seq<char>)>, path: Seq<char>, name: Seq<char>, name2: Seq<char>)
    ensures
        opened(opened(tabs, path, name), path, name2) == opened(tabs, path, name),
        first_index_of(tab_paths(opened(tabs, path, name)), path) is Some,
{
    let t = opened(tabs, path, name);
    lemma_first_index_of(tab_paths(tabs), path);
    match first_index_of(tab_paths(tabs), path) {
        Some(_) => {},
        None => {
            assert(tab_paths(t) =~= tab_paths(tabs).push(path));
            lemma_first_index_unique(tab_paths(t), path, tabs.len() as int);
        },
    }
}

/// The open tabs.
#[derive(Debug)]
pub struct OpenTabs {
    tabs: Vec<(String, String)>,
}

impl OpenTabs {
    /// The tabs as (path, name) pairs, in order.
    pub closed spec fn model(&self) -> Seq<(Seq<char>, Seq<char>)> {
        self.tabs@.map_values(|t: (String, String)| (t.0@, t.1@))
    }

    /// No tab open.
    pub fn new() -> (t: OpenTabs)
        ensures
            t.model().len() == 0,
    {
        let t = OpenTabs { tabs: Vec::new() };
        assert(t.model() =~= Seq::<(Seq<char>, Seq<char>)>::empty());
        t
    }

    /// The tabs, in order.
    pub fn tabs(&self) -> (r: &[(String, String)])
        ensures
            r@.map_values(|t: (String, String)| (t.0@, t.1@)) == self.model(),
    {
        self.tabs.as_slice()
    }

    /// Position of the first tab showing `path`.
    pub fn position(&self, path: &str) -> (r: Option<usize>)
        ensures
            match first_index_of(tab_paths(self.model()), path@) {
                Some(p) => r is Some && r->0 == p,
                None => r is None,
            },
            r matches Some(i) ==> i < self.model().len(),
    {
        let ghost ps = tab_paths(self.model());
        let mut i: usize = 0;
        while i < self.tabs.len()
            invariant
                i <= self.tabs@.len(),
                ps == tab_paths(self.model()),
                forall|j: int| 0 <= j < i ==> ps[j] != path@,
            decreases self.tabs@.len() - i,
        {
            assert(ps[i as int] == self.tabs@[i as int].0@);
            if str_eq(self.tabs[i].0.as_str(), path) {
                proof {
                    lemma_first_index_unique(ps, path@, i as int);
                }
                return Some(i);
            }
            i = i + 1;
        }
        proof {
            lemma_first_index_none(ps, path@);
        }
        None
    }

    /// Opens a file: its tab if one shows it, else a new tab at the end
    /// (see `opened`). Says which tab is active.
    pub fn open_file(&mut self, path: &str, name: &str) -> (idx: usize)
        ensures
            final(self).model() == opened(old(self).model(), path@, name@),
            first_index_of(tab_paths(final(self).model()), path@) == Some(idx as int),
    {
        proof {
            law_opening_twice_is_opening_once(self.model(), path@, name@, name@);
        }
        match self.position(path) {
            Some(i) => i,
            None => {
                self.tabs.push((path.to_owned(), name.to_owned()));
                assert(self.model() =~= opened(old(self).model(), path@, name@));
                proof {
                    lemma_first_index_of(tab_paths(old(self).model()), path@);
                    assert(tab_paths(self.model()) =~= tab_paths(old(self).model()).push(path@));
                    lemma_first_index_unique(tab_paths(self.model()), path@, old(self).model().len() as int);
                }
                self.tabs.len() - 1
            },
        }
    }

    /// Closes the tabs of `path` (see `closed`) and says whether none is
    /// left.
    pub fn close(&mut self, path: &str) -> (now_empty: bool)
        ensures
            final(self).model() == closed(old(self).model(), path@),
            now_empty == (final(self).model().len() == 0),
    {
        let ghost pred = |t: (Seq<char>, Seq<char>)| t.0 != path@;
        let ghost orig = self.model();
        let mut kept: Vec<(String, String)> = Vec::new();
        let mut i: usize = 0;
        let ghost km = |t: (String, String)| (t.0@, t.1@);
        assert(orig.take(0).filter(pred) =~= Seq::<(Seq<char>, Seq<char>)>::empty());
        assert(kept@.map_values(km) =~= Seq::<(Seq<char>, Seq<char>)>::empty());
        while i < self.tabs.len()
            invariant
                i <= self.tabs@.len(),
                orig == self.model(),
                km == (|t: (String, String)| (t.0@, t.1@)),
                pred == (|t: (Seq<char>, Seq<char>)| t.0 != path@),
                kept@.map_values(km) == orig.take(i as int).filter(pred),
            decreases self.tabs@.len() - i,
        {
            let ghost e = orig[i as int];
            assert(e == (self.tabs@[i as int].0@, self.tabs@[i as int].1@));
            proof {
                orig.take(i as int).lemma_filter_push(e, pred);
                assert(orig.take(i as int).push(e) =~= orig.take(i + 1));
            }
            if !str_eq(self.tabs[i].0.as_str(), path) {
                let ghost before = kept@;
                kept.push((self.tabs[i].0.clone(), self.tabs[i].1.clone()));
                assert(kept@.map_values(km) =~= before.map_values(km).push(e));
            }
            i = i + 1;
        }
        assert(orig.take(orig.len() as int) =~= orig);
        self.tabs = kept;
        assert(self.model() =~= kept@.map_values(km));
        self.tabs.len() == 0
    }

    /// Opens a new, unsaved tab named `Untitled-<n>`, `n` being the new
    /// number of tabs, and says which tab it is.
    pub fn new_untitled(&mut self) -> (idx: usize)
        requires
            old(self).model().len() < usize::MAX,
        ensures
            final(self).model() == old(self).model().push((Seq::<char>::empty(), "Untitled-"@ + decimal(old(self).model().len() + 1))),
            idx as int == old(self).model().len(),
    {
        let n = self.tabs.len();
        let mut name = String::new();
        push_str(&mut name, "Untitled-");
        let number = decimal_string(n + 1);
        push_str(&mut name, number.as_str());
        proof {
            reveal_strlit("");
        }
        self.tabs.push((String::new(), name));
        assert(self.model() =~= old(self).model().push((Seq::<char>::empty(), "Untitled-"@ + decimal(old(self).model().len() + 1))));
        n
    }
}

} // verus!
