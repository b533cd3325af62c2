//! The list of past session logs: the `.sessiondata` files of the logs
//! folder, newest name first, at most twenty, each shown without its
//! extension.

use vstd::prelude::*;
use crate::executor::{replace_all, replace_all_exec};
use crate::text::chars_of;

verus! {

/// The extension of session log files.
pub open spec fn session_extension() -> Seq<char> {
    ".sessiondata"@
}

/// `s` ends with `suffix`.
pub open spec fn has_suffix(s: Seq<char>, suffix: Seq<char>) -> bool {
    suffix.len() <= s.len() && s.skip(s.len() - suffix.len()) == suffix
}

/// `a` comes before `b` in the order of file names: character by
/// character by code point, a proper prefix first.
pub open spec fn name_lt(a: Seq<char>, b: Seq<char>) -> bool
    decreases a.len(),
{
    if b.len() == 0 {
        false
    } else if a.len() == 0 {
        true
    } else if a[0] != b[0] {
        a[0] < b[0]
    } else {
        name_lt(a.drop_first(), b.drop_first())
    }
}

/// `x` put into the newest-first list `s`: before the first name that
/// comes before it, after the names equal to it.
pub open spec fn insert_newest_first(s: Seq<Seq<char>>, x: Seq<char>) -> Seq<Seq<char>>
    decreases s.len(),
{
    if s.len() == 0 {
        seq![x]
    } else if name_lt(s[0], x) {
        seq![x] + s
    } else {
        seq![s[0]] + insert_newest_first(s.drop_first(), x)
    }
}

/// The names of `s`, newest (greatest) first, equal names in their order.
pub open spec fn newest_first(s: Seq<Seq<char>>) -> Seq<Seq<char>>
    decreases s.len(),
{
    if s.len() == 0 {
        Seq::empty()
    } else {
        insert_newest_first(newest_first(s.drop_last()), s.last())
    }
}

/// The session files among `names`, newest first, at most twenty.
pub open spec fn listed_sessions(names: Seq<Seq<char>>) -> Seq<Seq<char>> {
    let s = newest_first(names.filter(|n: Seq<char>| has_suffix(n, session_extension())));
    if s.len() <= 20 {
        s
    } else {
        s.take(20)
    }
}

// ---------------------------------------------------------------------
// The order of names.
// ---------------------------------------------------------------------

proof fn lemma_name_lt_irreflexive(a: Seq<char>)
    ensures
        !name_lt(a, a),
    decreases a.len(),
{
    if a.len() > 0 {
        lemma_name_lt_irreflexive(a.drop_first());
    }
}

proof fn lemma_name_lt_asymmetric(a: Seq<char>, b: Seq<char>)
    ensures
        !(name_lt(a, b) && name_lt(b, a)),
    decreases a.len(),
{
    if a.len() > 0 && b.len() > 0 && a[0] == b[0] {
        lemma_name_lt_asymmetric(a.drop_first(), b.drop_first());
    }
}

proof fn lemma_name_lt_total(a: Seq<char>, b: Seq<char>)
    ensures
        a == b || name_lt(a, b) || name_lt(b, a),
    decreases a.len(),
{
    if a.len() == 0 && b.len() == 0 {
        assert(a =~= b);
    } else if a.len() > 0 && b.len() > 0 && a[0] == b[0] {
        lemma_name_lt_total(a.drop_first(), b.drop_first());
        if a.drop_first() == b.drop_first() {
            assert(a =~= seq![a[0]] + a.drop_first());
            assert(b =~= seq![b[0]] + b.drop_first());
        }
    }
}

proof fn lemma_name_lt_transitive(a: Seq<char>, b: Seq<char>, c: Seq<char>)
    requires
        name_lt(a, b),
        name_lt(b, c),
    ensures
        name_lt(a, c),
    decreases a.len(),
{
    if a.len() > 0 && a[0] == b[0] && b[0] == c[0] {
        lemma_name_lt_transitive(a.drop_first(), b.drop_first(), c.drop_first());
    }
}

/// `b` does not come before `a`.
pub open spec fn not_before(a: Seq<char>, b: Seq<char>) -> bool {
    !name_lt(a, b)
}

/// No name of `s` comes before a later one: the list runs newest first.
pub open spec fn runs_newest_first(s: Seq<Seq<char>>) -> bool {
    forall|i: int, j: int| 0 <= i < j < s.len() ==> not_before(#[trigger] s[i], #[trigger] s[j])
}

proof fn lemma_insert_keeps_order(s: Seq<Seq<char>>, x: Seq<char>)
    requires
        runs_newest_first(s),
    ensures
        runs_newest_first(insert_newest_first(s, x)),
        insert_newest_first(s, x).to_multiset() == s.to_multiset().insert(x),
        insert_newest_first(s, x).len() == s.len() + 1,
        forall|y: Seq<char>| insert_newest_first(s, x).contains(y) ==> y == x || s.contains(y),
    decreases s.len(),
{
    broadcast use vstd::seq_lib::group_to_multiset_ensures;

    let r = insert_newest_first(s, x);
    if s.len() == 0 {
        assert(r =~= Seq::<Seq<char>>::empty().push(x));
    } else if name_lt(s[0], x) {
        assert(r =~= seq![x] + s);
        assert forall|i: int, j: int| 0 <= i < j < r.len() implies not_before(#[trigger] r[i], #[trigger] r[j]) by {
            if i == 0 {
                assert(r[j] == s[j - 1]);
                if j - 1 > 0 {
                    assert(not_before(s[0], s[j - 1]));
                    if name_lt(x, s[j - 1]) {
                        lemma_name_lt_total(s[0], s[j - 1]);
                        if s[0] == s[j - 1] {
                            lemma_name_lt_asymmetric(s[0], x);
                        } else {
                            lemma_name_lt_transitive(s[0], x, s[j - 1]);
                        }
                    }
                } else {
                    lemma_name_lt_asymmetric(s[0], x);
                }
            } else {
                assert(r[i] == s[i - 1]);
                assert(r[j] == s[j - 1]);
            }
        }
        assert(r.remove(0) =~= s);
        assert(r.to_multiset().remove(x) == s.to_multiset());
        assert(r.to_multiset() =~= s.to_multiset().insert(x));
        assert forall|y: Seq<char>| r.contains(y) implies y == x || s.contains(y) by {
            let k = choose|k: int| 0 <= k < r.len() && r[k] == y;
            if k > 0 {
                assert(s[k - 1] == y);
            }
        }
    } else {
        let t = s.drop_first();
        assert forall|i: int, j: int| 0 <= i < j < t.len() implies not_before(#[trigger] t[i], #[trigger] t[j]) by {
            assert(t[i] == s[i + 1]);
            assert(t[j] == s[j + 1]);
        }
        lemma_insert_keeps_order(t, x);
        let rt = insert_newest_first(t, x);
        assert(r =~= seq![s[0]] + rt);
        assert forall|i: int, j: int| 0 <= i < j < r.len() implies not_before(#[trigger] r[i], #[trigger] r[j]) by {
            if i == 0 {
                assert(r[j] == rt[j - 1]);
                assert(rt.contains(rt[j - 1]));
                if rt[j - 1] == x {
                } else {
                    assert(t.contains(rt[j - 1]));
                    let k = choose|k: int| 0 <= k < t.len() && t[k] == rt[j - 1];
                    assert(t[k] == s[k + 1]);
                    assert(not_before(s[0], s[k + 1]));
                }
            } else {
                assert(r[i] == rt[i - 1]);
                assert(r[j] == rt[j - 1]);
            }
        }
        assert(r.remove(0) =~= rt);
        assert(s.remove(0) =~= t);
        assert(r.to_multiset().remove(s[0]) == rt.to_multiset());
        assert(s.to_multiset().remove(s[0]) == t.to_multiset());
        assert(r.contains(s[0]));
        assert(s.contains(s[0]));
        assert(r.to_multiset() =~= rt.to_multiset().insert(s[0]));
        assert(s.to_multiset() =~= t.to_multiset().insert(s[0]));
        assert(r.to_multiset() =~= s.to_multiset().insert(x));
        assert forall|y: Seq<char>| r.contains(y) implies y == x || s.contains(y) by {
            let k = choose|k: int| 0 <= k < r.len() && r[k] == y;
            if k > 0 {
                assert(rt[k - 1] == y);
                assert(rt.contains(y));
                if y != x {
                    assert(t.contains(y));
                    let m = choose|m: int| 0 <= m < t.len() && t[m] == y;
                    assert(s[m + 1] == y);
                }
            }
        }
    }
}

/// Sorting newest first gives a list that runs newest first and holds
/// the same names, each as often.
pub proof fn law_newest_first_sorts(s: Seq<Seq<char>>)
    ensures
        runs_newest_first(newest_first(s)),
        newest_first(s).to_multiset() == s.to_multiset(),
    decreases s.len(),
{
    broadcast use vstd::seq_lib::group_to_multiset_ensures;

    if s.len() == 0 {
        assert(newest_first(s).to_multiset() =~= s.to_multiset());
    } else {
        law_newest_first_sorts(s.drop_last());
        lemma_insert_keeps_order(newest_first(s.drop_last()), s.last());
        assert(s.drop_last().push(s.last()) =~= s);
    }
}

// ---------------------------------------------------------------------
// Executable side.
// ---------------------------------------------------------------------

/// Whether `a` comes before `b` (see `name_lt`).
pub fn name_before(a: &Vec<char>, b: &Vec<char>) -> (r: bool)
    ensures
        r == name_lt(a@, b@),
{
    let mut i: usize = 0;
    assert(a@.skip(0) =~= a@);
    assert(b@.skip(0) =~= b@);
    while i < a.len() && i < b.len() && a[i] == b[i]
        invariant
            i <= a@.len(),
            i <= b@.len(),
            name_lt(a@, b@) == name_lt(a@.skip(i as int), b@.skip(i as int)),
        decreases a@.len() - i,
    {
        assert(a@.skip(i as int).drop_first() =~= a@.skip(i + 1));
        assert(b@.skip(i as int).drop_first() =~= b@.skip(i + 1));
        i = i + 1;
    }
    if i == b.len() {
        false
    } else if i == a.len() {
        true
    } else {
        a[i] < b[i]
    }
}

proof fn lemma_insert_at(s: Seq<Seq<char>>, x: Seq<char>, k: int)
    requires
        0 <= k <= s.len(),
        forall|i: int| 0 <= i < k ==> !name_lt(#[trigger] s[i], x),
        k < s.len() ==> name_lt(s[k], x),
    ensures
        insert_newest_first(s, x) == s.take(k) + seq![x] + s.skip(k),
    decreases k,
{
    if s.len() == 0 {
        assert(s.take(k) + seq![x] + s.skip(k) =~= seq![x]);
    } else if k == 0 {
        assert(s.take(0) + seq![x] + s.skip(0) =~= seq![x] + s);
    } else {
        let t = s.drop_first();
        assert forall|i: int| 0 <= i < k - 1 implies !name_lt(#[trigger] t[i], x) by {
            assert(t[i] == s[i + 1]);
        }
        if k - 1 < t.len() {
            assert(t[k - 1] == s[k]);
        }
        lemma_insert_at(t, x, k - 1);
        assert(seq![s[0]] + (t.take(k - 1) + seq![x] + t.skip(k - 1)) =~= s.take(k) + seq![x] + s.skip(k));
    }
}

/// The session files among `names`, newest first and at most twenty (see
/// `listed_sessions`), each with the name shown for it: the file name
/// without `.sessiondata`.
pub fn session_listing(names: &Vec<String>) -> (r: Vec<(String, String)>)
    ensures
        r@.len() == listed_sessions(names.deep_view()).len(),
        forall|i: int|
            0 <= i < r@.len() ==> (#[trigger] r@[i]).0@ == listed_sessions(names.deep_view())[i]
                && r@[i].1@ == replace_all(listed_sessions(names.deep_view())[i], session_extension(), ""@),
{
    let ghost pred = |n: Seq<char>| has_suffix(n, session_extension());
    let ghost all = names.deep_view();
    let ext = chars_of(".sessiondata");
    proof {
        reveal_strlit(".sessiondata");
    }
    let mut sorted: Vec<String> = Vec::new();
    let mut i: usize = 0;
    assert(all.take(0).filter(pred) =~= Seq::<Seq<char>>::empty());
    assert(sorted.deep_view() =~= Seq::<Seq<char>>::empty());
    while i < names.len()
        invariant
            i <= names@.len(),
            all == names.deep_view(),
            ext@ == session_extension(),
            pred == (|n: Seq<char>| has_suffix(n, session_extension())),
            sorted.deep_view() == newest_first(all.take(i as int).filter(pred)),
        decreases names@.len() - i,
    {
        let name = &names[i];
        let cs = chars_of(name.as_str());
        assert(all[i as int] == cs@);
        proof {
            all.take(i as int).lemma_filter_push(cs@, pred);
            assert(all.take(i as int).push(cs@) =~= all.take(i + 1));
        }
        let n = cs.len();
        let m = ext.len();
        let mut is_session = m <= n;
        if is_session {
            let mut k: usize = 0;
            while k < m
                invariant
                    m <= n,
                    n == cs@.len(),
                    m == ext@.len(),
                    k <= m,
                    is_session ==> forall|q: int| 0 <= q < k ==> cs@[n - m + q] == ext@[q],
                    !is_session ==> !has_suffix(cs@, ext@),
                decreases m - k,
            {
                if is_session && cs[n - m + k] != ext[k] {
                    assert(cs@.skip(n - m)[k as int] == cs@[n - m + k]);
                    is_session = false;
                }
                k = k + 1;
            }
            if is_session {
                assert(cs@.skip(n - m) =~= ext@);
            }
        }
        assert(is_session == pred(cs@));
        let ghost f = all.take(i as int).filter(pred);
        assert(all.take(i + 1).filter(pred) == if pred(cs@) { f.push(cs@) } else { f });
        assert(f.push(cs@).drop_last() =~= f);
        if is_session {
            let ghost before = sorted.deep_view();
            let mut k: usize = 0;
            while k < sorted.len()
                invariant
                    k <= sorted@.len(),
                    before == sorted.deep_view(),
                    forall|q: int| 0 <= q < k ==> !name_lt(#[trigger] before[q], cs@),
                ensures
                    k <= sorted@.len(),
                    forall|q: int| 0 <= q < k ==> !name_lt(#[trigger] before[q], cs@),
                    k < sorted@.len() ==> name_lt(before[k as int], cs@),
                decreases sorted@.len() - k,
            {
                let other = chars_of(sorted[k].as_str());
                assert(before[k as int] == other@);
                if name_before(&other, &cs) {
                    break;
                }
                k = k + 1;
            }
            proof {
                lemma_insert_at(before, cs@, k as int);
            }
            sorted.insert(k, name.clone());
            assert(sorted.deep_view() =~= before.take(k as int) + seq![cs@] + before.skip(k as int));
        } else {
        }
        i = i + 1;
    }
    assert(all.take(names@.len() as int) =~= all);
    let ghost listed = listed_sessions(all);
    assert(sorted.deep_view() == newest_first(all.filter(pred)));
    let mut r: Vec<(String, String)> = Vec::new();
    let mut j: usize = 0;
    let limit: usize = if sorted.len() <= 20 { sorted.len() } else { 20 };
    assert(listed.len() == limit);
    while j < limit
        invariant
            limit <= sorted@.len(),
            j <= limit,
            listed.len() == limit,
            forall|q: int| 0 <= q < limit ==> listed[q] == sorted.deep_view()[q],
            r@.len() == j,
            forall|q: int|
                0 <= q < j ==> (#[trigger] r@[q]).0@ == listed[q] && r@[q].1@ == replace_all(
                    listed[q],
                    session_extension(),
                    ""@,
                ),
        decreases limit - j,
    {
        let f = &sorted[j];
        assert(sorted.deep_view()[j as int] == f@);
        proof {
            reveal_strlit(".sessiondata");
        }
        let shown = replace_all_exec(f.as_str(), ".sessiondata", "");
        r.push((f.clone(), shown));
        j = j + 1;
    }
    r
}

} // verus!
