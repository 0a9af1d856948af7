//! Ordered path lists keyed case-insensitively (blacklist, favorites).

use vstd::prelude::*;
use crate::text::{file_key, file_key_of, chars_eq};

verus! {

broadcast use {vstd::std_specs::vec::group_vec_axioms, vstd::seq_lib::group_filter_ensures};

/// Some entry of `paths` names the same file as `p`.
pub open spec fn has_file(paths: Seq<Seq<char>>, p: Seq<char>) -> bool {
    exists|i: int| 0 <= i < paths.len() && file_key(#[trigger] paths[i]) == file_key(p)
}

/// `paths` without every entry that names the same file as `p` (order kept).
pub open spec fn without_file(paths: Seq<Seq<char>>, p: Seq<char>) -> Seq<Seq<char>> {
    paths.filter(|x: Seq<char>| file_key(x) != file_key(p))
}

/// No two entries name the same file.
pub open spec fn files_distinct(paths: Seq<Seq<char>>) -> bool {
    forall|i: int, j: int|
        0 <= i < j < paths.len() ==> file_key(#[trigger] paths[i]) != file_key(#[trigger] paths[j])
}

/// Does some entry of `paths` name the same file as `p`?
pub fn list_has_file(paths: &[String], p: &str) -> (r: bool)
    ensures
        r == has_file(paths.deep_view(), p@),
{
    let key = file_key_of(p);
    let mut i: usize = 0;
    while i < paths.len()
        invariant
            0 <= i <= paths@.len(),
            key@ == file_key(p@),
            forall|k: int| 0 <= k < i ==> file_key(#[trigger] paths.deep_view()[k]) != file_key(p@),
        decreases paths@.len() - i,
    {
        let k2 = file_key_of(paths[i].as_str());
        if chars_eq(&k2, &key) {
            assert(file_key(paths.deep_view()[i as int]) == file_key(p@));
            return true;
        }
        i = i + 1;
    }
    false
}

proof fn lemma_filter_step(s: Seq<Seq<char>>, pred: spec_fn(Seq<char>) -> bool, k: int)
    requires
        0 <= k < s.len(),
    ensures
        s.take(k + 1).filter(pred) == (if pred(s[k]) {
            s.take(k).filter(pred).push(s[k])
        } else {
            s.take(k).filter(pred)
        }),
{
    reveal(Seq::filter);
    assert(s.take(k + 1).drop_last() =~= s.take(k));
}

/// Drops every entry that names the same file as `p`, keeping the order of the rest.
pub fn list_remove_file(paths: &mut Vec<String>, p: &str)
    ensures
        final(paths).deep_view() == without_file(old(paths).deep_view(), p@),
{
    let key = file_key_of(p);
    let ghost pred = |x: Seq<char>| file_key(x) != file_key(p@);
    let ghost src = paths.deep_view();
    let mut kept: Vec<String> = Vec::new();
    let n = paths.len();
    let mut i: usize = 0;
    while i < n
        invariant
            0 <= i <= n,
            n == paths@.len(),
            src == paths.deep_view(),
            key@ == file_key(p@),
            pred == (|x: Seq<char>| file_key(x) != file_key(p@)),
            kept.deep_view() == src.take(i as int).filter(pred),
        decreases n - i,
    {
        proof {
            lemma_filter_step(src, pred, i as int);
        }
        let k2 = file_key_of(paths[i].as_str());
        if !chars_eq(&k2, &key) {
            let s = paths[i].clone();
            let ghost before = kept.deep_view();
            kept.push(s);
            assert(kept.deep_view() =~= before.push(src[i as int]));
        }
        i = i + 1;
    }
    assert(src.take(n as int) =~= src);
    *paths = kept;
}

} // verus!

verus! {

/// A file is named in a concatenation when it is named in either part.
pub proof fn lemma_has_file_concat(a: Seq<Seq<char>>, b: Seq<Seq<char>>, p: Seq<char>)
    ensures
        has_file(a + b, p) <==> (has_file(a, p) || has_file(b, p)),
{
    if has_file(a + b, p) {
        let i = choose|i: int| 0 <= i < (a + b).len() && file_key(#[trigger] (a + b)[i]) == file_key(p);
        if i < a.len() {
            assert(file_key(a[i]) == file_key(p));
        } else {
            assert(file_key(b[i - a.len()]) == file_key(p));
        }
    }
    if has_file(a, p) {
        let i = choose|i: int| 0 <= i < a.len() && file_key(#[trigger] a[i]) == file_key(p);
        assert((a + b)[i] == a[i]);
    }
    if has_file(b, p) {
        let i = choose|i: int| 0 <= i < b.len() && file_key(#[trigger] b[i]) == file_key(p);
        assert((a + b)[a.len() + i] == b[i]);
    }
}

/// What `without_file` keeps: exactly the entries of another file.
proof fn lemma_without_file_members(s: Seq<Seq<char>>, p: Seq<char>)
    ensures
        forall|x: Seq<char>|
            #[trigger] without_file(s, p).contains(x) <==> (s.contains(x) && file_key(x)
                != file_key(p)),
{
    let pred = |x: Seq<char>| file_key(x) != file_key(p);
    assert forall|x: Seq<char>| #[trigger] without_file(s, p).contains(x) implies (s.contains(x)
        && file_key(x) != file_key(p)) by {
        s.lemma_filter_contains_rev(pred, x);
        let i = choose|i: int| 0 <= i < s.filter(pred).len() && s.filter(pred)[i] == x;
        s.lemma_filter_pred(pred, i);
    }
    assert forall|x: Seq<char>| (s.contains(x) && file_key(x) != file_key(p)) implies #[trigger] without_file(s, p).contains(x) by {
        let i = choose|i: int| 0 <= i < s.len() && s[i] == x;
        s.lemma_filter_contains(pred, i);
    }
}

proof fn lemma_has_file_contains(s: Seq<Seq<char>>, q: Seq<char>)
    ensures
        has_file(s, q) <==> exists|x: Seq<char>| #[trigger] s.contains(x) && file_key(x) == file_key(q),
{
    if has_file(s, q) {
        let i = choose|i: int| 0 <= i < s.len() && file_key(#[trigger] s[i]) == file_key(q);
        assert(s.contains(s[i]));
    }
    if exists|x: Seq<char>| #[trigger] s.contains(x) && file_key(x) == file_key(q) {
        let x = choose|x: Seq<char>| #[trigger] s.contains(x) && file_key(x) == file_key(q);
        let i = choose|i: int| 0 <= i < s.len() && s[i] == x;
        assert(file_key(s[i]) == file_key(q));
    }
}

/// After removing `p`, no entry names `p`'s file; every other file keeps its
/// membership.
pub proof fn lemma_remove_file(s: Seq<Seq<char>>, p: Seq<char>, q: Seq<char>)
    ensures
        !has_file(without_file(s, p), p),
        file_key(q) != file_key(p) ==> (has_file(without_file(s, p), q) == has_file(s, q)),
{
    let t = without_file(s, p);
    lemma_without_file_members(s, p);
    lemma_has_file_contains(t, p);
    lemma_has_file_contains(t, q);
    lemma_has_file_contains(s, q);
    if file_key(q) != file_key(p) {
        if has_file(s, q) {
            let x = choose|x: Seq<char>| #[trigger] s.contains(x) && file_key(x) == file_key(q);
            assert(t.contains(x));
        }
        if has_file(t, q) {
            let x = choose|x: Seq<char>| #[trigger] t.contains(x) && file_key(x) == file_key(q);
            assert(s.contains(x));
        }
    }
}

/// After adding `p`, `p`'s file is listed exactly once, at the end; every
/// other file keeps its membership.
pub proof fn lemma_add_file(s: Seq<Seq<char>>, p: Seq<char>, q: Seq<char>)
    ensures
        has_file(without_file(s, p).push(p), p),
        without_file(s, p).push(p).last() == p,
        file_key(q) != file_key(p) ==> (has_file(without_file(s, p).push(p), q) == has_file(s, q)),
        files_distinct(s) ==> files_distinct(without_file(s, p).push(p)),
{
    let t = without_file(s, p);
    let u = t.push(p);
    lemma_remove_file(s, p, q);
    assert(file_key(u[u.len() - 1]) == file_key(p));
    lemma_has_file_contains(u, q);
    lemma_has_file_contains(t, q);
    assert forall|x: Seq<char>| #[trigger] u.contains(x) <==> (t.contains(x) || x == p) by {
        if u.contains(x) {
            let i = choose|i: int| 0 <= i < u.len() && u[i] == x;
            if i < t.len() {
                assert(t[i] == x);
            }
        }
        if t.contains(x) {
            let i = choose|i: int| 0 <= i < t.len() && t[i] == x;
            assert(u[i] == x);
        }
        if x == p {
            assert(u[u.len() - 1] == x);
        }
    }
    if file_key(q) != file_key(p) {
        if has_file(u, q) {
            let x = choose|x: Seq<char>| #[trigger] u.contains(x) && file_key(x) == file_key(q);
            assert(t.contains(x));
        }
        if has_file(t, q) {
            let x = choose|x: Seq<char>| #[trigger] t.contains(x) && file_key(x) == file_key(q);
            assert(u.contains(x));
        }
    }
    if files_distinct(s) {
        lemma_remove_keeps_distinct(s, p);
        lemma_without_file_members(s, p);
        assert forall|i: int, j: int| 0 <= i < j < u.len() implies file_key(#[trigger] u[i])
            != file_key(#[trigger] u[j]) by {
            if j == u.len() - 1 {
                assert(t.contains(t[i]));
            } else {
                assert(u[i] == t[i] && u[j] == t[j]);
            }
        }
    }
}

/// Removing entries keeps the list free of duplicate files.
pub proof fn lemma_remove_keeps_distinct(s: Seq<Seq<char>>, p: Seq<char>)
    requires
        files_distinct(s),
    ensures
        files_distinct(without_file(s, p)),
    decreases s.len(),
{
    reveal(Seq::filter);
    let pred = |x: Seq<char>| file_key(x) != file_key(p);
    if s.len() > 0 {
        let d = s.drop_last();
        assert forall|i: int, j: int| 0 <= i < j < d.len() implies file_key(#[trigger] d[i])
            != file_key(#[trigger] d[j]) by {
            assert(d[i] == s[i] && d[j] == s[j]);
        }
        lemma_remove_keeps_distinct(d, p);
        let t = d.filter(pred);
        assert(without_file(s, p) == (if pred(s.last()) { t.push(s.last()) } else { t }));
        if pred(s.last()) {
            lemma_without_file_members(d, p);
            let u = t.push(s.last());
            assert forall|i: int, j: int| 0 <= i < j < u.len() implies file_key(#[trigger] u[i])
                != file_key(#[trigger] u[j]) by {
                if j == u.len() - 1 {
                    assert(t.contains(t[i]));
                    assert(without_file(d, p).contains(t[i]));
                    let k = choose|k: int| 0 <= k < d.len() && d[k] == t[i];
                    assert(s[k] == d[k]);
                    assert(file_key(s[k]) != file_key(s[s.len() - 1]));
                } else {
                    assert(u[i] == t[i] && u[j] == t[j]);
                }
            }
        }
    }
}

/// Adding the same file twice (in any spelling) leaves the list as adding it
/// once with the later spelling.
pub proof fn lemma_add_twice(s: Seq<Seq<char>>, p: Seq<char>, q: Seq<char>)
    requires
        file_key(p) == file_key(q),
    ensures
        without_file(without_file(s, p).push(p), q).push(q) == without_file(s, q).push(q),
{
    reveal(Seq::filter);
    let pred_p = |x: Seq<char>| file_key(x) != file_key(p);
    let pred_q = |x: Seq<char>| file_key(x) != file_key(q);
    assert(pred_p == pred_q);
    let t = without_file(s, p);
    assert(t.push(p).drop_last() =~= t);
    lemma_filter_idempotent(s, pred_q);
}

proof fn lemma_filter_idempotent(s: Seq<Seq<char>>, pred: spec_fn(Seq<char>) -> bool)
    ensures
        s.filter(pred).filter(pred) == s.filter(pred),
    decreases s.len(),
{
    reveal(Seq::filter);
    if s.len() > 0 {
        lemma_filter_idempotent(s.drop_last(), pred);
        let t = s.drop_last().filter(pred);
        if pred(s.last()) {
            assert(t.push(s.last()).drop_last() =~= t);
        }
    }
}

/// Removing a file that is not listed changes nothing.
pub proof fn lemma_remove_absent(s: Seq<Seq<char>>, p: Seq<char>)
    requires
        !has_file(s, p),
    ensures
        without_file(s, p) == s,
    decreases s.len(),
{
    reveal(Seq::filter);
    if s.len() > 0 {
        let d = s.drop_last();
        assert(!has_file(d, p)) by {
            if has_file(d, p) {
                let i = choose|i: int| 0 <= i < d.len() && file_key(#[trigger] d[i]) == file_key(p);
                assert(s[i] == d[i]);
            }
        }
        lemma_remove_absent(d, p);
        assert(file_key(s[s.len() - 1]) != file_key(p));
        assert(d.push(s.last()) =~= s);
    }
}

} // verus!

verus! {

/// Toggling a file that is not listed and toggling it again gives back the
/// same list; toggling twice always restores whether the file is listed.
pub proof fn lemma_toggle_twice(s: Seq<Seq<char>>, p: Seq<char>)
    ensures
        !has_file(s, p) ==> without_file(without_file(s, p).push(p), p) == s,
        has_file(s, p) ==> has_file(without_file(without_file(s, p), p).push(p), p),
{
    reveal(Seq::filter);
    if !has_file(s, p) {
        lemma_remove_absent(s, p);
        let t = s.push(p);
        assert(t.drop_last() =~= s);
        assert(without_file(t, p) == without_file(s, p));
    }
    lemma_add_file(without_file(s, p), p, p);
}

} // verus!
