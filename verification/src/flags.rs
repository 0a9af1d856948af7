//! Selecting the entries of a list by a parallel list of flags, stated with
//! vstd's `filter`: the reference the session's selections are proved
//! against.

use vstd::prelude::*;

verus! {

/// Each entry of `s` with its flag.
pub open spec fn paired<A>(s: Seq<A>, flags: Seq<bool>) -> Seq<(A, bool)> {
    Seq::new(s.len(), |i: int| (s[i], flags[i]))
}

/// The entries of `s` whose flag is set, in order.
pub open spec fn flagged<A>(s: Seq<A>, flags: Seq<bool>) -> Seq<A> {
    paired(s, flags).filter(|p: (A, bool)| p.1).map_values(|p: (A, bool)| p.0)
}

/// How many of the flags are set.
pub open spec fn set_count(flags: Seq<bool>) -> nat {
    flags.filter(|b: bool| b).len()
}

/// At most `cap` entries: the first `cap` of `s` when it is longer.
pub open spec fn capped<A>(s: Seq<A>, cap: nat) -> Seq<A> {
    if s.len() <= cap { s } else { s.take(cap as int) }
}

/// Appending an entry adds it to the selection exactly when its flag is set.
pub proof fn lemma_flagged_push<A>(s: Seq<A>, flags: Seq<bool>, x: A)
    requires
        flags.len() > s.len(),
    ensures
        flagged(s.push(x), flags) == (if flags[s.len() as int] {
            flagged(s, flags).push(x)
        } else {
            flagged(s, flags)
        }),
{
    let pred = |p: (A, bool)| p.1;
    let t = paired(s, flags);
    let u = paired(s.push(x), flags);
    assert(u =~= t.push((x, flags[s.len() as int])));
    assert(u.drop_last() =~= t);
    reveal(Seq::filter);
    assert(u.filter(pred) == (if pred(u.last()) { t.filter(pred).push(u.last()) } else { t.filter(pred) }));
    if flags[s.len() as int] {
        assert(u.filter(pred).map_values(|p: (A, bool)| p.0) =~= t.filter(pred).map_values(|p: (A, bool)| p.0).push(x));
    }
}

/// Only the flags of positions inside `s` matter.
pub proof fn lemma_flagged_same_flags<A>(s: Seq<A>, f1: Seq<bool>, f2: Seq<bool>)
    requires
        f1.len() >= s.len(),
        f2.len() >= s.len(),
        forall|i: int| 0 <= i < s.len() ==> f1[i] == f2[i],
    ensures
        flagged(s, f1) == flagged(s, f2),
{
    assert(paired(s, f1) =~= paired(s, f2));
}

/// The selection holds one entry per set flag, and each entry whose flag
/// is set is in it.
pub proof fn lemma_flagged_facts<A>(s: Seq<A>, flags: Seq<bool>)
    requires
        flags.len() >= s.len(),
    ensures
        flagged(s, flags).len() == set_count(flags.take(s.len() as int)),
        flagged(s, flags).len() <= s.len(),
        forall|i: int| 0 <= i < s.len() && flags[i] ==> flagged(s, flags).contains(#[trigger] s[i]),
    decreases s.len(),
{
    if s.len() == 0 {
        assert(flags.take(0) =~= Seq::<bool>::empty());
        reveal(Seq::filter);
        assert(paired(s, flags) =~= Seq::<(A, bool)>::empty());
        assert(paired(s, flags).filter(|p: (A, bool)| p.1).len() == 0);
        assert(flagged(s, flags).len() == 0);
    } else {
        let n = s.len() - 1;
        let t = s.drop_last();
        lemma_flagged_facts(t, flags);
        assert(t.push(s.last()) =~= s);
        lemma_flagged_push(t, flags, s.last());
        let ft = flags.take(n as int);
        let fs = flags.take(s.len() as int);
        assert(fs.drop_last() =~= ft);
        reveal(Seq::filter);
        assert(fs.filter(|b: bool| b) == (if fs.last() { ft.filter(|b: bool| b).push(fs.last()) } else {
            ft.filter(|b: bool| b)
        }));
        let r = flagged(s, flags);
        let p = flagged(t, flags);
        assert forall|i: int| 0 <= i < s.len() && flags[i] implies r.contains(#[trigger] s[i]) by {
            if i < n {
                assert(p.contains(t[i]));
                let k = choose|k: int| 0 <= k < p.len() && p[k] == t[i];
                assert(r[k] == p[k]);
            } else {
                assert(r[r.len() - 1] == s[i]);
            }
        }
    }
}

/// Each entry of the selection is an entry of `s` whose flag is set.
pub proof fn lemma_flagged_from<A>(s: Seq<A>, flags: Seq<bool>, k: int)
    requires
        flags.len() >= s.len(),
        0 <= k < flagged(s, flags).len(),
    ensures
        exists|i: int| 0 <= i < s.len() && flags[i] && #[trigger] s[i] == flagged(s, flags)[k],
    decreases s.len(),
{
    let n = s.len() - 1;
    let t = s.drop_last();
    assert(t.push(s.last()) =~= s);
    lemma_flagged_push(t, flags, s.last());
    let p = flagged(t, flags);
    if k < p.len() {
        lemma_flagged_from(t, flags, k);
        let i = choose|i: int| 0 <= i < t.len() && flags[i] && #[trigger] t[i] == p[k];
        assert(s[i] == t[i]);
    } else {
        assert(s[n as int] == flagged(s, flags)[k]);
    }
}

} // verus!
