//! Random slate picking: hard-excludes blacklisted files and, on request,
//! prefers files that were not played recently.

use vstd::prelude::*;
use vstd::multiset::Multiset;
use rand::seq::SliceRandom;
use crate::pathset::{has_file, list_has_file};

verus! {

broadcast use {
    vstd::std_specs::vec::group_vec_axioms,
    vstd::seq_lib::group_filter_ensures,
    vstd::seq_lib::group_to_multiset_ensures,
    vstd::multiset::group_multiset_axioms,
};

/// Holds of paths whose file is named in `list`.
pub open spec fn listed_in(list: Seq<Seq<char>>) -> spec_fn(Seq<char>) -> bool {
    |x: Seq<char>| has_file(list, x)
}

/// Holds of paths whose file is not named in `list`.
pub open spec fn unlisted_in(list: Seq<Seq<char>>) -> spec_fn(Seq<char>) -> bool {
    |x: Seq<char>| !has_file(list, x)
}

/// Library entries that are not blacklisted, in library order.
pub open spec fn eligible(library: Seq<Seq<char>>, blacklist: Seq<Seq<char>>) -> Seq<Seq<char>> {
    library.filter(unlisted_in(blacklist))
}

/// How many titles a pick returns: `n`, capped by the eligible entries.
pub open spec fn pick_count(library: Seq<Seq<char>>, n: nat, blacklist: Seq<Seq<char>>) -> nat {
    let e = eligible(library, blacklist).len();
    if n < e { n } else { e }
}

/// Whether the recent list is consulted at all.
pub open spec fn avoiding(avoid_recent: bool, recent: Seq<Seq<char>>) -> bool {
    avoid_recent && recent.len() > 0
}

/// The pool a pick draws from first: eligible entries not played recently
/// when avoiding recent plays and any exist, else all eligible entries.
pub open spec fn primary_pool(
    library: Seq<Seq<char>>,
    n: nat,
    avoid_recent: bool,
    recent: Seq<Seq<char>>,
    blacklist: Seq<Seq<char>>,
) -> Seq<Seq<char>> {
    let e = eligible(library, blacklist);
    let fresh = e.filter(unlisted_in(recent));
    if avoiding(avoid_recent, recent) && fresh.len() > 0 {
        fresh
    } else {
        e
    }
}

/// The pool that tops up a pick when the fresh entries are too few: the
/// recently played eligible entries.
pub open spec fn secondary_pool(
    library: Seq<Seq<char>>,
    n: nat,
    avoid_recent: bool,
    recent: Seq<Seq<char>>,
    blacklist: Seq<Seq<char>>,
) -> Seq<Seq<char>> {
    let e = eligible(library, blacklist);
    let fresh = e.filter(unlisted_in(recent));
    if avoiding(avoid_recent, recent) && 0 < fresh.len() < pick_count(library, n, blacklist) {
        e.filter(listed_in(recent))
    } else {
        Seq::empty()
    }
}

/// `m` is `count` entries drawn from `primary` first and topped up from
/// `secondary`: all of `primary` when it is no larger than `count`, only
/// entries of `primary` otherwise.
pub open spec fn drawn_from(
    m: Multiset<Seq<char>>,
    count: nat,
    primary: Seq<Seq<char>>,
    secondary: Seq<Seq<char>>,
) -> bool {
    &&& m.len() == count
    &&& m.subset_of(primary.to_multiset().add(secondary.to_multiset()))
    &&& primary.len() >= count ==> m.subset_of(primary.to_multiset())
    &&& primary.len() <= count ==> primary.to_multiset().subset_of(m)
}

/// Shuffles `v` in place with the thread-local generator (`rand`'s
/// `SliceRandom::shuffle`); only the order changes.
#[verifier::external_body]
fn shuffle(v: &mut Vec<String>)
    ensures
        final(v).deep_view().to_multiset() == old(v).deep_view().to_multiset(),
{
    v.shuffle(&mut rand::thread_rng());
}

proof fn lemma_filter_step(s: Seq<Seq<char>>, pred: spec_fn(Seq<char>) -> bool, k: int)
    requires
        0 <= k < s.len(),
    ensures
        s.take(k + 1).filter(pred) == (if pred(s[k]) {
            s.take(k).filter(pred).push(s[k])
        } else {
            s.take(k).filter(pred)
        }),
{
    reveal(Seq::filter);
    assert(s.take(k + 1).drop_last() =~= s.take(k));
}

/// Entries of `src` whose file is (`keep_listed`) or is not named in `list`.
fn filter_listed(src: &[String], list: &[String], keep_listed: bool) -> (out: Vec<String>)
    ensures
        out.deep_view() == src.deep_view().filter(
            if keep_listed {
                listed_in(list.deep_view())
            } else {
                unlisted_in(list.deep_view())
            },
        ),
{
    let ghost pred = if keep_listed {
        listed_in(list.deep_view())
    } else {
        unlisted_in(list.deep_view())
    };
    let ghost s = src.deep_view();
    let mut out: Vec<String> = Vec::new();
    let mut i: usize = 0;
    while i < src.len()
        invariant
            0 <= i <= src@.len(),
            s == src.deep_view(),
            pred == (if keep_listed {
                listed_in(list.deep_view())
            } else {
                unlisted_in(list.deep_view())
            }),
            out.deep_view() == s.take(i as int).filter(pred),
        decreases src@.len() - i,
    {
        proof {
            lemma_filter_step(s, pred, i as int);
        }
        if list_has_file(list, src[i].as_str()) == keep_listed {
            let ghost before = out.deep_view();
            out.push(src[i].clone());
            assert(out.deep_view() =~= before.push(s[i as int]));
        }
        i = i + 1;
    }
    assert(s.take(src@.len() as int) =~= s);
    out
}

/// The two pools and the count of a pick, before any randomness.
pub struct PickPools {
    pub primary: Vec<String>,
    pub secondary: Vec<String>,
    pub count: usize,
}

/// Works out what a pick of `n` titles draws from: the eligible entries
/// (blacklist removed), split into fresh and recently played ones when
/// avoiding recent plays.
pub fn pick_pools(
    library: &[String],
    n: usize,
    avoid_recent: bool,
    recent: &[String],
    blacklist: &[String],
) -> (pp: PickPools)
    ensures
        pp.primary.deep_view() == primary_pool(
            library.deep_view(),
            n as nat,
            avoid_recent,
            recent.deep_view(),
            blacklist.deep_view(),
        ),
        pp.secondary.deep_view() == secondary_pool(
            library.deep_view(),
            n as nat,
            avoid_recent,
            recent.deep_view(),
            blacklist.deep_view(),
        ),
        pp.count == pick_count(library.deep_view(), n as nat, blacklist.deep_view()),
{
    let e = filter_listed(library, blacklist, false);
    let count = if n < e.len() {
        n
    } else {
        e.len()
    };
    if avoid_recent && recent.len() > 0 {
        let fresh = filter_listed(&e, recent, false);
        if fresh.len() > 0 {
            if fresh.len() < count {
                let stale = filter_listed(&e, recent, true);
                return PickPools { primary: fresh, secondary: stale, count };
            }
            return PickPools { primary: fresh, secondary: Vec::new(), count };
        }
    }
    PickPools { primary: e, secondary: Vec::new(), count }
}

} // verus!

verus! {

proof fn lemma_filter_split_len(s: Seq<Seq<char>>, list: Seq<Seq<char>>)
    ensures
        s.filter(listed_in(list)).len() + s.filter(unlisted_in(list)).len() == s.len(),
    decreases s.len(),
{
    reveal(Seq::filter);
    if s.len() > 0 {
        lemma_filter_split_len(s.drop_last(), list);
    }
}

proof fn lemma_take_sub(c: Seq<Seq<char>>, k: int)
    requires
        0 <= k <= c.len(),
    ensures
        c.take(k).to_multiset().subset_of(c.to_multiset()),
{
    assert(c =~= c.take(k) + c.skip(k));
    vstd::seq_lib::lemma_multiset_commutative(c.take(k), c.skip(k));
}

/// Picks up to `n` titles at random. Blacklisted files are never picked.
/// With `avoid_recent`, files not played recently come first: only they are
/// picked when there are enough of them, all of them are picked (topped up
/// with recent ones) when there are too few, and when every eligible file was
/// played recently the pick falls back to all of them.
pub fn pick(
    library: &[String],
    n: usize,
    avoid_recent: bool,
    recent: &[String],
    blacklist: &[String],
) -> (r: Vec<String>)
    ensures
        drawn_from(
            r.deep_view().to_multiset(),
            pick_count(library.deep_view(), n as nat, blacklist.deep_view()),
            primary_pool(library.deep_view(), n as nat, avoid_recent, recent.deep_view(), blacklist.deep_view()),
            secondary_pool(library.deep_view(), n as nat, avoid_recent, recent.deep_view(), blacklist.deep_view()),
        ),
{
    let ghost lib = library.deep_view();
    let ghost rec = recent.deep_view();
    let ghost bl = blacklist.deep_view();
    let pp = pick_pools(library, n, avoid_recent, recent, blacklist);
    let ghost p = pp.primary.deep_view();
    let ghost s = pp.secondary.deep_view();
    let count = pp.count;
    proof {
        let e = eligible(lib, bl);
        lemma_filter_split_len(e, rec);
        assert(p.len() + s.len() >= count);
    }
    if count == 0 {
        let r: Vec<String> = Vec::new();
        assert(r.deep_view() =~= Seq::<Seq<char>>::empty());
        proof {
            if p.len() == 0 {
                assert(p =~= Seq::<Seq<char>>::empty());
            }
        }
        return r;
    }
    let mut a = pp.primary;
    shuffle(&mut a);
    let mut b = pp.secondary;
    shuffle(&mut b);
    let ghost a0 = a.deep_view();
    let ghost b0 = b.deep_view();
    assert(a0.len() == p.len() && b0.len() == s.len()) by {
        assert(a0.to_multiset().len() == a0.len());
        assert(p.to_multiset().len() == p.len());
        assert(b0.to_multiset().len() == b0.len());
        assert(s.to_multiset().len() == s.len());
    }
    let mut j: usize = 0;
    while j < b.len()
        invariant
            0 <= j <= b@.len(),
            b.deep_view() == b0,
            a.deep_view() == a0 + b0.take(j as int),
        decreases b@.len() - j,
    {
        let ghost before = a.deep_view();
        a.push(b[j].clone());
        assert(a.deep_view() =~= before.push(b0[j as int]));
        assert(a0 + b0.take(j + 1) =~= (a0 + b0.take(j as int)).push(b0[j as int]));
        j = j + 1;
    }
    assert(b0.take(b0.len() as int) =~= b0);
    let ghost c = a.deep_view();
    a.truncate(count);
    assert(a.deep_view() =~= c.take(count as int));
    proof {
        vstd::seq_lib::lemma_multiset_commutative(a0, b0);
        lemma_take_sub(c, count as int);
        if p.len() >= count {
            assert(c.take(count as int) =~= a0.take(count as int));
            lemma_take_sub(a0, count as int);
            if p.len() == count {
                assert(a0.take(count as int) =~= a0);
            }
        } else {
            assert(c.take(count as int) =~= a0 + b0.take(count - a0.len()));
            vstd::seq_lib::lemma_multiset_commutative(a0, b0.take(count - a0.len()));
        }
    }
    shuffle(&mut a);
    a
}

} // verus!

verus! {

/// Picks one file that is neither blacklisted nor in `exclude` (the other
/// preview slots); with `avoid_recent` it avoids recent plays when it can.
pub fn pick_one_excluding(
    library: &[String],
    avoid_recent: bool,
    recent: &[String],
    blacklist: &[String],
    exclude: &[String],
) -> (r: Option<String>)
    ensures
        r is None <==> eligible(library.deep_view(), blacklist.deep_view() + exclude.deep_view()).len() == 0,
        r matches Some(p) ==> primary_pool(
            library.deep_view(),
            1,
            avoid_recent,
            recent.deep_view(),
            blacklist.deep_view() + exclude.deep_view(),
        ).contains(p@),
{
    let mut blocked: Vec<String> = Vec::new();
    let mut i: usize = 0;
    while i < blacklist.len()
        invariant
            0 <= i <= blacklist@.len(),
            blocked.deep_view() == blacklist.deep_view().take(i as int),
        decreases blacklist@.len() - i,
    {
        let ghost before = blocked.deep_view();
        blocked.push(blacklist[i].clone());
        assert(blocked.deep_view() =~= before.push(blacklist.deep_view()[i as int]));
        assert(blacklist.deep_view().take(i + 1) =~= before.push(blacklist.deep_view()[i as int]));
        i = i + 1;
    }
    let mut j: usize = 0;
    while j < exclude.len()
        invariant
            0 <= j <= exclude@.len(),
            blocked.deep_view() == blacklist.deep_view() + exclude.deep_view().take(j as int),
        decreases exclude@.len() - j,
    {
        let ghost before = blocked.deep_view();
        blocked.push(exclude[j].clone());
        assert(blocked.deep_view() =~= before.push(exclude.deep_view()[j as int]));
        assert(blacklist.deep_view() + exclude.deep_view().take(j + 1) =~= before.push(
            exclude.deep_view()[j as int],
        ));
        j = j + 1;
    }
    assert(blacklist.deep_view().take(blacklist@.len() as int) =~= blacklist.deep_view());
    assert(exclude.deep_view().take(exclude@.len() as int) =~= exclude.deep_view());
    let pp = pick_pools(library, 1, avoid_recent, recent, blocked.as_slice());
    proof {
        let e = eligible(library.deep_view(), blocked.deep_view());
        if e.len() > 0 {
            assert(pp.primary.deep_view().len() > 0);
        }
    }
    let mut pool = pp.primary;
    if pool.len() == 0 {
        return None;
    }
    let ghost before = pool.deep_view();
    shuffle(&mut pool);
    proof {
        let after = pool.deep_view();
        assert(after.to_multiset().len() == after.len());
        assert(before.to_multiset().len() == before.len());
        assert(after.contains(after[0]));
        assert(after.to_multiset().count(after[0]) > 0);
        assert(before.to_multiset().count(after[0]) > 0);
    }
    Some(pool[0].clone())
}

proof fn lemma_filter_members(s: Seq<Seq<char>>, pred: spec_fn(Seq<char>) -> bool, x: Seq<char>)
    ensures
        s.filter(pred).contains(x) <==> (s.contains(x) && pred(x)),
{
    if s.filter(pred).contains(x) {
        s.lemma_filter_contains_rev(pred, x);
        let i = choose|i: int| 0 <= i < s.filter(pred).len() && s.filter(pred)[i] == x;
        s.lemma_filter_pred(pred, i);
    }
    if s.contains(x) && pred(x) {
        let i = choose|i: int| 0 <= i < s.len() && s[i] == x;
        s.lemma_filter_contains(pred, i);
    }
}

/// A member of a pick's first pool is a library entry that is not blocked.
pub proof fn lemma_primary_member(
    library: Seq<Seq<char>>,
    n: nat,
    avoid_recent: bool,
    recent: Seq<Seq<char>>,
    blocked: Seq<Seq<char>>,
    p: Seq<char>,
)
    requires
        primary_pool(library, n, avoid_recent, recent, blocked).contains(p),
    ensures
        library.contains(p),
        !has_file(blocked, p),
{
    let e = eligible(library, blocked);
    lemma_filter_members(library, unlisted_in(blocked), p);
    lemma_filter_members(e, unlisted_in(recent), p);
}

/// What every pick guarantees: it holds `min(n, eligible)` titles, each a
/// library entry that is not blacklisted; when avoiding recent plays and
/// enough fresh titles exist none of the titles was played recently; and
/// when there are fewer fresh titles than wanted, every one of them is in.
pub proof fn lemma_pick_guarantees(
    library: Seq<Seq<char>>,
    n: nat,
    avoid_recent: bool,
    recent: Seq<Seq<char>>,
    blacklist: Seq<Seq<char>>,
    m: Multiset<Seq<char>>,
)
    requires
        drawn_from(
            m,
            pick_count(library, n, blacklist),
            primary_pool(library, n, avoid_recent, recent, blacklist),
            secondary_pool(library, n, avoid_recent, recent, blacklist),
        ),
    ensures
        m.len() == (if n < eligible(library, blacklist).len() {
            n
        } else {
            eligible(library, blacklist).len()
        }),
        forall|x: Seq<char>| #[trigger] m.count(x) > 0 ==> library.contains(x) && !has_file(blacklist, x),
        avoiding(avoid_recent, recent) && eligible(library, blacklist).filter(unlisted_in(recent)).len()
            >= pick_count(library, n, blacklist) ==> forall|x: Seq<char>| #[trigger] m.count(x) > 0 ==> !has_file(recent, x),
        avoiding(avoid_recent, recent) ==> forall|x: Seq<char>|
            #[trigger] eligible(library, blacklist).filter(unlisted_in(recent)).contains(x)
            && eligible(library, blacklist).filter(unlisted_in(recent)).len() <= pick_count(library, n, blacklist)
            ==> m.count(x) > 0,
{
    let e = eligible(library, blacklist);
    let fresh = e.filter(unlisted_in(recent));
    let p = primary_pool(library, n, avoid_recent, recent, blacklist);
    let s = secondary_pool(library, n, avoid_recent, recent, blacklist);
    let k = pick_count(library, n, blacklist);
    assert forall|x: Seq<char>| #[trigger] m.count(x) > 0 implies library.contains(x) && !has_file(blacklist, x) by {
        assert(p.to_multiset().add(s.to_multiset()).count(x) > 0);
        lemma_filter_members(library, unlisted_in(blacklist), x);
        lemma_filter_members(e, unlisted_in(recent), x);
        lemma_filter_members(e, listed_in(recent), x);
        if p.to_multiset().count(x) > 0 {
            assert(p.contains(x));
        } else {
            assert(s.to_multiset().count(x) > 0);
            assert(s.contains(x));
        }
    }
    if avoiding(avoid_recent, recent) && fresh.len() >= k {
        assert forall|x: Seq<char>| #[trigger] m.count(x) > 0 implies !has_file(recent, x) by {
            if fresh.len() > 0 {
                assert(m.subset_of(p.to_multiset()));
                assert(p.to_multiset().count(x) > 0);
                assert(p.contains(x));
                lemma_filter_members(e, unlisted_in(recent), x);
            } else {
                assert(k == 0);
                assert(m.len() == 0);
                assert(m =~= Multiset::empty());
            }
        }
    }
    if avoiding(avoid_recent, recent) {
        assert forall|x: Seq<char>| #[trigger] fresh.contains(x) && fresh.len() <= k implies m.count(x) > 0 by {
            assert(p == fresh);
            assert(p.to_multiset().count(x) > 0);
        }
    }
}

} // verus!
