//! Recently played paths, oldest first, capped in length.

use vstd::prelude::*;
use crate::text::{joined, join_file};

verus! {

broadcast use {vstd::std_specs::vec::group_vec_axioms, vstd::seq_lib::group_filter_ensures};

#[derive(Debug, Clone)]
pub struct History {
    pub paths: Vec<String>,
}

impl View for History {
    type V = Seq<Seq<char>>;

    open spec fn view(&self) -> Seq<Seq<char>> {
        self.paths.deep_view()
    }
}

/// Holds of every path other than `p`.
pub open spec fn other_than(p: Seq<char>) -> spec_fn(Seq<char>) -> bool {
    |x: Seq<char>| x != p
}

/// `h` with every exact copy of `p` dropped and `p` appended.
pub open spec fn played_once(h: Seq<Seq<char>>, p: Seq<char>) -> Seq<Seq<char>> {
    h.filter(other_than(p)).push(p)
}

/// `h` after recording `ps` one after another.
pub open spec fn played_all(h: Seq<Seq<char>>, ps: Seq<Seq<char>>) -> Seq<Seq<char>>
    decreases ps.len(),
{
    if ps.len() == 0 {
        h
    } else {
        played_once(played_all(h, ps.drop_last()), ps.last())
    }
}

/// The newest `max` entries of `h`.
pub open spec fn newest(h: Seq<Seq<char>>, max: nat) -> Seq<Seq<char>> {
    if h.len() > max {
        h.skip(h.len() - max)
    } else {
        h
    }
}

/// No path appears twice.
pub open spec fn no_repeats(h: Seq<Seq<char>>) -> bool {
    forall|i: int, j: int| 0 <= i < j < h.len() ==> #[trigger] h[i] != #[trigger] h[j]
}

impl Default for History {
    fn default() -> (h: Self)
        ensures
            h@ == Seq::<Seq<char>>::empty(),
    {
        History { paths: Vec::new() }
    }
}

proof fn lemma_filter_step(s: Seq<Seq<char>>, pred: spec_fn(Seq<char>) -> bool, k: int)
    requires
        0 <= k < s.len(),
    ensures
        s.take(k + 1).filter(pred) == (if pred(s[k]) {
            s.take(k).filter(pred).push(s[k])
        } else {
            s.take(k).filter(pred)
        }),
{
    reveal(Seq::filter);
    assert(s.take(k + 1).drop_last() =~= s.take(k));
}

impl History {
    /// Movie history file inside the data directory.
    pub fn path(data_dir: &str) -> (p: String)
        ensures
            p@ == joined(data_dir@, "history.json"@),
    {
        join_file(data_dir, "history.json")
    }

    /// Image history file inside the data directory.
    pub fn path_for_images(data_dir: &str) -> (p: String)
        ensures
            p@ == joined(data_dir@, "history_images.json"@),
    {
        join_file(data_dir, "history_images.json")
    }

    /// The recorded paths, oldest first.
    pub fn as_path_set(&self) -> (v: Vec<String>)
        ensures
            v.deep_view() == self@,
    {
        let v = self.paths.clone();
        assert(v.deep_view() =~= self.paths.deep_view());
        v
    }

    /// Drops exact copies of `p` and appends it as the newest entry.
    fn record(&mut self, p: &String)
        ensures
            final(self)@ == played_once(old(self)@, p@),
    {
        let ghost pred = other_than(p@);
        let ghost src = self@;
        let n = self.paths.len();
        let mut kept: Vec<String> = Vec::new();
        let mut i: usize = 0;
        while i < n
            invariant
                0 <= i <= n,
                n == self.paths@.len(),
                src == self@,
                pred == other_than(p@),
                kept.deep_view() == src.take(i as int).filter(pred),
            decreases n - i,
        {
            proof {
                lemma_filter_step(src, pred, i as int);
            }
            if self.paths[i] != *p {
                let ghost before = kept.deep_view();
                kept.push(self.paths[i].clone());
                assert(kept.deep_view() =~= before.push(src[i as int]));
            }
            i = i + 1;
        }
        assert(src.take(n as int) =~= src);
        let ghost mid = kept.deep_view();
        kept.push(p.clone());
        assert(kept.deep_view() =~= mid.push(p@));
        self.paths = kept;
    }

    /// Records `new_paths` in order (moving repeats to the newest end), then
    /// keeps only the newest `max_size` entries.
    pub fn push_many(&mut self, new_paths: &[String], max_size: usize)
        ensures
            final(self)@ == newest(played_all(old(self)@, new_paths.deep_view()), max_size as nat),
    {
        let ghost start = self@;
        let ghost ps = new_paths.deep_view();
        let mut i: usize = 0;
        while i < new_paths.len()
            invariant
                0 <= i <= new_paths@.len(),
                ps == new_paths.deep_view(),
                self@ == played_all(start, ps.take(i as int)),
            decreases new_paths@.len() - i,
        {
            proof {
                assert(ps.take(i + 1).drop_last() =~= ps.take(i as int));
            }
            self.record(&new_paths[i]);
            i = i + 1;
        }
        assert(ps.take(new_paths@.len() as int) =~= ps);
        let len = self.paths.len();
        if len > max_size {
            let drop_n = len - max_size;
            let mut kept: Vec<String> = Vec::new();
            let mut k: usize = drop_n;
            let ghost all = self@;
            while k < len
                invariant
                    drop_n <= k <= len,
                    len == self.paths@.len(),
                    all == self@,
                    kept.deep_view() == all.subrange(drop_n as int, k as int),
                decreases len - k,
            {
                let ghost before = kept.deep_view();
                kept.push(self.paths[k].clone());
                assert(kept.deep_view() =~= before.push(all[k as int]));
                assert(kept.deep_view() =~= all.subrange(drop_n as int, k + 1));
                k = k + 1;
            }
            assert(all.skip(drop_n as int) =~= all.subrange(drop_n as int, len as int));
            self.paths = kept;
        }
    }
}

} // verus!

verus! {

proof fn lemma_played_once(h: Seq<Seq<char>>, p: Seq<char>)
    ensures
        played_once(h, p).last() == p,
        forall|x: Seq<char>| #[trigger] played_once(h, p).contains(x) <==> (h.contains(x) || x == p),
        no_repeats(h) ==> no_repeats(played_once(h, p)),
    decreases h.len(),
{
    let pred = other_than(p);
    let t = h.filter(pred);
    let u = t.push(p);
    assert forall|x: Seq<char>| #[trigger] t.contains(x) <==> (h.contains(x) && x != p) by {
        if t.contains(x) {
            h.lemma_filter_contains_rev(pred, x);
            let i = choose|i: int| 0 <= i < t.len() && t[i] == x;
            h.lemma_filter_pred(pred, i);
        }
        if h.contains(x) && x != p {
            let i = choose|i: int| 0 <= i < h.len() && h[i] == x;
            h.lemma_filter_contains(pred, i);
        }
    }
    assert forall|x: Seq<char>| #[trigger] u.contains(x) <==> (h.contains(x) || x == p) by {
        if u.contains(x) {
            let i = choose|i: int| 0 <= i < u.len() && u[i] == x;
            if i < t.len() {
                assert(t[i] == x);
                assert(t.contains(x));
            }
        }
        if x == p {
            assert(u[u.len() - 1] == x);
        } else if h.contains(x) {
            assert(t.contains(x));
            let i = choose|i: int| 0 <= i < t.len() && t[i] == x;
            assert(u[i] == x);
        }
    }
    if no_repeats(h) {
        lemma_filter_no_repeats(h, pred);
        assert forall|i: int, j: int| 0 <= i < j < u.len() implies #[trigger] u[i] != #[trigger] u[j] by {
            if j == u.len() - 1 {
                assert(t.contains(t[i]));
            } else {
                assert(u[i] == t[i] && u[j] == t[j]);
            }
        }
    }
}

proof fn lemma_filter_no_repeats(h: Seq<Seq<char>>, pred: spec_fn(Seq<char>) -> bool)
    requires
        no_repeats(h),
    ensures
        no_repeats(h.filter(pred)),
    decreases h.len(),
{
    reveal(Seq::filter);
    if h.len() > 0 {
        let d = h.drop_last();
        assert forall|i: int, j: int| 0 <= i < j < d.len() implies #[trigger] d[i] != #[trigger] d[j] by {
            assert(d[i] == h[i] && d[j] == h[j]);
        }
        lemma_filter_no_repeats(d, pred);
        let t = d.filter(pred);
        if pred(h.last()) {
            let u = t.push(h.last());
            assert forall|i: int, j: int| 0 <= i < j < u.len() implies #[trigger] u[i] != #[trigger] u[j] by {
                if j == u.len() - 1 {
                    assert(t.contains(t[i]));
                    d.lemma_filter_contains_rev(pred, t[i]);
                    let k = choose|k: int| 0 <= k < d.len() && d[k] == t[i];
                    assert(h[k] == d[k]);
                } else {
                    assert(u[i] == t[i] && u[j] == t[j]);
                }
            }
        }
    }
}

proof fn lemma_played_all(h: Seq<Seq<char>>, ps: Seq<Seq<char>>)
    ensures
        forall|x: Seq<char>| #[trigger] played_all(h, ps).contains(x) <==> (h.contains(x) || ps.contains(x)),
        no_repeats(h) ==> no_repeats(played_all(h, ps)),
        ps.len() > 0 ==> played_all(h, ps).last() == ps.last(),
    decreases ps.len(),
{
    if ps.len() > 0 {
        let d = ps.drop_last();
        lemma_played_all(h, d);
        lemma_played_once(played_all(h, d), ps.last());
        assert forall|x: Seq<char>| #[trigger] ps.contains(x) <==> (d.contains(x) || x == ps.last()) by {
            if ps.contains(x) {
                let i = choose|i: int| 0 <= i < ps.len() && ps[i] == x;
                if i < d.len() {
                    assert(d[i] == x);
                }
            }
            if d.contains(x) {
                let i = choose|i: int| 0 <= i < d.len() && d[i] == x;
                assert(ps[i] == x);
            }
            if x == ps.last() {
                assert(ps[ps.len() - 1] == x);
            }
        }
    }
}

/// What recording does to the history: it never grows past `max` entries,
/// stays free of repeats when it was, the last path recorded becomes the
/// newest entry, and every entry that survives is an old entry or one just
/// recorded; with room for all of them, every recorded path is kept.
pub proof fn lemma_push_many(h: Seq<Seq<char>>, ps: Seq<Seq<char>>, max: nat)
    ensures
        newest(played_all(h, ps), max).len() <= max,
        no_repeats(h) ==> no_repeats(newest(played_all(h, ps), max)),
        ps.len() > 0 && max > 0 ==> newest(played_all(h, ps), max).last() == ps.last(),
        forall|x: Seq<char>| #[trigger] newest(played_all(h, ps), max).contains(x) ==> (h.contains(x) || ps.contains(x)),
        played_all(h, ps).len() <= max ==> forall|x: Seq<char>| ps.contains(x) ==> #[trigger] newest(played_all(h, ps), max).contains(x),
{
    lemma_played_all(h, ps);
    let a = played_all(h, ps);
    let r = newest(a, max);
    if a.len() > max {
        let off = a.len() - max;
        assert forall|x: Seq<char>| #[trigger] r.contains(x) implies a.contains(x) by {
            let i = choose|i: int| 0 <= i < r.len() && r[i] == x;
            assert(a[off + i] == x);
        }
        if no_repeats(a) {
            assert forall|i: int, j: int| 0 <= i < j < r.len() implies #[trigger] r[i] != #[trigger] r[j] by {
                assert(r[i] == a[off + i] && r[j] == a[off + j]);
            }
        }
        if max > 0 {
            assert(r.last() == a.last());
        }
    }
}

} // verus!
