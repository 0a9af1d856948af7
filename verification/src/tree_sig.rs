//! The directory-tree signature that invalidates a root's index cache: a
//! capped depth-first walk that records each directory's lower-cased path
//! and modification time and its children's names, hashed together. The
//! shell reads the directories; the walk decides what is read next and what
//! goes into the hash.

use vstd::prelude::*;
use crate::text::{lower, to_lower};
use crate::library::str_lt;
use crate::index_cache::{skipped_dir, skip_dir_name};

verus! {

broadcast use vstd::std_specs::vec::group_vec_axioms;

/// Bumped when the signature changes (forces one rebuild of the caches).
pub const SIG_VERSION: u32 = 2;
/// At most this many directories are visited.
pub const MAX_DIRS: usize = 6000;
/// At most this many directory entries are counted.
pub const MAX_ENTRIES: usize = 40000;

/// One value fed to the hasher, in the order of the walk.
#[derive(Debug, Clone, PartialEq, Eq)]
pub enum SigItem {
    U32(u32),
    U64(u64),
    Size(usize),
    Flag(bool),
    Text(String),
}

/// What a `SigItem` stands for.
pub enum SigToken {
    U32(u32),
    U64(u64),
    Size(usize),
    Flag(bool),
    Text(Seq<char>),
}

impl View for SigItem {
    type V = SigToken;

    open spec fn view(&self) -> SigToken {
        match self {
            SigItem::U32(v) => SigToken::U32(*v),
            SigItem::U64(v) => SigToken::U64(*v),
            SigItem::Size(v) => SigToken::Size(*v),
            SigItem::Flag(v) => SigToken::Flag(*v),
            SigItem::Text(s) => SigToken::Text(s@),
        }
    }
}

pub open spec fn tokens(items: Seq<SigItem>) -> Seq<SigToken> {
    items.map_values(|it: SigItem| it@)
}

/// What `DefaultHasher::new()` (unkeyed) gives after hashing each token's
/// value in turn.
pub uninterp spec fn sig_hash(toks: Seq<SigToken>) -> u64;

/// Hashes each item's value in order (`u32`, `u64`, `usize`, `bool` or
/// `String`, as `Hash` writes them) with
/// `std::collections::hash_map::DefaultHasher::new()`, then `finish`. The
/// hasher has no keys, so the value depends on the items alone (`sig_hash`).
#[verifier::external_body]
fn signature_of(items: &[SigItem]) -> (h: u64)
    ensures
        h == sig_hash(tokens(items@)),
{
    let mut h = std::collections::hash_map::DefaultHasher::new();
    for it in items {
        match it {
            SigItem::U32(v) => std::hash::Hash::hash(v, &mut h),
            SigItem::U64(v) => std::hash::Hash::hash(v, &mut h),
            SigItem::Size(v) => std::hash::Hash::hash(v, &mut h),
            SigItem::Flag(v) => std::hash::Hash::hash(v, &mut h),
            SigItem::Text(v) => std::hash::Hash::hash(v, &mut h),
        }
    }
    std::hash::Hasher::finish(&h)
}

/// A directory entry as read: whether it is a directory, its file name and
/// its full path.
#[derive(Debug, Clone)]
pub struct Kid {
    pub is_dir: bool,
    pub name: String,
    pub path: String,
}

impl View for Kid {
    type V = (bool, Seq<char>, Seq<char>);

    open spec fn view(&self) -> (bool, Seq<char>, Seq<char>) {
        (self.is_dir, self.name@, self.path@)
    }
}

pub open spec fn kids_view(v: Seq<Kid>) -> Seq<(bool, Seq<char>, Seq<char>)> {
    v.map_values(|k: Kid| k@)
}

/// The walk in progress: what has been fed to the hash so far, the
/// directories still to visit (the last one next), and the counters.
pub struct SigWalk {
    pub items: Vec<SigItem>,
    pub stack: Vec<String>,
    pub dirs_seen: usize,
    pub entries_seen: usize,
    /// No directory is left to visit.
    pub done: bool,
    /// The root was a directory, so the counters close the hash.
    pub walked: bool,
}

impl SigWalk {
    pub open spec fn wf(&self) -> bool {
        &&& self.dirs_seen <= MAX_DIRS
        &&& self.entries_seen <= MAX_ENTRIES
    }

    pub open spec fn toks(&self) -> Seq<SigToken> {
        tokens(self.items@)
    }
}

/// Entries kept for the hash: skipped directory names are left out and
/// names are lower-cased; order as read.
pub open spec fn kept_kids(kids: Seq<(bool, Seq<char>, Seq<char>)>) -> Seq<(bool, Seq<char>, Seq<char>)>
    decreases kids.len(),
{
    if kids.len() == 0 {
        Seq::empty()
    } else {
        let prev = kept_kids(kids.drop_last());
        let k = kids.last();
        if k.0 && skipped_dir(k.1) {
            prev
        } else {
            prev.push((k.0, lower(k.1), k.2))
        }
    }
}

/// Children order: by lower-cased name (in the order of `String`), then
/// files before directories.
pub open spec fn kid_le(a: (bool, Seq<char>, Seq<char>), b: (bool, Seq<char>, Seq<char>)) -> bool {
    str_lt(a.1, b.1) || (a.1 == b.1 && (a.0 ==> b.0))
}

pub open spec fn kids_sorted(s: Seq<(bool, Seq<char>, Seq<char>)>) -> bool {
    forall|i: int, j: int| 0 <= i < j < s.len() ==> kid_le(#[trigger] s[i], #[trigger] s[j])
}

/// Tokens for sorted children: each one's directory flag and name.
pub open spec fn kid_tokens(s: Seq<(bool, Seq<char>, Seq<char>)>) -> Seq<SigToken>
    decreases s.len(),
{
    if s.len() == 0 {
        Seq::empty()
    } else {
        kid_tokens(s.drop_last()) + seq![SigToken::Flag(s.last().0), SigToken::Text(s.last().1)]
    }
}

/// The child directories to visit, in the order they are pushed.
pub open spec fn kid_dirs(s: Seq<(bool, Seq<char>, Seq<char>)>) -> Seq<Seq<char>>
    decreases s.len(),
{
    if s.len() == 0 {
        Seq::empty()
    } else if s.last().0 {
        kid_dirs(s.drop_last()).push(s.last().2)
    } else {
        kid_dirs(s.drop_last())
    }
}

/// Tokens for a visited directory: nothing when its metadata could not be
/// read; else its lower-cased path, and its modification time (seconds and
/// nanoseconds since the epoch) when known.
pub open spec fn meta_tokens(dir: Seq<char>, meta: Option<Option<(u64, u32)>>) -> Seq<SigToken> {
    match meta {
        None => Seq::empty(),
        Some(None) => seq![SigToken::Text(lower(dir))],
        Some(Some((secs, nanos))) => seq![SigToken::Text(lower(dir)), SigToken::U64(secs), SigToken::U32(nanos)],
    }
}

/// How many of `n` entries still count under the entry cap.
pub open spec fn entries_counted(seen: nat, n: nat) -> nat {
    if n < MAX_ENTRIES - seen { n } else { (MAX_ENTRIES - seen) as nat }
}

/// The tokens that close the hash.
pub open spec fn final_tokens(w: SigWalk) -> Seq<SigToken> {
    if w.walked {
        w.toks() + seq![SigToken::Size(w.dirs_seen), SigToken::Size(w.entries_seen)]
    } else {
        w.toks()
    }
}

/// Starts the signature of `root`: the version and the lower-cased root;
/// a root that is a directory is the first to visit.
pub fn sig_start(root: &str, root_is_dir: bool) -> (w: SigWalk)
    ensures
        w.wf(),
        w.toks() == seq![SigToken::U32(SIG_VERSION), SigToken::Text(lower(root@))],
        w.stack.deep_view() == (if root_is_dir { seq![root@] } else { Seq::empty() }),
        w.dirs_seen == 0,
        w.entries_seen == 0,
        w.done == !root_is_dir,
        w.walked == root_is_dir,
{
    let mut items: Vec<SigItem> = Vec::new();
    items.push(SigItem::U32(SIG_VERSION));
    items.push(SigItem::Text(to_lower(root)));
    let mut stack: Vec<String> = Vec::new();
    if root_is_dir {
        stack.push(String::from_str(root));
    }
    let w = SigWalk { items, stack, dirs_seen: 0, entries_seen: 0, done: !root_is_dir, walked: root_is_dir };
    assert(w.toks() =~= seq![SigToken::U32(SIG_VERSION), SigToken::Text(lower(root@))]);
    assert(w.stack.deep_view() =~= (if root_is_dir { seq![root@] } else { Seq::<Seq<char>>::empty() }));
    w
}

/// The next directory to visit: the last one on the stack. When nothing is
/// left the walk ends; when a cap was reached it records the marker
/// `"cap"` and both counters and ends.
pub fn sig_next_dir(w: &mut SigWalk) -> (d: Option<String>)
    requires
        old(w).wf(),
    ensures
        final(w).wf(),
        final(w).walked == old(w).walked,
        final(w).entries_seen == old(w).entries_seen,
        old(w).done || old(w).stack@.len() == 0 ==> {
            &&& d is None
            &&& final(w).done
            &&& final(w).toks() == old(w).toks()
            &&& final(w).stack.deep_view() == old(w).stack.deep_view()
            &&& final(w).dirs_seen == old(w).dirs_seen
        },
        !old(w).done && old(w).stack@.len() > 0 ==> {
            &&& final(w).stack.deep_view() == old(w).stack.deep_view().drop_last()
            &&& if old(w).dirs_seen >= MAX_DIRS || old(w).entries_seen >= MAX_ENTRIES {
                &&& d is None
                &&& final(w).done
                &&& final(w).dirs_seen == old(w).dirs_seen
                &&& final(w).toks() == old(w).toks() + seq![
                    SigToken::Text("cap"@),
                    SigToken::Size(old(w).dirs_seen),
                    SigToken::Size(old(w).entries_seen),
                ]
            } else {
                &&& d matches Some(p) && p@ == old(w).stack.deep_view().last()
                &&& !final(w).done
                &&& final(w).dirs_seen == old(w).dirs_seen + 1
                &&& final(w).toks() == old(w).toks()
            }
        },
{
    if w.done || w.stack.len() == 0 {
        w.done = true;
        return None;
    }
    let ghost s0 = w.stack.deep_view();
    let ghost t0 = w.toks();
    let top = w.stack.pop();
    assert(w.stack.deep_view() =~= s0.drop_last());
    if w.dirs_seen >= MAX_DIRS || w.entries_seen >= MAX_ENTRIES {
        let dirs = w.dirs_seen;
        let entries = w.entries_seen;
        w.items.push(SigItem::Text(String::from_str("cap")));
        w.items.push(SigItem::Size(dirs));
        w.items.push(SigItem::Size(entries));
        w.done = true;
        assert(w.toks() =~= t0 + seq![SigToken::Text("cap"@), SigToken::Size(dirs), SigToken::Size(entries)]);
        return None;
    }
    w.dirs_seen = w.dirs_seen + 1;
    match top {
        Some(p) => Some(p),
        None => None,
    }
}

/// Sorts entries with `slice::sort_by_key`, keyed by (name, directory
/// flag), whose order is that of `String`, then `false` before `true`. Only
/// the order changes. The sort is stable; that is not stated.
#[verifier::external_body]
fn sort_kids(v: &mut Vec<Kid>)
    ensures
        kids_view(final(v)@).to_multiset() == kids_view(old(v)@).to_multiset(),
        kids_sorted(kids_view(final(v)@)),
{
    v.sort_by_key(|k| (k.name.clone(), k.is_dir));
}

/// Records a visited directory: its metadata tokens (`meta`: `None` when
/// its metadata could not be read, else its modification time if known),
/// then its entries `kids` as read (empty when it could not be listed).
/// Entries count up to the entry cap and the rest are ignored; the kept
/// ones are sorted, fed to the hash, and their directories pushed.
pub fn sig_visit(w: &mut SigWalk, dir: &str, meta: Option<Option<(u64, u32)>>, kids: Vec<Kid>)
    requires
        old(w).wf(),
    ensures
        final(w).wf(),
        final(w).done == old(w).done,
        final(w).walked == old(w).walked,
        final(w).dirs_seen == old(w).dirs_seen,
        final(w).entries_seen == old(w).entries_seen + entries_counted(
            old(w).entries_seen as nat,
            kids@.len(),
        ),
        exists|s: Seq<(bool, Seq<char>, Seq<char>)>|
            {
                &&& s.to_multiset() == #[trigger] kept_kids(
                    kids_view(kids@).take(entries_counted(old(w).entries_seen as nat, kids@.len()) as int),
                ).to_multiset()
                &&& kids_sorted(s)
                &&& final(w).toks() == old(w).toks() + meta_tokens(dir@, meta) + kid_tokens(s)
                &&& final(w).stack.deep_view() == old(w).stack.deep_view() + kid_dirs(s)
            },
{
    let ghost t0 = w.toks();
    let ghost st0 = w.stack.deep_view();
    match meta {
        Some(m) => {
            w.items.push(SigItem::Text(to_lower(dir)));
            match m {
                Some((secs, nanos)) => {
                    w.items.push(SigItem::U64(secs));
                    w.items.push(SigItem::U32(nanos));
                },
                None => {},
            }
        },
        None => {},
    }
    assert(w.toks() =~= t0 + meta_tokens(dir@, meta));
    let ghost t1 = w.toks();
    let room = MAX_ENTRIES - w.entries_seen;
    let k = if kids.len() < room { kids.len() } else { room };
    let ghost kv = kids_view(kids@);
    let mut kept: Vec<Kid> = Vec::new();
    let mut i: usize = 0;
    while i < k
        invariant
            0 <= i <= k,
            k <= kids@.len(),
            kv == kids_view(kids@),
            kids_view(kept@) == kept_kids(kv.take(i as int)),
        decreases k - i,
    {
        assert(kv.take(i + 1).drop_last() =~= kv.take(i as int));
        let kid = &kids[i];
        if !(kid.is_dir && skip_dir_name(kid.name.as_str())) {
            kept.push(Kid { is_dir: kid.is_dir, name: to_lower(kid.name.as_str()), path: kid.path.clone() });
            assert(kids_view(kept@) =~= kept_kids(kv.take(i as int)).push(
                (kv[i as int].0, lower(kv[i as int].1), kv[i as int].2),
            ));
        } else {
            assert(kids_view(kept@) =~= kept_kids(kv.take(i as int)));
        }
        i = i + 1;
    }
    let ghost unsorted = kids_view(kept@);
    sort_kids(&mut kept);
    let ghost sv = kids_view(kept@);
    let mut j: usize = 0;
    while j < kept.len()
        invariant
            0 <= j <= kept@.len(),
            sv == kids_view(kept@),
            w.entries_seen == old(w).entries_seen,
            w.dirs_seen == old(w).dirs_seen,
            w.done == old(w).done,
            w.walked == old(w).walked,
            old(w).wf(),
            k <= MAX_ENTRIES - old(w).entries_seen,
            k == entries_counted(old(w).entries_seen as nat, kids@.len()),
            w.toks() == t1 + kid_tokens(sv.take(j as int)),
            w.stack.deep_view() == st0 + kid_dirs(sv.take(j as int)),
        decreases kept@.len() - j,
    {
        assert(sv.take(j + 1).drop_last() =~= sv.take(j as int));
        let ghost tb = w.toks();
        let ghost sb = w.stack.deep_view();
        let kid = &kept[j];
        w.items.push(SigItem::Flag(kid.is_dir));
        w.items.push(SigItem::Text(kid.name.clone()));
        assert(w.toks() =~= tb + seq![SigToken::Flag(sv[j as int].0), SigToken::Text(sv[j as int].1)]);
        if kid.is_dir {
            w.stack.push(kid.path.clone());
            assert(w.stack.deep_view() =~= sb.push(sv[j as int].2));
        }
        j = j + 1;
    }
    assert(sv.take(sv.len() as int) =~= sv);
    w.entries_seen = w.entries_seen + k;
    proof {
        assert(kept_kids(kv.take(entries_counted(old(w).entries_seen as nat, kids@.len()) as int)) == unsorted);
    }
}

/// Closes the walk: the counters when the root was a directory, then the
/// hash of everything recorded.
pub fn sig_finish(w: SigWalk) -> (h: u64)
    ensures
        h == sig_hash(final_tokens(w)),
{
    let mut items = w.items;
    if w.walked {
        items.push(SigItem::Size(w.dirs_seen));
        items.push(SigItem::Size(w.entries_seen));
        assert(tokens(items@) =~= w.toks() + seq![SigToken::Size(w.dirs_seen), SigToken::Size(w.entries_seen)]);
    }
    signature_of(items.as_slice())
}

} // verus!
