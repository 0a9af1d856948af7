//! Naming and matching of the per-root index cache files. The shell walks
//! the disk and reads or writes the files; the tree signature that tells
//! whether a cache is still current is in `tree_sig`.

use vstd::prelude::*;
use crate::text::{joined, join_file, lower, hex16, hex16_string, to_lower, chars_of, lower_chars, chars_eq};
use crate::library::{sort_strings, str_le, sorted_le, lemma_sorted_unique};
use vstd::multiset::Multiset;

verus! {

broadcast use vstd::std_specs::vec::group_vec_axioms;

/// What `DefaultHasher::new()` (unkeyed) gives after hashing a root string
/// and then a list of extension strings.
pub uninterp spec fn root_key_hash(root: Seq<char>, exts: Seq<Seq<char>>) -> u64;

/// Hashes `root`, then `exts` (length, then each string), with
/// `std::collections::hash_map::DefaultHasher::new()`; the hasher has no
/// keys, so the value depends on the arguments alone (`root_key_hash`).
#[verifier::external_body]
fn hash_root_key(root: &str, exts: &[String]) -> (h: u64)
    ensures
        h == root_key_hash(root@, exts.deep_view()),
{
    let mut hasher = std::collections::hash_map::DefaultHasher::new();
    std::hash::Hash::hash(root, &mut hasher);
    std::hash::Hash::hash(exts, &mut hasher);
    std::hash::Hasher::finish(&hasher)
}

/// ASCII lower-casing, as a function value.
pub open spec fn lower_fn() -> spec_fn(Seq<char>) -> Seq<char> {
    |e: Seq<char>| lower(e)
}

/// `t` lists the entries of `s`, in the order of `String`.
pub open spec fn sorted_of(t: Seq<Seq<char>>, s: Seq<Seq<char>>) -> bool {
    &&& t.to_multiset() == s.to_multiset()
    &&& forall|i: int, j: int| 0 <= i < j < t.len() ==> str_le(#[trigger] t[i], #[trigger] t[j])
}

/// The entries counted by `m`, in the order of `String` (there is one such
/// arrangement, `lemma_sorted_unique`).
pub open spec fn sorted_form(m: Multiset<Seq<char>>) -> Seq<Seq<char>> {
    choose|t: Seq<Seq<char>>| t.to_multiset() == m && sorted_le(t)
}

/// The extensions as the cache key uses them: lower-cased and sorted.
pub open spec fn key_exts(exts: Seq<Seq<char>>) -> Seq<Seq<char>> {
    sorted_form(exts.map_values(lower_fn()).to_multiset())
}

/// The cache file name of a root indexed for `exts`: the hash of the root
/// and of the extensions (both lower-cased, the extensions sorted), in
/// sixteen hexadecimal digits, `.json`.
pub fn cache_key(root: &str, exts: &[String]) -> (k: String)
    ensures
        k@ == hex16(root_key_hash(lower(root@), key_exts(exts.deep_view()))) + ".json"@,
{
    let mut lowered: Vec<String> = Vec::new();
    let mut i: usize = 0;
    while i < exts.len()
        invariant
            0 <= i <= exts@.len(),
            lowered.deep_view() == exts.deep_view().take(i as int).map_values(lower_fn()),
        decreases exts@.len() - i,
    {
        let ghost before = lowered.deep_view();
        lowered.push(to_lower(exts[i].as_str()));
        assert(lowered.deep_view() =~= before.push(lower(exts.deep_view()[i as int])));
        assert(exts.deep_view().take(i + 1) =~= exts.deep_view().take(i as int).push(exts.deep_view()[i as int]));
        assert(lowered.deep_view() =~= exts.deep_view().take(i + 1).map_values(lower_fn()));
        i = i + 1;
    }
    assert(exts.deep_view().take(exts@.len() as int) =~= exts.deep_view());
    let ghost unsorted = lowered.deep_view();
    sort_strings(&mut lowered);
    let root_lc = to_lower(root);
    let h = hash_root_key(root_lc.as_str(), lowered.as_slice());
    let mut k = hex16_string(h);
    k.append(".json");
    proof {
        assert(lowered.deep_view().to_multiset() == unsorted.to_multiset()
            && sorted_le(lowered.deep_view()));
        let t = sorted_form(unsorted.to_multiset());
        lemma_sorted_unique(t, lowered.deep_view());
    }
    k
}

/// The cache file of a root inside `cache_dir`.
pub fn cache_path(cache_dir: &str, root: &str, exts: &[String]) -> (p: String)
    ensures
        p@ == joined(cache_dir@, hex16(root_key_hash(lower(root@), key_exts(exts.deep_view()))) + ".json"@),
{
    let k = cache_key(root, exts);
    join_file(cache_dir, k.as_str())
}

/// Sorts `v` with `slice::sort_by_key`, keyed by the ASCII-lower-cased
/// string, in the order of `String`. Only the order changes. The sort is
/// stable (entries with equal keys keep their order); that is not stated.
#[verifier::external_body]
fn sort_by_lower(v: &mut Vec<String>)
    ensures
        final(v).deep_view().to_multiset() == old(v).deep_view().to_multiset(),
        forall|i: int, j: int|
            0 <= i < j < final(v)@.len() ==> str_le(
                lower(#[trigger] final(v).deep_view()[i]),
                lower(#[trigger] final(v).deep_view()[j]),
            ),
{
    v.sort_by_key(|e| to_lower(e));
}

/// The extensions as a cache file records them: as configured, ordered by
/// their lower-cased form.
pub fn stored_extensions(exts: &[String]) -> (r: Vec<String>)
    ensures
        r.deep_view().to_multiset() == exts.deep_view().to_multiset(),
        forall|i: int, j: int|
            0 <= i < j < r@.len() ==> str_le(lower(#[trigger] r.deep_view()[i]), lower(#[trigger] r.deep_view()[j])),
{
    let mut r: Vec<String> = Vec::new();
    let mut i: usize = 0;
    while i < exts.len()
        invariant
            0 <= i <= exts@.len(),
            r.deep_view() == exts.deep_view().take(i as int),
        decreases exts@.len() - i,
    {
        let ghost before = r.deep_view();
        r.push(exts[i].clone());
        assert(r.deep_view() =~= before.push(exts.deep_view()[i as int]));
        assert(exts.deep_view().take(i + 1) =~= exts.deep_view().take(i as int).push(exts.deep_view()[i as int]));
        i = i + 1;
    }
    assert(exts.deep_view().take(exts@.len() as int) =~= exts.deep_view());
    sort_by_lower(&mut r);
    r
}

/// A cache file written for `cached_root` and `cached_exts` serves `root`
/// indexed for `exts`: the roots agree ignoring ASCII case and the cached
/// extensions are those wanted, both lower-cased, in any order.
pub open spec fn cache_serves(
    cached_root: Seq<char>,
    cached_exts: Seq<Seq<char>>,
    root: Seq<char>,
    exts: Seq<Seq<char>>,
) -> bool {
    &&& lower(cached_root) == lower(root)
    &&& cached_exts.map_values(lower_fn()).to_multiset() == exts.map_values(lower_fn()).to_multiset()
}

/// Applying `f` to every entry keeps two sequences with the same entries
/// with the same entries.
proof fn lemma_map_keeps_multiset(s1: Seq<Seq<char>>, s2: Seq<Seq<char>>, f: spec_fn(Seq<char>) -> Seq<char>)
    requires
        s1.to_multiset() == s2.to_multiset(),
    ensures
        s1.map_values(f).to_multiset() == s2.map_values(f).to_multiset(),
    decreases s1.len(),
{
    broadcast use {vstd::seq_lib::group_to_multiset_ensures, vstd::multiset::group_multiset_axioms};
    if s1.len() == 0 {
        assert(s2.to_multiset().len() == 0);
        assert(s2.len() == 0);
        assert(s1.map_values(f) =~= s2.map_values(f));
    } else {
        let x = s1.last();
        let t1 = s1.drop_last();
        assert(s1 =~= t1.push(x));
        assert(s1.to_multiset().contains(x));
        assert(s2.contains(x));
        let i = choose|i: int| 0 <= i < s2.len() && s2[i] == x;
        let t2 = s2.remove(i);
        vstd::seq_lib::to_multiset_remove(s2, i);
        vstd::seq_lib::to_multiset_build(t1, x);
        assert(t1.to_multiset() =~= t2.to_multiset());
        lemma_map_keeps_multiset(t1, t2, f);
        let m2 = s2.map_values(f);
        assert(s1.map_values(f) =~= t1.map_values(f).push(f(x)));
        vstd::seq_lib::to_multiset_build(t1.map_values(f), f(x));
        assert(m2.remove(i) =~= t2.map_values(f));
        vstd::seq_lib::to_multiset_remove(m2, i);
        assert(m2.to_multiset().contains(f(x)));
        assert(m2.to_multiset() =~= t2.map_values(f).to_multiset().insert(f(x)));
    }
}

/// A cache file written by `save` for a root and its extensions (kept as
/// `stored_extensions` lists them) serves that root and those extensions
/// again, whatever their case or order.
pub proof fn lemma_saved_cache_serves(root: Seq<char>, exts: Seq<Seq<char>>, stored: Seq<Seq<char>>)
    requires
        stored.to_multiset() == exts.to_multiset(),
    ensures
        cache_serves(root, stored, root, exts),
{
    lemma_map_keeps_multiset(stored, exts, lower_fn());
}

/// Each entry of `v`, ASCII-lower-cased.
fn lowered_all(v: &[String]) -> (r: Vec<String>)
    ensures
        r.deep_view() == v.deep_view().map_values(lower_fn()),
{
    let mut r: Vec<String> = Vec::new();
    let mut i: usize = 0;
    while i < v.len()
        invariant
            0 <= i <= v@.len(),
            r.deep_view() == v.deep_view().take(i as int).map_values(lower_fn()),
        decreases v@.len() - i,
    {
        let ghost before = r.deep_view();
        r.push(to_lower(v[i].as_str()));
        assert(r.deep_view() =~= before.push(lower(v.deep_view()[i as int])));
        assert(v.deep_view().take(i + 1) =~= v.deep_view().take(i as int).push(v.deep_view()[i as int]));
        assert(r.deep_view() =~= v.deep_view().take(i + 1).map_values(lower_fn()));
        i = i + 1;
    }
    assert(v.deep_view().take(v@.len() as int) =~= v.deep_view());
    r
}

fn sorted_copy(v: &[String]) -> (r: Vec<String>)
    ensures
        sorted_of(r.deep_view(), v.deep_view()),
{
    let mut r: Vec<String> = Vec::new();
    let mut i: usize = 0;
    while i < v.len()
        invariant
            0 <= i <= v@.len(),
            r.deep_view() == v.deep_view().take(i as int),
        decreases v@.len() - i,
    {
        let ghost before = r.deep_view();
        r.push(v[i].clone());
        assert(r.deep_view() =~= before.push(v.deep_view()[i as int]));
        assert(v.deep_view().take(i + 1) =~= v.deep_view().take(i as int).push(v.deep_view()[i as int]));
        i = i + 1;
    }
    assert(v.deep_view().take(v@.len() as int) =~= v.deep_view());
    sort_strings(&mut r);
    r
}

/// Does the cache file written for `cached_root` and `cached_exts` serve
/// `root` indexed for `exts`?
pub fn cache_matches(cached_root: &str, cached_exts: &[String], root: &str, exts: &[String]) -> (r: bool)
    ensures
        r == cache_serves(cached_root@, cached_exts.deep_view(), root@, exts.deep_view()),
        lower(cached_root@) == lower(root@) && cached_exts.deep_view().to_multiset()
            == exts.deep_view().to_multiset() ==> r,
{
    proof {
        if cached_exts.deep_view().to_multiset() == exts.deep_view().to_multiset() {
            lemma_saved_cache_serves(root@, exts.deep_view(), cached_exts.deep_view());
        }
    }
    let a = lower_chars(&chars_of(cached_root));
    let b = lower_chars(&chars_of(root));
    if !chars_eq(&a, &b) {
        return false;
    }
    let cl = lowered_all(cached_exts);
    let lowered = lowered_all(exts);
    let ghost c = cl.deep_view();
    let s1 = sorted_copy(cl.as_slice());
    let s2 = sorted_copy(lowered.as_slice());
    let ghost w = lowered.deep_view();
    proof {
        assert(w == exts.deep_view().map_values(lower_fn()));
        assert(c == cached_exts.deep_view().map_values(lower_fn()));
        assert(s1.deep_view().to_multiset() == c.to_multiset());
        assert(s2.deep_view().to_multiset() == w.to_multiset());
    }
    if s1.len() != s2.len() {
        proof {
            if c.to_multiset() == w.to_multiset() {
                assert(s1.deep_view().to_multiset() == s2.deep_view().to_multiset());
                lemma_sorted_unique(s1.deep_view(), s2.deep_view());
            }
        }
        return false;
    }
    let mut k: usize = 0;
    while k < s1.len()
        invariant
            0 <= k <= s1@.len(),
            s1@.len() == s2@.len(),
            sorted_of(s1.deep_view(), c),
            c == cached_exts.deep_view().map_values(lower_fn()),
            sorted_of(s2.deep_view(), w),
            w == exts.deep_view().map_values(lower_fn()),
            cached_exts.deep_view().to_multiset() == exts.deep_view().to_multiset() ==> c.to_multiset()
                == w.to_multiset(),
            forall|j: int| 0 <= j < k ==> s1.deep_view()[j] == s2.deep_view()[j],
        decreases s1@.len() - k,
    {
        if s1[k] != s2[k] {
            proof {
                if c.to_multiset() == w.to_multiset() {
                    assert(s1.deep_view().to_multiset() == s2.deep_view().to_multiset());
                    lemma_sorted_unique(s1.deep_view(), s2.deep_view());
                    assert(s1.deep_view()[k as int] == s2.deep_view()[k as int]);
                }
            }
            return false;
        }
        k = k + 1;
    }
    proof {
        assert(s1.deep_view() =~= s2.deep_view());
        assert(c.to_multiset() == w.to_multiset());
    }
    true
}

/// The cache file of a root does not depend on the ASCII case of the root,
/// nor on the case or order of the extensions it was indexed for.
pub proof fn lemma_cache_key_ignores_case_and_order(
    root1: Seq<char>,
    exts1: Seq<Seq<char>>,
    root2: Seq<char>,
    exts2: Seq<Seq<char>>,
)
    requires
        lower(root1) == lower(root2),
        exts1.map_values(lower_fn()).to_multiset() == exts2.map_values(lower_fn()).to_multiset(),
    ensures
        root_key_hash(lower(root1), key_exts(exts1)) == root_key_hash(lower(root2), key_exts(exts2)),
{
}

/// A cached list of `total` files of which `kept` still exist is still used:
/// small lists always are; larger ones while at least 92% of the files
/// remain (`kept / total >= 23 / 25`).
pub open spec fn keeps_enough(total: nat, kept: nat) -> bool {
    total <= 8 || 25 * kept >= 23 * total
}

/// Is a cached list of `total` files, `kept` of which still exist, still
/// good enough to use?
pub fn cache_keeps_enough(total: usize, kept: usize) -> (r: bool)
    ensures
        r == keeps_enough(total as nat, kept as nat),
{
    if total <= 8 {
        return true;
    }
    let k: u128 = kept as u128;
    let t: u128 = total as u128;
    25 * k >= 23 * t
}

/// The files of `files` whose existence probe in `exists` succeeded, in order.
pub open spec fn existing_files(files: Seq<Seq<char>>, exists: Seq<bool>) -> Seq<Seq<char>>
    decreases files.len(),
{
    if files.len() == 0 || exists.len() < files.len() {
        Seq::empty()
    } else {
        let n = files.len() - 1;
        let prev = existing_files(files.take(n), exists.take(n));
        if exists[n] { prev.push(files[n]) } else { prev }
    }
}

/// What loading a cache file gives: the recorded root and extensions must
/// serve the wanted ones and the recorded tree signature must be the current
/// one; then the recorded files that still exist, unless too many are gone.
pub open spec fn cache_load(
    cached_root: Seq<char>,
    cached_exts: Seq<Seq<char>>,
    cached_sig: u64,
    files: Seq<Seq<char>>,
    root: Seq<char>,
    exts: Seq<Seq<char>>,
    current_sig: u64,
    exists: Seq<bool>,
) -> Option<Seq<Seq<char>>> {
    let kept = existing_files(files, exists);
    if cache_serves(cached_root, cached_exts, root, exts) && cached_sig == current_sig
        && keeps_enough(files.len(), kept.len()) {
        Some(kept)
    } else {
        None
    }
}

/// The files a cache file still offers for `root` and `exts`, given the
/// current tree signature and, for each recorded file, whether it still
/// exists; `None` when the cache does not serve them.
pub fn cached_files(
    cached_root: &str,
    cached_exts: &[String],
    cached_sig: u64,
    files: Vec<String>,
    root: &str,
    exts: &[String],
    current_sig: u64,
    exists: &[bool],
) -> (r: Option<Vec<String>>)
    requires
        exists@.len() == files@.len(),
    ensures
        match r {
            Some(v) => cache_load(cached_root@, cached_exts.deep_view(), cached_sig, files.deep_view(), root@, exts.deep_view(), current_sig, exists@) == Some(v.deep_view()),
            None => cache_load(cached_root@, cached_exts.deep_view(), cached_sig, files.deep_view(), root@, exts.deep_view(), current_sig, exists@) is None,
        },
{
    if !cache_matches(cached_root, cached_exts, root, exts) || cached_sig != current_sig {
        return None;
    }
    let total = files.len();
    let mut kept: Vec<String> = Vec::new();
    let mut i: usize = 0;
    while i < files.len()
        invariant
            0 <= i <= files@.len(),
            exists@.len() == files@.len(),
            kept.deep_view() == existing_files(files.deep_view().take(i as int), exists@.take(i as int)),
            kept@.len() <= i,
        decreases files@.len() - i,
    {
        assert(files.deep_view().take(i + 1).take(i as int) =~= files.deep_view().take(i as int));
        assert(exists@.take(i + 1).take(i as int) =~= exists@.take(i as int));
        let ghost before = kept.deep_view();
        if exists[i] {
            kept.push(files[i].clone());
            assert(kept.deep_view() =~= before.push(files.deep_view()[i as int]));
        }
        i = i + 1;
    }
    assert(files.deep_view().take(files@.len() as int) =~= files.deep_view());
    assert(exists@.take(exists@.len() as int) =~= exists@);
    if cache_keeps_enough(total, kept.len()) {
        Some(kept)
    } else {
        None
    }
}

proof fn lemma_all_exist(files: Seq<Seq<char>>, exists: Seq<bool>)
    requires
        exists.len() == files.len(),
        forall|i: int| 0 <= i < exists.len() ==> exists[i],
    ensures
        existing_files(files, exists) == files,
    decreases files.len(),
{
    if files.len() > 0 {
        let n = files.len() - 1;
        lemma_all_exist(files.take(n), exists.take(n));
        assert(files.take(n).push(files[n]) =~= files);
    }
}

/// Saving then loading gives the list back: a cache file written for
/// `root` and `exts` (its extensions as `stored_extensions` keeps them),
/// read back while the tree signature is unchanged and every recorded file
/// still exists, offers exactly the recorded files.
pub proof fn lemma_saved_cache_round_trip(
    root: Seq<char>,
    exts: Seq<Seq<char>>,
    stored: Seq<Seq<char>>,
    sig: u64,
    files: Seq<Seq<char>>,
    exists: Seq<bool>,
)
    requires
        stored.to_multiset() == exts.to_multiset(),
        exists.len() == files.len(),
        forall|i: int| 0 <= i < exists.len() ==> exists[i],
    ensures
        cache_load(root, stored, sig, files, root, exts, sig, exists) == Some(files),
{
    lemma_saved_cache_serves(root, exts, stored);
    lemma_all_exist(files, exists);
}

/// Directory names a tree signature does not descend into.
pub open spec fn skipped_dir(name: Seq<char>) -> bool {
    ||| name == ".git"@
    ||| name == ".svn"@
    ||| name == ".hg"@
    ||| name == "node_modules"@
    ||| name == "$RECYCLE.BIN"@
    ||| name == "System Volume Information"@
    ||| name == "@eaDir"@
    ||| name == ".Trash"@
    ||| name == ".Trash-1000"@
}

/// Is `name` a directory the tree signature skips (version control,
/// recycle bins, system folders)?
pub fn skip_dir_name(name: &str) -> (r: bool)
    ensures
        r == skipped_dir(name@),
{
    let n = String::from_str(name);
    n == String::from_str(".git") || n == String::from_str(".svn") || n == String::from_str(".hg")
        || n == String::from_str("node_modules") || n == String::from_str("$RECYCLE.BIN")
        || n == String::from_str("System Volume Information") || n == String::from_str("@eaDir")
        || n == String::from_str(".Trash") || n == String::from_str(".Trash-1000")
}

} // verus!
