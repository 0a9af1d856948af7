//! A scanned media library: its root and the matching files.

use vstd::prelude::*;
use crate::text::{lower, chars_of, lower_chars, chars_eq};
use crate::pathname::{extension, extension_of};
use vstd::utf8::{encode_utf8, encode_utf8_decode_utf8};

verus! {

#[derive(Debug, Clone)]
pub struct Library {
    pub root: String,
    pub files: Vec<String>,
}

/// A path whose extension, lower-cased and with a dot, is one of `exts`
/// (each compared lower-cased).
pub open spec fn has_listed_extension(path: Seq<char>, exts: Seq<Seq<char>>) -> bool {
    match extension(path) {
        Some(e) => exists|i: int| 0 <= i < exts.len() && lower(#[trigger] exts[i]) == seq!['.'] + lower(e),
        None => false,
    }
}

impl Library {
    pub fn empty() -> (l: Self)
        ensures
            l.root@ == Seq::<char>::empty(),
            l.files@.len() == 0,
    {
        Library { root: String::new(), files: Vec::new() }
    }

    pub fn len(&self) -> (n: usize)
        ensures
            n == self.files@.len(),
    {
        self.files.len()
    }

    pub fn is_empty(&self) -> (e: bool)
        ensures
            e == (self.files@.len() == 0),
    {
        self.files.len() == 0
    }

    /// Does a scanned file with this path belong in the library?
    pub fn matches_extension(path: &str, extensions: &[String]) -> (r: bool)
        ensures
            r == has_listed_extension(path@, extensions.deep_view()),
    {
        match extension_of(path) {
            None => false,
            Some(e) => {
                let mut want: Vec<char> = vec!['.'];
                let le = lower_chars(&chars_of(e.as_str()));
                let mut k: usize = 0;
                while k < le.len()
                    invariant
                        0 <= k <= le@.len(),
                        want@ == seq!['.'] + le@.take(k as int),
                    decreases le@.len() - k,
                {
                    want.push(le[k]);
                    k = k + 1;
                    assert(want@ =~= seq!['.'] + le@.take(k as int));
                }
                assert(le@.take(le@.len() as int) =~= le@);
                let mut i: usize = 0;
                while i < extensions.len()
                    invariant
                        0 <= i <= extensions@.len(),
                        want@ == seq!['.'] + lower(e@),
                        extension(path@) == Some(e@),
                        forall|j: int| 0 <= j < i ==> lower(#[trigger] extensions.deep_view()[j]) != want@,
                    decreases extensions@.len() - i,
                {
                    let x = lower_chars(&chars_of(extensions[i].as_str()));
                    if chars_eq(&x, &want) {
                        assert(lower(extensions.deep_view()[i as int]) == want@);
                        assert(has_listed_extension(path@, extensions.deep_view()));
                        return true;
                    }
                    i = i + 1;
                }
                assert(!has_listed_extension(path@, extensions.deep_view()));
                false
            },
        }
    }
}

} // verus!

verus! {

/// Lexicographic order of byte strings: a proper prefix comes first.
pub open spec fn bytes_lt(x: Seq<u8>, y: Seq<u8>) -> bool
    decreases x.len(),
{
    if y.len() == 0 {
        false
    } else if x.len() == 0 {
        true
    } else if x[0] != y[0] {
        x[0] < y[0]
    } else {
        bytes_lt(x.drop_first(), y.drop_first())
    }
}

/// The order of `String` (`Ord`): by the bytes of the UTF-8 encoding.
pub open spec fn str_le(a: Seq<char>, b: Seq<char>) -> bool {
    encode_utf8(a) == encode_utf8(b) || bytes_lt(encode_utf8(a), encode_utf8(b))
}

pub open spec fn str_lt(a: Seq<char>, b: Seq<char>) -> bool {
    bytes_lt(encode_utf8(a), encode_utf8(b))
}

/// Strictly increasing in the order of `String`, hence free of repeats.
pub open spec fn sorted_distinct(s: Seq<Seq<char>>) -> bool {
    forall|i: int, j: int| 0 <= i < j < s.len() ==> str_lt(#[trigger] s[i], #[trigger] s[j])
}

proof fn lemma_bytes_lt_trans(x: Seq<u8>, y: Seq<u8>, z: Seq<u8>)
    requires
        bytes_lt(x, y),
        bytes_lt(y, z),
    ensures
        bytes_lt(x, z),
    decreases x.len(),
{
    if x.len() > 0 && y.len() > 0 && z.len() > 0 && x[0] == y[0] && y[0] == z[0] {
        lemma_bytes_lt_trans(x.drop_first(), y.drop_first(), z.drop_first());
    }
}

proof fn lemma_bytes_lt_irreflexive(x: Seq<u8>)
    ensures
        !bytes_lt(x, x),
    decreases x.len(),
{
    if x.len() > 0 {
        lemma_bytes_lt_irreflexive(x.drop_first());
    }
}

proof fn lemma_encode_injective(a: Seq<char>, b: Seq<char>)
    requires
        encode_utf8(a) == encode_utf8(b),
    ensures
        a == b,
{
    encode_utf8_decode_utf8(a);
    encode_utf8_decode_utf8(b);
}

/// Sorts `v` (`slice::sort_unstable`) in the order of `String`: by the bytes
/// of each string. Only the order changes.
#[verifier::external_body]
pub(crate) fn sort_strings(v: &mut Vec<String>)
    ensures
        final(v).deep_view().to_multiset() == old(v).deep_view().to_multiset(),
        forall|i: int, j: int|
            0 <= i < j < final(v)@.len() ==> str_le(
                #[trigger] final(v).deep_view()[i],
                #[trigger] final(v).deep_view()[j],
            ),
{
    v.sort_unstable();
}

/// The distinct entries of `files`, sorted.
pub fn sorted_unique(files: Vec<String>) -> (r: Vec<String>)
    ensures
        sorted_distinct(r.deep_view()),
        r.deep_view().to_set() == files.deep_view().to_set(),
{
    let mut v = files;
    let ghost v0 = v.deep_view();
    sort_strings(&mut v);
    let ghost sv = v.deep_view();
    proof {
        assert forall|x: Seq<char>| sv.contains(x) <==> v0.contains(x) by {
            vstd::seq_lib::to_multiset_contains(sv, x);
            vstd::seq_lib::to_multiset_contains(v0, x);
        }
    }
    let mut out: Vec<String> = Vec::new();
    let mut i: usize = 0;
    while i < v.len()
        invariant
            0 <= i <= v@.len(),
            sv == v.deep_view(),
            forall|a: int, b: int| 0 <= a < b < sv.len() ==> str_le(#[trigger] sv[a], #[trigger] sv[b]),
            sorted_distinct(out.deep_view()),
            out.deep_view().to_set() == sv.take(i as int).to_set(),
            i > 0 ==> out@.len() > 0 && out.deep_view().last() == sv[i - 1],
            i == 0 ==> out@.len() == 0,
        decreases v@.len() - i,
    {
        let ghost before = out.deep_view();
        let fresh = out.len() == 0 || out[out.len() - 1] != v[i];
        if fresh {
            proof {
                if before.len() > 0 {
                    let last = before.last();
                    assert(str_le(sv[i - 1], sv[i as int]));
                    if encode_utf8(last) == encode_utf8(sv[i as int]) {
                        lemma_encode_injective(last, sv[i as int]);
                    }
                    assert(str_lt(last, sv[i as int]));
                    assert forall|k: int| 0 <= k < before.len() implies str_lt(before[k], sv[i as int]) by {
                        if k < before.len() - 1 {
                            assert(str_lt(before[k], before[before.len() - 1]));
                            lemma_bytes_lt_trans(
                                encode_utf8(before[k]),
                                encode_utf8(last),
                                encode_utf8(sv[i as int]),
                            );
                        }
                    }
                }
            }
            out.push(v[i].clone());
            assert(out.deep_view() =~= before.push(sv[i as int]));
        }
        proof {
            assert(sv.take(i + 1) =~= sv.take(i as int).push(sv[i as int]));
            assert(out.deep_view().to_set() =~= sv.take(i + 1).to_set()) by {
                sv.take(i as int).lemma_push_to_set_commute(sv[i as int]);
                if fresh {
                    before.lemma_push_to_set_commute(sv[i as int]);
                } else {
                    assert(before.contains(sv[i as int])) by {
                        assert(before[before.len() - 1] == sv[i as int]);
                    }
                }
            }
        }
        i = i + 1;
    }
    proof {
        assert(sv.take(v@.len() as int) =~= sv);
        assert(sv.to_set() =~= v0.to_set());
    }
    out
}

} // verus!

verus! {

/// Sorted in the order of `String`, repeats allowed.
pub open spec fn sorted_le(s: Seq<Seq<char>>) -> bool {
    forall|i: int, j: int| 0 <= i < j < s.len() ==> str_le(#[trigger] s[i], #[trigger] s[j])
}

proof fn lemma_bytes_lt_asym(x: Seq<u8>, y: Seq<u8>)
    requires
        bytes_lt(x, y),
    ensures
        !bytes_lt(y, x),
{
    if bytes_lt(y, x) {
        lemma_bytes_lt_trans(x, y, x);
        lemma_bytes_lt_irreflexive(x);
    }
}

/// Two strings that are each no greater than the other are equal.
proof fn lemma_str_le_antisym(a: Seq<char>, b: Seq<char>)
    requires
        str_le(a, b),
        str_le(b, a),
    ensures
        a == b,
{
    if encode_utf8(a) != encode_utf8(b) {
        lemma_bytes_lt_asym(encode_utf8(a), encode_utf8(b));
    } else {
        lemma_encode_injective(a, b);
    }
}

/// A multiset has one sorted arrangement: two sorted sequences with the
/// same entries are equal.
pub proof fn lemma_sorted_unique(t1: Seq<Seq<char>>, t2: Seq<Seq<char>>)
    requires
        sorted_le(t1),
        sorted_le(t2),
        t1.to_multiset() == t2.to_multiset(),
    ensures
        t1 == t2,
    decreases t1.len(),
{
    broadcast use {vstd::seq_lib::group_to_multiset_ensures, vstd::multiset::group_multiset_axioms};

    assert(t1.len() == t2.len()) by {
        assert(t1.to_multiset().len() == t1.len());
        assert(t2.to_multiset().len() == t2.len());
    }
    if t1.len() == 0 {
        assert(t1 =~= t2);
        return;
    }
    let n = t1.len() - 1;
    let a = t1[n];
    let b = t2[n];
    // each last entry is a greatest entry of the shared multiset
    assert(t1.to_multiset().count(b) > 0) by {
        assert(t2.contains(b));
        vstd::seq_lib::to_multiset_contains(t2, b);
    }
    assert(t2.to_multiset().count(a) > 0) by {
        assert(t1.contains(a));
        vstd::seq_lib::to_multiset_contains(t1, a);
    }
    vstd::seq_lib::to_multiset_contains(t1, b);
    vstd::seq_lib::to_multiset_contains(t2, a);
    let ib = choose|i: int| 0 <= i < t1.len() && t1[i] == b;
    let ia = choose|i: int| 0 <= i < t2.len() && t2[i] == a;
    assert(str_le(b, a)) by {
        if ib < n {
            assert(str_le(t1[ib], t1[n]));
        } else {
            assert(encode_utf8(b) == encode_utf8(a));
        }
    }
    assert(str_le(a, b)) by {
        if ia < n {
            assert(str_le(t2[ia], t2[n]));
        } else {
            assert(encode_utf8(a) == encode_utf8(b));
        }
    }
    lemma_str_le_antisym(a, b);
    let d1 = t1.drop_last();
    let d2 = t2.drop_last();
    assert(t1 =~= d1.push(a));
    assert(t2 =~= d2.push(a));
    vstd::seq_lib::to_multiset_build(d1, a);
    vstd::seq_lib::to_multiset_build(d2, a);
    assert(d1.to_multiset() =~= d2.to_multiset()) by {
        assert forall|x: Seq<char>| d1.to_multiset().count(x) == d2.to_multiset().count(x) by {
            assert(d1.to_multiset().insert(a).count(x) == d2.to_multiset().insert(a).count(x));
        }
    }
    assert(sorted_le(d1));
    assert(sorted_le(d2));
    lemma_sorted_unique(d1, d2);
}

} // verus!
