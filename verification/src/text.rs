//! Character-level helpers for path strings: ASCII case folding, trimming and
//! comparing paths the way the Windows file system does.

use vstd::prelude::*;

verus! {

broadcast use vstd::string::group_string_axioms;

pub open spec fn is_ascii_upper(c: char) -> bool {
    'A' <= c && c <= 'Z'
}

/// `char::to_ascii_lowercase`: `A`..`Z` map to `a`..`z`, everything else is kept.
pub open spec fn ascii_lower(c: char) -> char {
    if is_ascii_upper(c) {
        ((c as u32) + 32) as char
    } else {
        c
    }
}

/// `str::to_ascii_lowercase` on the character sequence.
pub open spec fn lower(s: Seq<char>) -> Seq<char> {
    Seq::new(s.len(), |i: int| ascii_lower(s[i]))
}

/// Unicode `White_Space` (what `char::is_whitespace` and `str::trim` use).
pub open spec fn is_ws(c: char) -> bool {
    let u = c as u32;
    ||| 0x09 <= u <= 0x0d
    ||| u == 0x20
    ||| u == 0x85
    ||| u == 0xa0
    ||| u == 0x1680
    ||| 0x2000 <= u <= 0x200a
    ||| u == 0x2028
    ||| u == 0x2029
    ||| u == 0x202f
    ||| u == 0x205f
    ||| u == 0x3000
}

/// `str::trim`: leading and trailing white space removed.
pub open spec fn trimmed(s: Seq<char>) -> Seq<char>
    decreases s.len(),
{
    if s.len() > 0 && is_ws(s[0]) {
        trimmed(s.drop_first())
    } else if s.len() > 0 && is_ws(s.last()) {
        trimmed(s.drop_last())
    } else {
        s
    }
}

/// A path separator on Windows.
pub open spec fn is_sep(c: char) -> bool {
    c == '/' || c == '\\'
}

/// `trim_end_matches(['/', '\\'])`.
pub open spec fn strip_trailing_seps(s: Seq<char>) -> Seq<char>
    decreases s.len(),
{
    if s.len() > 0 && is_sep(s.last()) {
        strip_trailing_seps(s.drop_last())
    } else {
        s
    }
}

/// Comparison key of a library root: trimmed, without trailing separators,
/// ASCII case folded (Windows paths are case-insensitive).
pub open spec fn root_key(s: Seq<char>) -> Seq<char> {
    lower(strip_trailing_seps(trimmed(s)))
}

/// Comparison key of a media file path: ASCII case folded.
pub open spec fn file_key(s: Seq<char>) -> Seq<char> {
    lower(s)
}

/// The characters of `s`, in order.
pub fn chars_of(s: &str) -> (v: Vec<char>)
    ensures
        v@ == s@,
{
    let mut v: Vec<char> = Vec::new();
    for c in it: s.chars()
        invariant
            v@ == it.seq().take(it.index() as int),
    {
        v.push(c);
    }
    v
}

/// Builds a `String` from characters (std's `FromIterator<char>` for `String`).
#[verifier::external_body]
pub fn string_from_chars(v: &[char]) -> (s: String)
    ensures
        s@ == v@,
{
    v.iter().collect()
}

pub fn ascii_lower_char(c: char) -> (r: char)
    ensures
        r == ascii_lower(c),
{
    if c >= 'A' && c <= 'Z' {
        let b = (c as u8) + 32;
        b as char
    } else {
        c
    }
}

pub fn is_ws_char(c: char) -> (r: bool)
    ensures
        r == is_ws(c),
{
    let u = c as u32;
    (0x09 <= u && u <= 0x0d) || u == 0x20 || u == 0x85 || u == 0xa0 || u == 0x1680 || (0x2000
        <= u && u <= 0x200a) || u == 0x2028 || u == 0x2029 || u == 0x202f || u == 0x205f || u
        == 0x3000
}

/// ASCII lower-case copy of a character vector.
pub fn lower_chars(v: &Vec<char>) -> (r: Vec<char>)
    ensures
        r@ == lower(v@),
{
    let mut r: Vec<char> = Vec::new();
    let mut i: usize = 0;
    while i < v.len()
        invariant
            0 <= i <= v@.len(),
            r@.len() == i,
            forall|k: int| 0 <= k < i ==> r@[k] == ascii_lower(v@[k]),
        decreases v@.len() - i,
    {
        r.push(ascii_lower_char(v[i]));
        i = i + 1;
    }
    assert(r@ =~= lower(v@));
    r
}

/// `s.to_ascii_lowercase()`.
pub fn to_lower(s: &str) -> (r: String)
    ensures
        r@ == lower(s@),
{
    let v = chars_of(s);
    let l = lower_chars(&v);
    string_from_chars(l.as_slice())
}

/// Bounds `(i, j)` of the trimmed part of `v`.
fn trim_bounds(v: &Vec<char>) -> (b: (usize, usize))
    ensures
        b.0 <= b.1 <= v@.len(),
        trimmed(v@) == v@.subrange(b.0 as int, b.1 as int),
{
    let n = v.len();
    let mut i: usize = 0;
    assert(v@.subrange(0, n as int) =~= v@);
    while i < n && is_ws_char(v[i])
        invariant
            0 <= i <= n,
            n == v@.len(),
            trimmed(v@) == trimmed(v@.subrange(i as int, n as int)),
        decreases n - i,
    {
        let ghost sub = v@.subrange(i as int, n as int);
        assert(sub.drop_first() =~= v@.subrange(i + 1, n as int));
        i = i + 1;
    }
    let mut j: usize = n;
    while j > i && is_ws_char(v[j - 1])
        invariant
            0 <= i <= j <= n,
            n == v@.len(),
            i < n ==> !is_ws(v@[i as int]),
            trimmed(v@) == trimmed(v@.subrange(i as int, j as int)),
        decreases j,
    {
        let ghost sub = v@.subrange(i as int, j as int);
        assert(j - 1 != i);
        assert(sub.drop_last() =~= v@.subrange(i as int, j - 1));
        j = j - 1;
    }
    (i, j)
}

/// `s.trim()` as an owned string.
pub fn trim(s: &str) -> (r: String)
    ensures
        r@ == trimmed(s@),
{
    let v = chars_of(s);
    let (i, j) = trim_bounds(&v);
    string_from_chars(&v.as_slice()[i..j])
}

} // verus!

verus! {

/// `v` with trailing `/` and `\` removed.
pub fn strip_trailing_seps_chars(v: &Vec<char>) -> (r: Vec<char>)
    ensures
        r@ == strip_trailing_seps(v@),
{
    let mut j = v.len();
    assert(v@.subrange(0, j as int) =~= v@);
    while j > 0 && (v[j - 1] == '/' || v[j - 1] == '\\')
        invariant
            0 <= j <= v@.len(),
            strip_trailing_seps(v@) == strip_trailing_seps(v@.subrange(0, j as int)),
        decreases j,
    {
        assert(v@.subrange(0, j as int).drop_last() =~= v@.subrange(0, j - 1));
        j = j - 1;
    }
    let mut r: Vec<char> = Vec::new();
    let mut k: usize = 0;
    while k < j
        invariant
            0 <= k <= j <= v@.len(),
            r@ == v@.subrange(0, k as int),
        decreases j - k,
    {
        r.push(v[k]);
        k = k + 1;
        assert(r@ =~= v@.subrange(0, k as int));
    }
    r
}

/// Equality of two character vectors.
pub fn chars_eq(a: &Vec<char>, b: &Vec<char>) -> (r: bool)
    ensures
        r == (a@ == b@),
{
    if a.len() != b.len() {
        return false;
    }
    let mut i: usize = 0;
    while i < a.len()
        invariant
            0 <= i <= a@.len(),
            a@.len() == b@.len(),
            forall|k: int| 0 <= k < i ==> a@[k] == b@[k],
        decreases a@.len() - i,
    {
        if a[i] != b[i] {
            return false;
        }
        i = i + 1;
    }
    assert(a@ =~= b@);
    true
}

/// Comparison key of a media file path.
pub fn file_key_of(s: &str) -> (k: Vec<char>)
    ensures
        k@ == file_key(s@),
{
    lower_chars(&chars_of(s))
}

/// Comparison key of a library root.
pub fn root_key_of(s: &str) -> (k: Vec<char>)
    ensures
        k@ == root_key(s@),
{
    let v = chars_of(s);
    let (i, j) = trim_bounds(&v);
    let mut t: Vec<char> = Vec::new();
    let mut k: usize = i;
    while k < j
        invariant
            i <= k <= j <= v@.len(),
            t@ == v@.subrange(i as int, k as int),
        decreases j - k,
    {
        t.push(v[k]);
        k = k + 1;
        assert(t@ =~= v@.subrange(i as int, k as int));
    }
    lower_chars(&strip_trailing_seps_chars(&t))
}

/// Do `a` and `b` name the same media file (ASCII case-insensitively)?
pub fn same_file(a: &str, b: &str) -> (r: bool)
    ensures
        r == (file_key(a@) == file_key(b@)),
{
    chars_eq(&file_key_of(a), &file_key_of(b))
}

/// Do `a` and `b` name the same library root?
pub fn same_root(a: &str, b: &str) -> (r: bool)
    ensures
        r == (root_key(a@) == root_key(b@)),
{
    chars_eq(&root_key_of(a), &root_key_of(b))
}

} // verus!

verus! {

/// `Path::new(dir).join(name)` for a relative file name on Windows: a `\` is
/// inserted unless `dir` is empty or already ends with a separator.
pub open spec fn joined(dir: Seq<char>, name: Seq<char>) -> Seq<char> {
    if dir.len() == 0 {
        name
    } else if is_sep(dir.last()) {
        dir + name
    } else {
        dir + seq!['\\'] + name
    }
}

/// File `name` inside directory `dir`.
pub fn join_file(dir: &str, name: &str) -> (r: String)
    ensures
        r@ == joined(dir@, name@),
{
    let v = chars_of(dir);
    let mut r = String::from_str(dir);
    if v.len() > 0 && v[v.len() - 1] != '/' && v[v.len() - 1] != '\\' {
        r.append("\\");
        proof {
            reveal_strlit("\\");
        }
    }
    r.append(name);
    r
}

} // verus!

verus! {

proof fn lemma_trimmed_ends(s: Seq<char>)
    ensures
        trimmed(s).len() == 0 || (!is_ws(trimmed(s)[0]) && !is_ws(trimmed(s).last())),
    decreases s.len(),
{
    if s.len() > 0 && is_ws(s[0]) {
        lemma_trimmed_ends(s.drop_first());
    } else if s.len() > 0 && is_ws(s.last()) {
        lemma_trimmed_ends(s.drop_last());
    }
}

/// Trimming twice is trimming once.
pub proof fn lemma_trimmed_idempotent(s: Seq<char>)
    ensures
        trimmed(trimmed(s)) == trimmed(s),
{
    lemma_trimmed_ends(s);
    let t = trimmed(s);
    if t.len() == 0 {
        assert(trimmed(t) == t);
    }
}

/// ASCII case folding twice is folding once.
pub proof fn lemma_lower_idempotent(s: Seq<char>)
    ensures
        lower(lower(s)) == lower(s),
{
    assert(lower(lower(s)) =~= lower(s));
}

/// A root and its trimmed form are the same root.
pub proof fn lemma_root_key_trimmed(s: Seq<char>)
    ensures
        root_key(trimmed(s)) == root_key(s),
{
    lemma_trimmed_idempotent(s);
}

} // verus!

verus! {

/// The lower-case hexadecimal digit for `d` (below 16).
pub open spec fn hex_digit(d: nat) -> char {
    if d < 10 {
        ((48 + d) as u32) as char
    } else {
        ((87 + d) as u32) as char
    }
}

/// The last `k` hexadecimal digits of `x`, most significant first.
pub open spec fn hex_digits(x: nat, k: nat) -> Seq<char>
    decreases k,
{
    if k == 0 {
        Seq::empty()
    } else {
        hex_digits(x / 16, (k - 1) as nat).push(hex_digit(x % 16))
    }
}

/// `x` as sixteen zero-padded lower-case hexadecimal digits (`{:016x}`).
pub open spec fn hex16(x: u64) -> Seq<char> {
    hex_digits(x as nat, 16)
}

fn push_hex(x: u64, k: usize, out: &mut Vec<char>)
    ensures
        final(out)@ == old(out)@ + hex_digits(x as nat, k as nat),
    decreases k,
{
    if k > 0 {
        push_hex(x / 16, k - 1, out);
        let d = (x % 16) as u8;
        let c = if d < 10 {
            (48u8 + d) as char
        } else {
            (87u8 + d) as char
        };
        assert(c == hex_digit((x % 16) as nat));
        out.push(c);
    }
}

/// `x` formatted as `{:016x}`.
pub fn hex16_string(x: u64) -> (s: String)
    ensures
        s@ == hex16(x),
{
    let mut v: Vec<char> = Vec::new();
    push_hex(x, 16, &mut v);
    assert(v@ =~= hex16(x));
    string_from_chars(v.as_slice())
}

} // verus!
