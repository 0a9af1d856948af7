//! File-name parts of Windows paths (`Path::file_name`, `file_stem`,
//! `extension`), computed on characters.

use vstd::prelude::*;
use crate::text::{is_sep, lower, chars_of, string_from_chars, lower_chars, chars_eq};

verus! {

pub open spec fn is_ascii_alpha(c: char) -> bool {
    ('a' <= c && c <= 'z') || ('A' <= c && c <= 'Z')
}

/// End of the component that starts at `i`: the first separator at or after
/// `i` (only `\\` in verbatim paths), or the end of `s`.
pub open spec fn comp_end(s: Seq<char>, i: int, verbatim: bool) -> int
    decreases s.len() - i,
{
    if i < 0 || i >= s.len() {
        s.len() as int
    } else if s[i] == '\\' || (!verbatim && s[i] == '/') {
        i
    } else {
        comp_end(s, i + 1, verbatim)
    }
}

/// Length of the Windows path prefix of `s` (0 when there is none), as
/// `Path` recognises it: `\\?\UNC\server\share`, `\\?\name` (a verbatim
/// disk `\\?\C:` among them), `\\.\device`, `\\server\share` (both parts
/// non-empty), or a drive such as `C:`.
pub open spec fn prefix_len(s: Seq<char>) -> int {
    if s.len() >= 2 && s[0] == '\\' && s[1] == '\\' {
        if s.len() >= 4 && s[2] == '?' && s[3] == '\\' {
            if s.len() >= 8 && s[4] == 'U' && s[5] == 'N' && s[6] == 'C' && s[7] == '\\' {
                let e1 = comp_end(s, 8, true);
                if e1 < s.len() {
                    comp_end(s, e1 + 1, true)
                } else {
                    e1
                }
            } else {
                comp_end(s, 4, true)
            }
        } else if s.len() >= 4 && s[2] == '.' && s[3] == '\\' {
            comp_end(s, 4, false)
        } else {
            let e1 = comp_end(s, 2, false);
            if 2 < e1 < s.len() && comp_end(s, e1 + 1, false) > e1 + 1 {
                comp_end(s, e1 + 1, false)
            } else {
                0
            }
        }
    } else if s.len() >= 2 && is_ascii_alpha(s[0]) && s[1] == ':' {
        2
    } else {
        0
    }
}

proof fn lemma_comp_end_bounds(s: Seq<char>, i: int, verbatim: bool)
    requires
        0 <= i,
    ensures
        i <= s.len() ==> i <= comp_end(s, i, verbatim) <= s.len(),
        i > s.len() ==> comp_end(s, i, verbatim) == s.len(),
    decreases s.len() - i,
{
    if i < s.len() && !(s[i] == '\\' || (!verbatim && s[i] == '/')) {
        lemma_comp_end_bounds(s, i + 1, verbatim);
    }
}

fn comp_end_exec(v: &Vec<char>, i: usize, verbatim: bool) -> (e: usize)
    requires
        i <= v@.len(),
    ensures
        e == comp_end(v@, i as int, verbatim),
        i <= e <= v@.len(),
{
    let mut k = i;
    proof {
        lemma_comp_end_bounds(v@, i as int, verbatim);
    }
    while k < v.len() && v[k] != '\\' && (verbatim || v[k] != '/')
        invariant
            i <= k <= v@.len(),
            comp_end(v@, i as int, verbatim) == comp_end(v@, k as int, verbatim),
        decreases v@.len() - k,
    {
        k = k + 1;
    }
    k
}

/// The length of the path prefix of `v`.
fn prefix_len_exec(v: &Vec<char>) -> (n: usize)
    ensures
        n as int == prefix_len(v@),
        n <= v@.len(),
{
    let len = v.len();
    if len >= 2 && v[0] == '\\' && v[1] == '\\' {
        if len >= 4 && v[2] == '?' && v[3] == '\\' {
            if len >= 8 && v[4] == 'U' && v[5] == 'N' && v[6] == 'C' && v[7] == '\\' {
                let e1 = comp_end_exec(v, 8, true);
                if e1 < len {
                    comp_end_exec(v, e1 + 1, true)
                } else {
                    e1
                }
            } else {
                comp_end_exec(v, 4, true)
            }
        } else if len >= 4 && v[2] == '.' && v[3] == '\\' {
            comp_end_exec(v, 4, false)
        } else {
            let e1 = comp_end_exec(v, 2, false);
            if 2 < e1 && e1 < len {
                let e2 = comp_end_exec(v, e1 + 1, false);
                if e2 > e1 + 1 {
                    e2
                } else {
                    0
                }
            } else {
                0
            }
        }
    } else if len >= 2 && ((v[0] >= 'a' && v[0] <= 'z') || (v[0] >= 'A' && v[0] <= 'Z')) && v[1] == ':' {
        2
    } else {
        0
    }
}

/// Start of the last component of `s` (index after the last separator at or
/// after `lo`, or `lo`).
pub open spec fn component_start(s: Seq<char>, lo: int) -> int
    decreases s.len(),
{
    if s.len() <= lo || s.len() == 0 {
        lo
    } else if is_sep(s.last()) {
        s.len() as int
    } else {
        component_start(s.drop_last(), lo)
    }
}

/// The last normal component of `s[..]` after position `lo`: trailing
/// separators and `.` components are skipped, `..` has no file name.
pub open spec fn name_from(s: Seq<char>, lo: int) -> Option<Seq<char>>
    decreases s.len(),
{
    if s.len() <= lo || lo < 0 {
        None
    } else if is_sep(s.last()) {
        name_from(s.drop_last(), lo)
    } else {
        let k = component_start(s, lo);
        let comp = s.subrange(k, s.len() as int);
        if comp == seq!['.'] {
            if lo <= k < s.len() {
                name_from(s.subrange(0, k), lo)
            } else {
                None
            }
        } else if comp == seq!['.', '.'] {
            None
        } else {
            Some(comp)
        }
    }
}

/// Where `name_from(s, lo)` lies in `s`: the start and end of the last
/// normal component after `lo`.
pub open spec fn name_bounds(s: Seq<char>, lo: int) -> Option<(int, int)>
    decreases s.len(),
{
    if s.len() <= lo || lo < 0 {
        None
    } else if is_sep(s.last()) {
        name_bounds(s.drop_last(), lo)
    } else {
        let k = component_start(s, lo);
        let comp = s.subrange(k, s.len() as int);
        if comp == seq!['.'] {
            if lo <= k < s.len() {
                name_bounds(s.subrange(0, k), lo)
            } else {
                None
            }
        } else if comp == seq!['.', '.'] {
            None
        } else {
            Some((k, s.len() as int))
        }
    }
}

/// The path up to where its file name starts (the whole path when it has
/// none): the directory a name is joined to when the file name is replaced.
pub open spec fn dir_part(s: Seq<char>) -> Seq<char> {
    match name_bounds(s, prefix_len(s)) {
        Some((k, _)) => s.subrange(0, k),
        None => s,
    }
}

/// `Path::file_name` of a Windows path.
pub open spec fn file_name(s: Seq<char>) -> Option<Seq<char>> {
    name_from(s, prefix_len(s))
}

/// Index of the last `.` in `s`, or -1.
pub open spec fn last_dot(s: Seq<char>) -> int
    decreases s.len(),
{
    if s.len() == 0 {
        -1
    } else if s.last() == '.' {
        s.len() - 1
    } else {
        last_dot(s.drop_last())
    }
}

/// Stem of a file name: everything before the last `.`, unless that `.` is
/// the first character or there is none.
pub open spec fn name_stem(name: Seq<char>) -> Seq<char> {
    let d = last_dot(name);
    if d <= 0 {
        name
    } else {
        name.subrange(0, d)
    }
}

/// Extension of a file name: everything after the last `.`, when that `.`
/// is not the first character.
pub open spec fn name_extension(name: Seq<char>) -> Option<Seq<char>> {
    let d = last_dot(name);
    if d <= 0 {
        None
    } else {
        Some(name.subrange(d + 1, name.len() as int))
    }
}

/// `Path::file_stem`.
pub open spec fn file_stem(s: Seq<char>) -> Option<Seq<char>> {
    match file_name(s) {
        Some(n) => Some(name_stem(n)),
        None => None,
    }
}

/// `Path::extension`.
pub open spec fn extension(s: Seq<char>) -> Option<Seq<char>> {
    match file_name(s) {
        Some(n) => name_extension(n),
        None => None,
    }
}

proof fn lemma_component_start(s: Seq<char>, lo: int)
    requires
        0 <= lo,
    ensures
        lo <= component_start(s, lo) <= (if s.len() > lo { s.len() as int } else { lo }),
        forall|i: int| component_start(s, lo) <= i < s.len() ==> !is_sep(#[trigger] s[i]),
        component_start(s, lo) > lo ==> is_sep(s[component_start(s, lo) - 1]),
    decreases s.len(),
{
    if s.len() > lo && !is_sep(s.last()) {
        lemma_component_start(s.drop_last(), lo);
        let k = component_start(s.drop_last(), lo);
        assert forall|i: int| k <= i < s.len() implies !is_sep(#[trigger] s[i]) by {
            if i < s.len() - 1 {
                assert(s.drop_last()[i] == s[i]);
            }
        }
    }
}

/// Scans back from `j` to the start of the component that ends at `j`.
fn component_start_exec(v: &Vec<char>, lo: usize, j: usize) -> (k: usize)
    requires
        lo <= j <= v@.len(),
    ensures
        k == component_start(v@.subrange(0, j as int), lo as int),
{
    let mut k = j;
    while k > lo && v[k - 1] != '/' && v[k - 1] != '\\'
        invariant
            lo <= k <= j <= v@.len(),
            component_start(v@.subrange(0, j as int), lo as int) == component_start(
                v@.subrange(0, k as int),
                lo as int,
            ),
        decreases k,
    {
        assert(v@.subrange(0, k as int).drop_last() =~= v@.subrange(0, k - 1));
        k = k - 1;
    }
    k
}

/// Bounds of `file_name(v)` inside `v`, if it has one.
pub fn file_name_bounds(v: &Vec<char>) -> (r: Option<(usize, usize)>)
    ensures
        r is None <==> file_name(v@) is None,
        r matches Some(b) ==> b.0 <= b.1 <= v@.len() && file_name(v@) == Some(
            v@.subrange(b.0 as int, b.1 as int),
        ),
        r is None <==> name_bounds(v@, prefix_len(v@)) is None,
        r matches Some(b) ==> name_bounds(v@, prefix_len(v@)) == Some((b.0 as int, b.1 as int)),
{
    let n = v.len();
    let lo: usize = prefix_len_exec(v);
    let mut j: usize = n;
    assert(v@.subrange(0, n as int) =~= v@);
    loop
        invariant
            j <= n,
            n == v@.len(),
            lo as int == prefix_len(v@),
            lo <= n,
            file_name(v@) == name_from(v@.subrange(0, j as int), lo as int),
            name_bounds(v@, lo as int) == name_bounds(v@.subrange(0, j as int), lo as int),
        decreases j,
    {
        if j <= lo {
            return None;
        }
        let ghost s = v@.subrange(0, j as int);
        if v[j - 1] == '/' || v[j - 1] == '\\' {
            assert(s.drop_last() =~= v@.subrange(0, j - 1));
            j = j - 1;
        } else {
            let k = component_start_exec(v, lo, j);
            proof {
                lemma_component_start(s, lo as int);
            }
            let len = j - k;
            assert(s.subrange(k as int, j as int) =~= v@.subrange(k as int, j as int));
            if len == 1 && v[k] == '.' {
                assert(v@.subrange(k as int, j as int) =~= seq!['.']);
                assert(s.subrange(0, k as int) =~= v@.subrange(0, k as int));
                j = k;
            } else if len == 2 && v[k] == '.' && v[k + 1] == '.' {
                assert(v@.subrange(k as int, j as int) =~= seq!['.', '.']);
                return None;
            } else {
                proof {
                    if v@.subrange(k as int, j as int) == seq!['.'] {
                        assert(v@.subrange(k as int, j as int)[0] == v@[k as int]);
                    }
                    if v@.subrange(k as int, j as int) == seq!['.', '.'] {
                        assert(v@.subrange(k as int, j as int)[0] == v@[k as int]);
                        assert(v@.subrange(k as int, j as int)[1] == v@[k + 1]);
                    }
                }
                return Some((k, j));
            }
        }
    }
}

} // verus!

verus! {

proof fn lemma_last_dot_bounds(s: Seq<char>)
    ensures
        -1 <= last_dot(s) < s.len(),
    decreases s.len(),
{
    if s.len() > 0 && s.last() != '.' {
        lemma_last_dot_bounds(s.drop_last());
    }
}

/// Index of the last `.` in `v[lo..hi]` relative to `lo`, if any.
fn last_dot_in(v: &Vec<char>, lo: usize, hi: usize) -> (d: Option<usize>)
    requires
        lo <= hi <= v@.len(),
    ensures
        d is None ==> last_dot(v@.subrange(lo as int, hi as int)) == -1,
        d matches Some(i) ==> i == last_dot(v@.subrange(lo as int, hi as int)) && i < hi - lo,
{
    let mut j = hi;
    assert(v@.subrange(lo as int, hi as int) =~= v@.subrange(lo as int, j as int));
    while j > lo
        invariant
            lo <= j <= hi <= v@.len(),
            last_dot(v@.subrange(lo as int, hi as int)) == last_dot(v@.subrange(lo as int, j as int)),
        decreases j,
    {
        let ghost s = v@.subrange(lo as int, j as int);
        if v[j - 1] == '.' {
            return Some(j - 1 - lo);
        }
        assert(s.drop_last() =~= v@.subrange(lo as int, j - 1));
        j = j - 1;
    }
    None
}

fn sub_string(v: &Vec<char>, lo: usize, hi: usize) -> (s: String)
    requires
        lo <= hi <= v@.len(),
    ensures
        s@ == v@.subrange(lo as int, hi as int),
{
    string_from_chars(&v.as_slice()[lo..hi])
}

/// `Path::new(path).file_name()`.
pub fn file_name_of(path: &str) -> (r: Option<String>)
    ensures
        r is None <==> file_name(path@) is None,
        r matches Some(n) ==> file_name(path@) == Some(n@),
{
    let v = chars_of(path);
    match file_name_bounds(&v) {
        None => None,
        Some((k, j)) => Some(sub_string(&v, k, j)),
    }
}

/// `Path::new(path).file_stem()`.
pub fn file_stem_of(path: &str) -> (r: Option<String>)
    ensures
        r is None <==> file_stem(path@) is None,
        r matches Some(n) ==> file_stem(path@) == Some(n@),
{
    let v = chars_of(path);
    match file_name_bounds(&v) {
        None => None,
        Some((k, j)) => {
            match last_dot_in(&v, k, j) {
                Some(d) if d > 0 => {
                    let s = sub_string(&v, k, k + d);
                    assert(s@ =~= v@.subrange(k as int, j as int).subrange(0, d as int));
                    Some(s)
                },
                _ => Some(sub_string(&v, k, j)),
            }
        },
    }
}

/// `Path::new(path).extension()`.
pub fn extension_of(path: &str) -> (r: Option<String>)
    ensures
        r is None <==> extension(path@) is None,
        r matches Some(e) ==> extension(path@) == Some(e@),
{
    let v = chars_of(path);
    match file_name_bounds(&v) {
        None => None,
        Some((k, j)) => {
            match last_dot_in(&v, k, j) {
                Some(d) if d > 0 => {
                    let s = sub_string(&v, k + d + 1, j);
                    assert(s@ =~= v@.subrange(k as int, j as int).subrange(d + 1, (j - k) as int));
                    Some(s)
                },
                _ => None,
            }
        },
    }
}

} // verus!

verus! {

/// Title shown for a file: its stem, else its file name, else the path itself.
pub open spec fn title_of(s: Seq<char>) -> Seq<char> {
    match file_stem(s) {
        Some(st) if st.len() > 0 => st,
        _ => match file_name(s) {
            Some(n) if n.len() > 0 => n,
            _ => s,
        },
    }
}

/// The title cut to at most `max` characters, ending in `…` when cut.
pub open spec fn truncated_title(s: Seq<char>, max: nat) -> Seq<char> {
    let d = title_of(s);
    if d.len() <= max {
        d
    } else {
        d.take(if max >= 1 { max - 1 } else { 0 }).push('…')
    }
}

/// Image file extensions (lower case, without the dot).
pub open spec fn is_image_ext(e: Seq<char>) -> bool {
    ||| e == seq!['j', 'p', 'g']
    ||| e == seq!['j', 'p', 'e', 'g']
    ||| e == seq!['p', 'n', 'g']
    ||| e == seq!['w', 'e', 'b', 'p']
    ||| e == seq!['b', 'm', 'p']
    ||| e == seq!['g', 'i', 'f']
    ||| e == seq!['t', 'i', 'f']
    ||| e == seq!['t', 'i', 'f', 'f']
}

/// Title for UI lists: the file stem, with no extension or directories.
pub fn file_title(s: &str) -> (t: String)
    ensures
        t@ == title_of(s@),
{
    match file_stem_of(s) {
        Some(st) if st.unicode_len() > 0 => st,
        _ => match file_name_of(s) {
            Some(n) if n.unicode_len() > 0 => n,
            _ => String::from_str(s),
        },
    }
}

/// The file title, cut to `max_chars` characters with a trailing `…`.
pub fn truncate_path(s: &str, max_chars: usize) -> (t: String)
    ensures
        t@ == truncated_title(s@, max_chars as nat),
{
    let display = file_title(s);
    let v = chars_of(display.as_str());
    if v.len() <= max_chars {
        display
    } else {
        let take = if max_chars >= 1 {
            max_chars - 1
        } else {
            0
        };
        let mut out: Vec<char> = Vec::new();
        let mut i: usize = 0;
        while i < take
            invariant
                0 <= i <= take < v@.len(),
                out@ == v@.take(i as int),
            decreases take - i,
        {
            out.push(v[i]);
            i = i + 1;
            assert(out@ =~= v@.take(i as int));
        }
        out.push('…');
        string_from_chars(out.as_slice())
    }
}

/// Does the path have an image file extension (any case)?
pub fn is_image_path(p: &str) -> (r: bool)
    ensures
        r == match extension(p@) {
            Some(e) => is_image_ext(lower(e)),
            None => false,
        },
{
    match extension_of(p) {
        None => false,
        Some(e) => {
            let l = lower_chars(&chars_of(e.as_str()));
            chars_eq(&l, &vec!['j', 'p', 'g']) || chars_eq(&l, &vec!['j', 'p', 'e', 'g'])
                || chars_eq(&l, &vec!['p', 'n', 'g']) || chars_eq(&l, &vec!['w', 'e', 'b', 'p'])
                || chars_eq(&l, &vec!['b', 'm', 'p']) || chars_eq(&l, &vec!['g', 'i', 'f'])
                || chars_eq(&l, &vec!['t', 'i', 'f']) || chars_eq(&l, &vec!['t', 'i', 'f', 'f'])
        },
    }
}

} // verus!
