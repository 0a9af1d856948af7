//! Locating PotPlayer and recording which players a launch started.

use vstd::prelude::*;
use crate::text::{trimmed, trim};

verus! {

broadcast use vstd::std_specs::vec::group_vec_axioms;

/// Install locations probed when no path is configured (or it is missing).
pub open spec fn known_locations() -> Seq<Seq<char>> {
    seq![
        "C:\\Program Files\\DAUM\\PotPlayer\\PotPlayerMini64.exe"@,
        "C:\\Program Files\\DAUM\\PotPlayer\\PotPlayerMini.exe"@,
        "C:\\Program Files (x86)\\DAUM\\PotPlayer\\PotPlayerMini.exe"@,
    ]
}

/// Paths probed, in order: the configured path (trimmed) when not blank,
/// then the known install locations.
pub open spec fn candidates(configured: Seq<char>) -> Seq<Seq<char>> {
    if trimmed(configured).len() > 0 {
        seq![trimmed(configured)] + known_locations()
    } else {
        known_locations()
    }
}

/// The first candidate whose probe succeeded.
pub open spec fn first_found(cands: Seq<Seq<char>>, found: Seq<bool>) -> Option<Seq<char>>
    decreases cands.len(),
{
    if cands.len() == 0 || found.len() == 0 {
        None
    } else if found[0] {
        Some(cands[0])
    } else {
        first_found(cands.drop_first(), found.drop_first())
    }
}

/// The probe list for a configured player path.
pub fn potplayer_candidates(configured: &str) -> (v: Vec<String>)
    ensures
        v.deep_view() == candidates(configured@),
{
    let mut v: Vec<String> = Vec::new();
    let t = trim(configured);
    if t.unicode_len() > 0 {
        v.push(t);
    }
    v.push(String::from_str("C:\\Program Files\\DAUM\\PotPlayer\\PotPlayerMini64.exe"));
    v.push(String::from_str("C:\\Program Files\\DAUM\\PotPlayer\\PotPlayerMini.exe"));
    v.push(String::from_str("C:\\Program Files (x86)\\DAUM\\PotPlayer\\PotPlayerMini.exe"));
    assert(v.deep_view() =~= candidates(configured@));
    v
}

/// The first probed path that exists, given the probe results in order.
pub fn first_existing(cands: &Vec<String>, found: &[bool]) -> (r: Option<String>)
    ensures
        match r {
            Some(p) => first_found(cands.deep_view(), found@) == Some(p@),
            None => first_found(cands.deep_view(), found@) is None,
        },
{
    let mut i: usize = 0;
    assert(cands.deep_view().skip(0) =~= cands.deep_view());
    assert(found@.skip(0) =~= found@);
    while i < cands.len() && i < found.len()
        invariant
            0 <= i <= cands@.len(),
            i <= found@.len(),
            first_found(cands.deep_view(), found@) == first_found(
                cands.deep_view().skip(i as int),
                found@.skip(i as int),
            ),
        decreases cands@.len() - i,
    {
        if found[i] {
            assert(cands.deep_view().skip(i as int)[0] == cands.deep_view()[i as int]);
            return Some(cands[i].clone());
        }
        assert(cands.deep_view().skip(i as int).drop_first() =~= cands.deep_view().skip(i + 1));
        assert(found@.skip(i as int).drop_first() =~= found@.skip(i + 1));
        i = i + 1;
    }
    assert(cands.deep_view().skip(i as int).len() == 0 || found@.skip(i as int).len() == 0);
    None
}

/// Is there a regular file at `path` right now (`Path::is_file`)? The answer
/// depends on the disk, so nothing is promised about it.
#[verifier::external_body]
pub(crate) fn is_file(path: &str) -> bool {
    std::path::Path::new(path).is_file()
}

/// The configured player if it exists, else the first known install location
/// that exists: the first candidate, in order, whose probe found a file.
/// Which probes succeed depends on the disk, so the probe answers are left
/// open; the result is the first hit among them.
pub fn resolve_potplayer_path(configured: &str) -> (r: Option<String>)
    ensures
        r matches Some(p) ==> candidates(configured@).contains(p@),
        exists|found: Seq<bool>|
            found.len() == candidates(configured@).len() && match r {
                Some(p) => #[trigger] first_found(candidates(configured@), found) == Some(p@),
                None => first_found(candidates(configured@), found) is None,
            },
{
    let cands = potplayer_candidates(configured);
    let mut found: Vec<bool> = Vec::new();
    let mut i: usize = 0;
    while i < cands.len()
        invariant
            0 <= i <= cands@.len(),
            found@.len() == i,
        decreases cands@.len() - i,
    {
        found.push(is_file(cands[i].as_str()));
        i = i + 1;
    }
    let r = first_existing(&cands, found.as_slice());
    proof {
        lemma_first_found_member(cands.deep_view(), found@);
        assert(found@.len() == candidates(configured@).len());
    }
    r
}

proof fn lemma_first_found_member(cands: Seq<Seq<char>>, found: Seq<bool>)
    ensures
        first_found(cands, found) matches Some(p) ==> cands.contains(p),
    decreases cands.len(),
{
    if cands.len() > 0 && found.len() > 0 && !found[0] {
        lemma_first_found_member(cands.drop_first(), found.drop_first());
        if let Some(p) = first_found(cands, found) {
            let i = choose|i: int| 0 <= i < cands.drop_first().len() && cands.drop_first()[i] == p;
            assert(cands[i + 1] == p);
        }
    } else if cands.len() > 0 && found.len() > 0 {
        assert(cands[0] == cands[0]);
        assert(cands.contains(cands[0]));
    }
}

/// A player process started for one file.
#[derive(Debug, Clone)]
pub struct LaunchedItem {
    pub path: String,
    pub pid: u32,
}

impl LaunchedItem {
    /// A field-by-field copy.
    pub fn copy(&self) -> (r: LaunchedItem)
        ensures
            r == *self,
    {
        LaunchedItem { path: self.path.clone(), pid: self.pid }
    }
}

/// Players started and errors (`"<file>: <error>"`) for `files`, given the
/// outcome of launching each of them in order.
pub open spec fn launch_report(files: Seq<Seq<char>>, outcomes: Seq<Result<u32, Seq<char>>>) -> (Seq<(Seq<char>, u32)>, Seq<Seq<char>>)
    decreases files.len(),
{
    if files.len() == 0 || outcomes.len() == 0 {
        (Seq::empty(), Seq::empty())
    } else {
        let n = (files.len() - 1) as int;
        let prev = launch_report(files.take(n), outcomes.take(n));
        match outcomes[n] {
            Ok(pid) => (prev.0.push((files[n], pid)), prev.1),
            Err(e) => (prev.0, prev.1.push(files[n] + ": "@ + e)),
        }
    }
}

/// Splits launch outcomes into started players and error lines.
pub fn launch_many(files: &[String], outcomes: &[Result<u32, String>]) -> (r: (Vec<LaunchedItem>, Vec<String>))
    requires
        files@.len() == outcomes@.len(),
    ensures
        r.0@.map_values(|it: LaunchedItem| (it.path@, it.pid)) == launch_report(
            files.deep_view(),
            outcomes@.map_values(|o: Result<u32, String>| match o {
                Ok(p) => Ok(p),
                Err(e) => Err(e@),
            }),
        ).0,
        r.1.deep_view() == launch_report(
            files.deep_view(),
            outcomes@.map_values(|o: Result<u32, String>| match o {
                Ok(p) => Ok(p),
                Err(e) => Err(e@),
            }),
        ).1,
{
    let ghost fs = files.deep_view();
    let ghost os = outcomes@.map_values(|o: Result<u32, String>| match o {
        Ok(p) => Ok(p),
        Err(e) => Err(e@),
    });
    let mut ok: Vec<LaunchedItem> = Vec::new();
    let mut errors: Vec<String> = Vec::new();
    let mut i: usize = 0;
    while i < files.len()
        invariant
            0 <= i <= files@.len(),
            files@.len() == outcomes@.len(),
            fs == files.deep_view(),
            os == outcomes@.map_values(|o: Result<u32, String>| match o {
                Ok(p) => Ok(p),
                Err(e) => Err(e@),
            }),
            ok@.map_values(|it: LaunchedItem| (it.path@, it.pid)) == launch_report(fs.take(i as int), os.take(i as int)).0,
            errors.deep_view() == launch_report(fs.take(i as int), os.take(i as int)).1,
        decreases files@.len() - i,
    {
        assert(fs.take(i + 1).take(i as int) =~= fs.take(i as int));
        assert(os.take(i + 1).take(i as int) =~= os.take(i as int));
        let ghost ok0 = ok@.map_values(|it: LaunchedItem| (it.path@, it.pid));
        let ghost err0 = errors.deep_view();
        match &outcomes[i] {
            Ok(pid) => {
                ok.push(LaunchedItem { path: files[i].clone(), pid: *pid });
                assert(ok@.map_values(|it: LaunchedItem| (it.path@, it.pid)) =~= ok0.push((fs[i as int], *pid)));
            },
            Err(e) => {
                let mut line = files[i].clone();
                line.append(": ");
                line.append(e.as_str());
                errors.push(line);
                assert(errors.deep_view() =~= err0.push(fs[i as int] + ": "@ + e@));
            },
        }
        i = i + 1;
    }
    assert(fs.take(files@.len() as int) =~= fs);
    assert(os.take(files@.len() as int) =~= os);
    (ok, errors)
}

} // verus!
