use suiji_potplayer::picker::{pick, pick_one_excluding};

fn paths(names: &[&str]) -> Vec<String> {
    names.iter().map(|x| x.to_string()).collect()
}

#[test]
fn pick_one_skips_exclude_and_blacklist() {
    let lib = paths(&["a.mkv", "b.mkv", "c.mkv"]);
    let ex = paths(&["a.mkv", "b.mkv"]);
    let bl = paths(&[]);
    let got = pick_one_excluding(&lib, false, &[], &bl, &ex).unwrap();
    assert_eq!(got, "c.mkv".to_string());
    let bl2 = paths(&["c.mkv"]);
    assert!(pick_one_excluding(&lib, false, &[], &bl2, &ex).is_none());
}

#[test]
fn pick_n_greater_than_library_returns_all() {
    let lib = paths(&["a.mkv", "b.mkv"]);
    let got = pick(&lib, 10, false, &[], &[]);
    assert_eq!(got.len(), 2);
}

#[test]
fn avoid_recent_prefers_others() {
    let lib = paths(&["a.mkv", "b.mkv", "c.mkv", "d.mkv", "e.mkv", "f.mkv"]);
    let recent = paths(&["a.mkv", "b.mkv", "c.mkv", "d.mkv"]);
    for _ in 0..20 {
        let got = pick(&lib, 2, true, &recent, &[]);
        assert_eq!(got.len(), 2);
        for g in &got {
            let s = g.as_str();
            assert!(s == "e.mkv" || s == "f.mkv", "got unexpected {s}");
        }
    }
}

#[test]
fn avoid_when_exhausted_still_returns() {
    let lib = paths(&["a.mkv", "b.mkv"]);
    let recent = paths(&["a.mkv", "b.mkv"]);
    let got = pick(&lib, 2, true, &recent, &[]);
    assert_eq!(got.len(), 2);
}

#[test]
fn blacklist_never_picked() {
    let lib = paths(&["a.mkv", "b.mkv", "c.mkv"]);
    let blocked = paths(&["a.mkv", "b.mkv"]);
    for _ in 0..15 {
        let got = pick(&lib, 2, false, &[], &blocked);
        assert_eq!(got.len(), 1);
        assert_eq!(got[0], "c.mkv");
    }
}

#[test]
fn all_blacklisted_returns_empty() {
    let lib = paths(&["a.mkv", "b.mkv"]);
    let blocked = paths(&["a.mkv", "b.mkv"]);
    let got = pick(&lib, 2, false, &[], &blocked);
    assert!(got.is_empty());
}

#[test]
fn too_few_fresh_titles_are_all_taken() {
    let lib = paths(&["a.mkv", "b.mkv", "c.mkv", "d.mkv"]);
    let recent = paths(&["a.mkv", "b.mkv", "c.mkv"]);
    for _ in 0..10 {
        let got = pick(&lib, 3, true, &recent, &[]);
        assert_eq!(got.len(), 3);
        assert!(got.iter().any(|g| g == "d.mkv"));
    }
}

#[test]
fn blacklist_match_ignores_ascii_case() {
    let lib = paths(&["D:\\A.mkv", "D:\\b.mkv"]);
    let blocked = paths(&["d:\\a.MKV"]);
    for _ in 0..10 {
        let got = pick(&lib, 2, false, &[], &blocked);
        assert_eq!(got, paths(&["D:\\b.mkv"]));
    }
}
