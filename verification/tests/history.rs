use suiji_potplayer::history::History;

fn s(v: &[&str]) -> Vec<String> {
    v.iter().map(|x| x.to_string()).collect()
}

#[test]
fn push_many_dedup_and_trim() {
    let mut h = History::default();
    h.push_many(&s(&["a", "b"]), 3);
    h.push_many(&s(&["a", "c"]), 3);
    assert_eq!(h.paths, vec!["b".to_string(), "a".to_string(), "c".to_string()]);
    h.push_many(&s(&["d"]), 3);
    assert_eq!(h.paths, vec!["a".to_string(), "c".to_string(), "d".to_string()]);
}

#[test]
fn push_many_keeps_newest_when_capped_to_zero() {
    let mut h = History::default();
    h.push_many(&s(&["a", "b"]), 0);
    assert!(h.paths.is_empty());
}

#[test]
fn push_many_repeat_moves_to_newest_end() {
    let mut h = History::default();
    h.push_many(&s(&["a", "b", "a"]), 10);
    assert_eq!(h.paths, s(&["b", "a"]));
}

#[test]
fn history_file_paths() {
    assert_eq!(History::path("C:\\data"), "C:\\data\\history.json");
    assert_eq!(History::path_for_images("C:\\data\\"), "C:\\data\\history_images.json");
}
