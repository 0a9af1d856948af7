use suiji_potplayer::blacklist::Blacklist;
use suiji_potplayer::favorites::Favorites;

#[test]
fn add_dedupes_case_insensitive() {
    let mut b = Blacklist::default();
    b.add(r"D:\A.mkv");
    b.add(r"d:\a.mkv");
    assert_eq!(b.len(), 1);
    assert!(b.contains(r"D:\a.mkv"));
}

#[test]
fn toggle_and_dedupe() {
    let mut f = Favorites::default();
    assert!(f.toggle(r"D:\A.mkv"));
    assert!(f.contains(r"d:\a.mkv"));
    assert!(!f.toggle(r"d:\A.mkv"));
    assert_eq!(f.len(), 0);
    f.add(r"E:\b.mp4");
    f.add(r"e:\b.mp4");
    assert_eq!(f.len(), 1);
}

#[test]
fn blacklist_add_moves_newest_spelling_to_end() {
    let mut b = Blacklist::default();
    b.add(r"D:\A.mkv");
    b.add(r"D:\B.mkv");
    b.add(r"d:\a.mkv");
    assert_eq!(b.as_path_set(), vec![r"D:\B.mkv".to_string(), r"d:\a.mkv".to_string()]);
    b.remove(r"D:\b.MKV");
    assert_eq!(b.len(), 1);
    assert!(!b.contains(r"D:\B.mkv"));
}

#[test]
fn list_file_paths() {
    assert_eq!(Blacklist::path_movies("C:\\d"), "C:\\d\\blacklist.json");
    assert_eq!(Blacklist::path_images("C:\\d"), "C:\\d\\blacklist_images.json");
    assert_eq!(Favorites::path_movies("C:\\d"), "C:\\d\\favorites.json");
    assert_eq!(Favorites::path_images("C:\\d"), "C:\\d\\favorites_images.json");
}

#[test]
fn toggle_twice_restores_favorites() {
    let mut f = Favorites::default();
    f.add(r"E:\x.mp4");
    let before = f.as_path_set();
    f.toggle(r"E:\y.mp4");
    f.toggle(r"e:\Y.mp4");
    assert_eq!(f.as_path_set(), before);
    assert!(f.is_empty() == false);
}
