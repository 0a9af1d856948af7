use std::hash::{Hash, Hasher};
use suiji_potplayer::tree_sig::{
    sig_finish, sig_next_dir, sig_start, sig_visit, Kid, SigItem, MAX_DIRS, SIG_VERSION,
};

fn kid(is_dir: bool, name: &str, path: &str) -> Kid {
    Kid { is_dir, name: name.to_string(), path: path.to_string() }
}

fn text(s: &str) -> SigItem {
    SigItem::Text(s.to_string())
}

fn walk(mtime: (u64, u32)) -> u64 {
    let mut w = sig_start("D:\\M", true);
    let d = sig_next_dir(&mut w).unwrap();
    sig_visit(&mut w, &d, Some(Some(mtime)), vec![kid(false, "x.mkv", "D:\\M\\x.mkv")]);
    assert_eq!(sig_next_dir(&mut w), None);
    sig_finish(w)
}

#[test]
fn tree_signature_walk_records_sorted_children() {
    let mut w = sig_start("D:\\M", true);
    assert_eq!(w.items, vec![SigItem::U32(SIG_VERSION), text("d:\\m")]);
    let d = sig_next_dir(&mut w);
    assert_eq!(d.as_deref(), Some("D:\\M"));
    assert_eq!(w.dirs_seen, 1);
    let kids = vec![
        kid(true, ".git", "D:\\M\\.git"),
        kid(false, "B.mkv", "D:\\M\\B.mkv"),
        kid(true, "a", "D:\\M\\a"),
        kid(false, "A", "D:\\M\\A"),
    ];
    sig_visit(&mut w, "D:\\M", Some(Some((5, 6))), kids);
    assert_eq!(
        w.items,
        vec![
            SigItem::U32(SIG_VERSION),
            text("d:\\m"),
            text("d:\\m"),
            SigItem::U64(5),
            SigItem::U32(6),
            SigItem::Flag(false),
            text("a"),
            SigItem::Flag(true),
            text("a"),
            SigItem::Flag(false),
            text("b.mkv"),
        ]
    );
    assert_eq!(w.stack, vec!["D:\\M\\a".to_string()]);
    assert_eq!(w.entries_seen, 4);
    assert_eq!(sig_next_dir(&mut w).as_deref(), Some("D:\\M\\a"));
    sig_visit(&mut w, "D:\\M\\a", None, Vec::new());
    assert_eq!(sig_next_dir(&mut w), None);
    assert!(w.done);
}

#[test]
fn tree_signature_cap_marker_ends_walk() {
    let mut w = sig_start("D:\\M", true);
    w.dirs_seen = MAX_DIRS;
    assert_eq!(sig_next_dir(&mut w), None);
    assert!(w.done);
    assert_eq!(w.items[2..], [text("cap"), SigItem::Size(MAX_DIRS), SigItem::Size(0)]);
}

#[test]
fn tree_signature_changes_with_mtime_and_not_otherwise() {
    assert_eq!(walk((1, 2)), walk((1, 2)));
    assert_ne!(walk((1, 2)), walk((1, 3)));
    // A root that is not a directory hashes only the version and the root.
    let a = sig_finish(sig_start("D:\\Nope", false));
    let b = sig_finish(sig_start("d:\\nope", false));
    assert_eq!(a, b);
}

#[test]
fn tree_signature_hashes_values_in_walk_order() {
    let mut h = std::collections::hash_map::DefaultHasher::new();
    SIG_VERSION.hash(&mut h);
    "d:\\m".to_string().hash(&mut h);
    "d:\\m".to_string().hash(&mut h);
    1u64.hash(&mut h);
    2u32.hash(&mut h);
    false.hash(&mut h);
    "x.mkv".to_string().hash(&mut h);
    1usize.hash(&mut h);
    1usize.hash(&mut h);
    assert_eq!(walk((1, 2)), h.finish());
}
