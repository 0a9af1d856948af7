use suiji_potplayer::config::{Config, MediaMode};

#[test]
fn clamp_count_respects_bounds() {
    let c = Config::default();
    assert_eq!(c.clamp_count(1), 1);
    assert_eq!(c.clamp_count(6), 6);
    assert_eq!(c.clamp_count(99), 16);
}

#[test]
fn image_and_movie_counts_are_independent() {
    let mut c = Config::default();
    c.media_mode = MediaMode::Movie;
    c.set_count_min_for(MediaMode::Movie, 2);
    c.set_count_max_for(MediaMode::Movie, 8);
    c.set_default_count_for(MediaMode::Movie, 5);

    c.set_count_min_for(MediaMode::Image, 4);
    c.set_count_max_for(MediaMode::Image, 20);
    c.set_default_count_for(MediaMode::Image, 12);

    assert_eq!(c.count_bounds_for(MediaMode::Movie), (2, 8));
    assert_eq!(c.default_count_for(MediaMode::Movie), 5);
    assert_eq!(c.count_bounds_for(MediaMode::Image), (4, 20));
    assert_eq!(c.default_count_for(MediaMode::Image), 12);

    c.media_mode = MediaMode::Movie;
    assert_eq!(c.clamp_count(99), 8);
    c.media_mode = MediaMode::Image;
    assert_eq!(c.clamp_count(99), 20);
}

#[test]
fn legacy_library_path_merges_when_paths_empty() {
    let mut c = Config::default();
    c.library_path = r"D:\Movies".into();
    c.library_paths = vec![];
    let c = c.normalize();
    assert_eq!(c.library_roots(), vec![r"D:\Movies".to_string()]);
}

#[test]
fn library_paths_authoritative_over_legacy() {
    let mut c = Config::default();
    c.library_path = r"D:\Movies".into();
    c.library_paths = vec![r"E:\More".into()];
    let c = c.normalize();
    assert_eq!(c.library_roots().len(), 1);
    assert!(c.library_roots()[0].contains("More"));
    assert_eq!(c.library_path, c.library_roots()[0]);
}

#[test]
fn add_path_dedupes_case_insensitive() {
    let mut c = Config::default();
    c.add_library_path(r"D:\Movies".into());
    c.add_library_path(r"d:\movies".into());
    assert_eq!(c.library_roots().len(), 1);
}

#[test]
fn remove_does_not_resurrect_via_legacy_field() {
    let mut c = Config::default();
    c.add_library_path(r"F:\电影".into());
    assert_eq!(c.library_roots().len(), 1);
    let removed = c.remove_library_path(0);
    assert_eq!(removed.as_deref(), Some(r"F:\电影"));
    assert!(c.library_roots().is_empty(), "must stay empty after remove");
    assert!(c.library_path.is_empty());
}

#[test]
fn normalize_fixes_counts_extensions_and_clamps() {
    let mut c = Config::default();
    c.count_min = 0;
    c.count_max = 99;
    c.default_count = 50;
    c.image_count_min = 30;
    c.image_count_max = 4;
    c.video_extensions = vec!["MKV".into(), ".Mp4".into()];
    c.slideshow_interval_secs = 0;
    c.card_cols = 9;
    c.volume_percent = 250;
    let c = c.normalize();
    assert_eq!(c.count_bounds_for(MediaMode::Movie), (1, 32));
    assert_eq!(c.default_count_for(MediaMode::Movie), 32);
    assert_eq!(c.count_bounds_for(MediaMode::Image), (30, 30));
    assert_eq!(c.video_extensions, vec![".mkv".to_string(), ".mp4".to_string()]);
    assert_eq!(c.slideshow_interval_secs, 1);
    assert_eq!(c.card_cols, 5);
    assert_eq!(c.volume_percent, 100);
}

#[test]
fn roots_are_trimmed_and_deduplicated() {
    let mut c = Config::default();
    c.library_paths = vec!["  D:\\A\\ ".into(), "d:\\a".into(), "   ".into(), "E:\\B".into()];
    let c = c.normalize();
    assert_eq!(c.library_roots(), vec!["D:\\A\\".to_string(), "E:\\B".to_string()]);
    assert_eq!(c.library_label(), "A 等 2 个目录");
}

#[test]
fn card_columns_per_mode() {
    let mut c = Config::default();
    c.set_card_cols_for(MediaMode::Image, 1);
    assert_eq!(c.card_cols_for(MediaMode::Image), 2);
    c.set_card_cols_for(MediaMode::Movie, 4);
    assert_eq!(c.card_cols_for(MediaMode::Movie), 4);
}

#[test]
fn mode_labels() {
    assert_eq!(MediaMode::Movie.label(), "电影");
    assert_eq!(MediaMode::Image.label(), "图片");
}

#[test]
fn normalize_leaves_distinct_clean_roots_and_dotted_lowercase_extensions() {
    let mut c = Config::default();
    c.library_paths = vec!["  D:\\Movies\\ ".into(), "d:\\movies".into(), "".into(), "E:\\Films".into()];
    c.image_library_paths = vec!["P:\\Pics".into(), "p:\\pics\\".into()];
    c.video_extensions = vec!["MKV".into(), ".Mp4".into()];
    let n = c.normalize();
    assert_eq!(n.library_paths, vec!["D:\\Movies\\".to_string(), "E:\\Films".to_string()]);
    assert_eq!(n.library_path, "D:\\Movies\\");
    assert_eq!(n.image_library_paths, vec!["P:\\Pics".to_string()]);
    assert_eq!(n.video_extensions, vec![".mkv".to_string(), ".mp4".to_string()]);
}
