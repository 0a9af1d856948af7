use suiji_potplayer::index_cache::{cache_key, cache_keeps_enough, cache_matches, cache_path, cached_files, skip_dir_name, stored_extensions};
use suiji_potplayer::panel::{pin_step, should_stay_above_players, slide_after, tray_action, PinStep, TrayAction};
use suiji_potplayer::pathname::extension_of;
use suiji_potplayer::session::SessionPhase;
use suiji_potplayer::text::hex16_string;
use suiji_potplayer::thumb::{cache_path_for, sidecar_candidates, sidecar_image, ThumbCache, ThumbRequest, ThumbState};
use suiji_potplayer::tray::TrayCommand;

#[test]
fn cache_path_stable() {
    let a = cache_path_for("C:\\thumbs", r"D:\Movies\a.mkv");
    let b = cache_path_for("C:\\thumbs", r"D:\Movies\a.mkv");
    assert_eq!(a, b);
    assert!(extension_of(&a).as_deref() == Some("jpg"));
}

#[test]
fn cache_paths_differ_by_video_and_use_sixteen_hex_digits() {
    let a = cache_path_for("C:\\thumbs", r"D:\Movies\a.mkv");
    let b = cache_path_for("C:\\thumbs", r"D:\Movies\b.mkv");
    assert_ne!(a, b);
    assert!(a.starts_with("C:\\thumbs\\"));
    assert_eq!(a.len(), "C:\\thumbs\\".len() + 16 + 4);
}

#[test]
fn hex_formatting() {
    assert_eq!(hex16_string(0), "0000000000000000");
    assert_eq!(hex16_string(0xdead_beef), "00000000deadbeef");
    assert_eq!(hex16_string(u64::MAX), "ffffffffffffffff");
    assert_eq!(hex16_string(0xdead_beef), format!("{:016x}", 0xdead_beef_u64));
}

#[test]
fn thumb_requests_and_results() {
    let mut c = ThumbCache::new();
    assert!(matches!(c.request("v1"), ThumbRequest::Resolve { check_ffmpeg: true }));
    assert!(matches!(c.request("v1"), ThumbRequest::Known));
    c.ffmpeg_probed(false);
    assert!(matches!(c.request("v2"), ThumbRequest::Resolve { check_ffmpeg: false }));
    assert_eq!(c.path_if_ready("v1"), None);
    c.resolved("v1", Some("t1.jpg".to_string()));
    c.resolved("v2", None);
    assert_eq!(c.path_if_ready("v1"), Some("t1.jpg".to_string()));
    assert_eq!(c.path_if_ready("v2"), None);
    assert_eq!(ThumbCache::cache_dir("C:\\app"), "C:\\app\\thumbs");
    assert_eq!(ThumbState::Ready, ThumbState::Ready);
}

#[test]
fn index_cache_keys() {
    let a = cache_key("D:\\Movies", &[".mkv".to_string(), ".MP4".to_string()]);
    let b = cache_key("d:\\movies", &[".mp4".to_string(), ".mkv".to_string()]);
    assert_eq!(a, b);
    assert!(a.ends_with(".json"));
    assert_eq!(a.len(), 21);
    let c = cache_key("D:\\Other", &[".mkv".to_string()]);
    assert_ne!(a, c);
    assert_eq!(cache_path("C:\\idx", "D:\\Movies", &[".mkv".to_string(), ".mp4".to_string()]), format!("C:\\idx\\{a}"));
}

#[test]
fn skipped_directories() {
    assert!(skip_dir_name(".git"));
    assert!(skip_dir_name("$RECYCLE.BIN"));
    assert!(!skip_dir_name("Season 1"));
    assert!(!skip_dir_name(".GIT"));
}

#[test]
fn panel_pinning() {
    assert!(!should_stay_above_players(true, true, false, SessionPhase::Playing, true));
    assert!(should_stay_above_players(false, false, true, SessionPhase::Idle, true));
    assert!(should_stay_above_players(false, true, false, SessionPhase::Playing, false));
    assert!(!should_stay_above_players(false, true, true, SessionPhase::Playing, false));
    assert_eq!(pin_step(false, false, false, true, false), (PinStep::Release, false));
    assert_eq!(pin_step(true, true, false, false, false), (PinStep::Keep, true));
    assert_eq!(pin_step(true, false, true, true, true), (PinStep::ShowAndPin, false));
    assert_eq!(pin_step(true, false, false, true, true), (PinStep::Refresh, false));
}

#[test]
fn tray_commands() {
    assert_eq!(tray_action(TrayCommand::StartOrStop, SessionPhase::Idle, false), TrayAction::RollPreview);
    assert_eq!(tray_action(TrayCommand::StartOrStop, SessionPhase::Idle, true), TrayAction::Start);
    assert_eq!(tray_action(TrayCommand::StartOrStop, SessionPhase::Playing, true), TrayAction::Stop);
    assert_eq!(tray_action(TrayCommand::StartOrStop, SessionPhase::Starting, true), TrayAction::Wait);
    assert_eq!(tray_action(TrayCommand::Exit, SessionPhase::Idle, true), TrayAction::Quit);
}

#[test]
fn slideshow_steps_wrap() {
    assert_eq!(slide_after(0, 3, -1), 2);
    assert_eq!(slide_after(2, 3, 1), 0);
    assert_eq!(slide_after(1, 3, 0), 1);
    assert_eq!(slide_after(9, 3, 1), 1);
    assert_eq!(slide_after(0, 3, -7), 2);
}

#[test]
fn index_cache_matches_ignoring_case_and_order() {
    let cached = vec![".mp4".to_string(), ".mkv".to_string()];
    assert!(cache_matches("D:\\Movies", &cached, "d:\\movies", &[".MKV".to_string(), ".mp4".to_string()]));
    assert!(!cache_matches("D:\\Movies", &cached, "D:\\Other", &[".mkv".to_string(), ".mp4".to_string()]));
    assert!(!cache_matches("D:\\Movies", &cached, "D:\\Movies", &[".mkv".to_string()]));
    assert!(!cache_matches("D:\\Movies", &cached, "D:\\Movies", &[".mkv".to_string(), ".avi".to_string()]));
    // Case does not matter on either side: a cache saved for ".MKV" serves ".MKV".
    let upper = vec![".MKV".to_string()];
    assert!(cache_matches("D:\\Movies", &upper, "D:\\Movies", &[".mkv".to_string()]));
    let saved = stored_extensions(&[".MKV".to_string(), ".Mp4".to_string()]);
    assert!(cache_matches("D:\\Movies", &saved, "D:\\Movies", &[".MKV".to_string(), ".Mp4".to_string()]));
    // Repeats count.
    let twice = vec![".mkv".to_string(), ".mkv".to_string()];
    assert!(!cache_matches("D:\\Movies", &twice, "D:\\Movies", &[".mkv".to_string()]));
}

#[test]
fn stored_extensions_order_by_lower_case() {
    let exts = vec![".mp4".to_string(), ".AVI".to_string(), ".mkv".to_string()];
    assert_eq!(stored_extensions(&exts), vec![".AVI".to_string(), ".mkv".to_string(), ".mp4".to_string()]);
    // Equal keys keep their order.
    let same = vec![".MKV".to_string(), ".mkv".to_string()];
    assert_eq!(stored_extensions(&same), same);
}

#[test]
fn cache_kept_share_threshold() {
    assert!(cache_keeps_enough(8, 0));
    assert!(cache_keeps_enough(25, 23));
    assert!(!cache_keeps_enough(25, 22));
    assert!(cache_keeps_enough(100, 92));
    assert!(!cache_keeps_enough(100, 91));
}

#[test]
fn sidecar_candidates_beside_the_video() {
    let c = sidecar_candidates("D:\\Movies\\Film.2020.mkv").expect("has a stem");
    assert_eq!(c.len(), 8);
    assert_eq!(c[0], "D:\\Movies\\Film.2020.jpg");
    assert_eq!(c[1], "D:\\Movies\\poster.jpg");
    assert_eq!(c[6], "D:\\Movies\\Film.2020.webp");
    assert_eq!(c[7], "D:\\Movies\\poster.webp");
    assert_eq!(sidecar_candidates("a.mkv").unwrap()[0], "a.jpg");
    assert!(sidecar_candidates("D:\\").is_none());
    // Nothing beside a video that does not exist.
    assert_eq!(sidecar_image("/nonexistent-dir-for-test/x.mkv"), None);
}

#[test]
fn cache_file_round_trip_and_misses() {
    let exts = vec![".MKV".to_string()];
    let stored = stored_extensions(&exts);
    let files = vec!["D:\\M\\a.mkv".to_string(), "D:\\M\\b.mkv".to_string()];
    // Saved, then read back with the same signature and every file present.
    assert_eq!(
        cached_files("D:\\M", &stored, 7, files.clone(), "D:\\M", &exts, 7, &[true, true]),
        Some(files.clone())
    );
    // The tree changed.
    assert_eq!(cached_files("D:\\M", &stored, 7, files.clone(), "D:\\M", &exts, 8, &[true, true]), None);
    // A small list keeps what is left.
    assert_eq!(
        cached_files("D:\\M", &stored, 7, files.clone(), "D:\\M", &exts, 7, &[false, true]),
        Some(vec!["D:\\M\\b.mkv".to_string()])
    );
    // Other extensions.
    assert_eq!(cached_files("D:\\M", &stored, 7, files, "D:\\M", &[".mp4".to_string()], 7, &[true, true]), None);
}
