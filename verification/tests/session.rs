use suiji_potplayer::blacklist::Blacklist;
use suiji_potplayer::config::{Config, ImagePlayStyle, MediaMode};
use suiji_potplayer::favorites::Favorites;
use suiji_potplayer::history::History;
use suiji_potplayer::potplayer::LaunchedItem;
use suiji_potplayer::session::{RescanOutcome, SessionPhase, SessionSnapshot, SessionState};
use suiji_potplayer::session_play::{GuardStep, RerollPlan};
use suiji_potplayer::tiler::Rect;

fn strings(v: &[&str]) -> Vec<String> {
    v.iter().map(|x| x.to_string()).collect()
}

fn session_with(movie_roots: &[&str], image_roots: &[&str]) -> SessionState {
    let mut c = Config::default();
    c.library_paths = strings(movie_roots);
    c.image_library_paths = strings(image_roots);
    let c = c.normalize();
    SessionState::new(
        c,
        History::default(),
        History::default(),
        Blacklist::default(),
        Blacklist::default(),
        Favorites::default(),
        Favorites::default(),
    )
}

/// A session whose movie library holds `files`, indexed.
fn indexed_session(files: &[&str]) -> SessionState {
    let mut st = session_with(&["D:\\Movies"], &[]);
    let t = st.begin_scan(MediaMode::Movie).expect("a scan starts");
    assert!(st.finish_scan(MediaMode::Movie, t.epoch, false, strings(files), 1, 0, false));
    st
}

fn area() -> Rect {
    Rect { left: 0, top: 0, right: 1200, bottom: 800 }
}

#[test]
fn fresh_session_without_roots_asks_for_a_folder() {
    let st = session_with(&[], &[]);
    assert_eq!(st.phase, SessionPhase::Idle);
    assert!(st.is_indexed(MediaMode::Movie));
    assert_eq!(st.message, "请先设置电影库目录");
    assert_eq!(st.ui_count(), 6);
}

#[test]
fn fresh_session_with_roots_waits_for_index() {
    let st = session_with(&["D:\\Movies"], &[]);
    assert!(!st.is_indexed(MediaMode::Movie));
    assert_eq!(st.message, "索引中…");
}

#[test]
fn finished_scan_installs_sorted_distinct_files() {
    let st = indexed_session(&["D:\\Movies\\b.mkv", "D:\\Movies\\a.mkv", "D:\\Movies\\b.mkv"]);
    assert_eq!(st.library().files, strings(&["D:\\Movies\\a.mkv", "D:\\Movies\\b.mkv"]));
    assert!(!st.is_scan_busy(MediaMode::Movie));
    assert_eq!(st.message, "索引已更新 · 2 个（重扫 1 目录 · 缓存 0）");
    assert_eq!(st.idle_message(), "就绪 · 已索引 2 部 · 先「随机预览」");
}

#[test]
fn scan_progress_messages() {
    let mut st = session_with(&["D:\\Movies"], &[]);
    let t = st.begin_scan_ex(MediaMode::Movie, true).unwrap();
    assert!(t.force);
    assert_eq!(st.message, "全量扫描中… 扫完前仍可用当前名单");
    st.scan_progress(MediaMode::Movie, 1);
    assert_eq!(st.message, "索引中… 已发现 1 个");
    st.scan_progress(MediaMode::Movie, 7);
    assert_eq!(st.message, "索引中… 已发现 1 个");
    assert_eq!(st.scan_found, 7);
    st.scan_cache_hit(MediaMode::Movie, 3, 10);
    assert_eq!(st.message, "索引中… 缓存命中 3 个（合计 10）");
    assert!(st.finish_scan(MediaMode::Movie, t.epoch, false, strings(&["x.mkv"]), 1, 1, true));
    assert_eq!(st.message, "全量扫描完成 · 1 个");
}

#[test]
fn cancelled_scan_result_is_dropped() {
    let mut st = indexed_session(&["a.mkv"]);
    let t = st.begin_scan(MediaMode::Movie).unwrap();
    assert!(st.cancel_scan());
    assert_eq!(st.message, "索引已取消 · 仍用上次 1 个");
    assert!(!st.finish_scan(MediaMode::Movie, t.epoch, false, strings(&["b.mkv", "c.mkv"]), 1, 0, false));
    assert_eq!(st.library().files, strings(&["a.mkv"]));
    assert!(!st.cancel_scan());
}

#[test]
fn rescan_outcomes() {
    let mut none = session_with(&[], &[]);
    assert_eq!(none.rescan(true).0, RescanOutcome::NoRoots);
    let mut st = indexed_session(&["a.mkv", "b.mkv"]);
    let (o, t) = st.rescan(false);
    assert_eq!(o, RescanOutcome::AlreadyFresh { count: 2 });
    assert!(t.is_none());
    assert_eq!(st.message, "片库无变化 · 继续用缓存 2 个");
    let (o, t) = st.rescan(true);
    assert_eq!(o, RescanOutcome::Started { force: false });
    assert!(t.is_some());
    assert_eq!(st.rescan(true).0, RescanOutcome::Busy);
}

#[test]
fn roll_preview_draws_the_pick_count() {
    let mut st = indexed_session(&["a.mkv", "b.mkv", "c.mkv", "d.mkv", "e.mkv", "f.mkv", "g.mkv", "h.mkv"]);
    assert!(st.roll_preview(false).is_none());
    assert_eq!(st.preview_files.len(), 6);
    assert_eq!(st.movie_preview, st.preview_files);
    assert_eq!(st.message, "预览就绪 · 6 部 · 确认后点「开启播放」");
}

#[test]
fn roll_preview_with_stale_disk_starts_a_rescan() {
    let mut st = indexed_session(&["a.mkv"]);
    assert!(st.roll_preview(true).is_some());
    assert!(st.preview_files.is_empty());
    assert_eq!(st.message, "片库正在更新，完成后请再点随机预览");
}

#[test]
fn banned_slot_never_comes_back() {
    let mut st = indexed_session(&["a.mkv", "b.mkv", "c.mkv"]);
    st.set_ui_count(3);
    st.roll_preview(false);
    let banned = st.blacklist_preview_item(0).unwrap();
    assert_eq!(st.blacklist_count(), 1);
    for _ in 0..10 {
        st.roll_preview(false);
        assert_eq!(st.preview_files.len(), 2);
        assert!(!st.preview_files.contains(&banned));
    }
}

#[test]
fn all_banned_message() {
    let mut st = indexed_session(&["a.mkv"]);
    st.roll_preview(false);
    assert_eq!(st.blacklist_preview_items(&[0, 0, 5]), 1);
    st.roll_preview(false);
    assert!(st.preview_files.is_empty());
    assert_eq!(st.message, "可用片源已被拉黑筛空，请在设置中管理黑名单");
    st.unblacklist_path("A.MKV");
    assert_eq!(st.blacklist_count(), 0);
}

#[test]
fn remove_and_replace_slots() {
    let mut st = indexed_session(&["a.mkv", "b.mkv", "c.mkv", "d.mkv"]);
    st.set_ui_count(2);
    st.roll_preview(false);
    let keep = st.preview_files[1].clone();
    assert_eq!(st.replace_preview_items(&[0]), Ok(1));
    assert_eq!(st.preview_files[1], keep);
    assert_ne!(st.preview_files[0], keep);
    assert_eq!(st.replace_preview_items(&[7]), Err("请先勾选要换的项".to_string()));
    assert_eq!(st.remove_preview_items(&[1, 1, 9]), 1);
    assert_eq!(st.preview_files.len(), 1);
    st.remove_preview_item(0);
    assert!(st.preview_files.is_empty());
    assert_eq!(st.message, "就绪 · 已索引 4 部 · 先「随机预览」");
}

#[test]
fn replace_needs_a_spare_title() {
    let mut st = indexed_session(&["a.mkv", "b.mkv", "c.mkv"]);
    st.set_ui_count(2);
    st.roll_preview(false);
    assert_eq!(st.replace_preview_items(&[0, 1]), Ok(2));
    let mut distinct = st.preview_files.clone();
    distinct.dedup();
    assert_eq!(distinct.len(), 2);
    st.set_ui_count(3);
    st.roll_preview(false);
    let p = st.replace_preview_item(0);
    assert_eq!(p, Err("没有更多可换片源（可检查黑名单或扩大片库）".to_string()));
}

#[test]
fn mode_round_trip_restores_slate() {
    let mut st = indexed_session(&["a.mkv", "b.mkv", "c.mkv"]);
    st.roll_preview(false);
    let slate = st.preview_files.clone();
    let sw = st.set_media_mode(MediaMode::Image);
    assert!(sw.changed);
    assert_eq!(st.media_mode(), MediaMode::Image);
    assert!(st.preview_files.is_empty());
    assert_eq!(st.ui_count(), 9);
    assert_eq!(st.message, "请先设置图片库目录");
    let sw = st.set_media_mode(MediaMode::Movie);
    assert!(sw.changed && !sw.need_scan);
    assert_eq!(st.preview_files, slate);
    assert!(!st.set_media_mode(MediaMode::Movie).changed);
}

fn launched(paths: &[&str], pids: &[u32]) -> Vec<LaunchedItem> {
    paths.iter().zip(pids.iter()).map(|(p, id)| LaunchedItem { path: p.to_string(), pid: *id }).collect()
}

#[test]
fn movie_round_start_commit_stop() {
    let mut st = indexed_session(&["D:\\m\\a.mkv", "D:\\m\\b.mkv"]);
    st.roll_preview(false);
    let plan = st.start();
    let gen = plan.launch.expect("movie launch");
    assert_eq!(st.phase, SessionPhase::Starting);
    assert_eq!(st.message, "正在开启播放 · 2 部…");
    assert!(st.start_still_valid(gen));
    let list = st.take_launch_list(gen).unwrap();
    assert_eq!(list.files.len(), 2);
    let items = launched(&["D:\\m\\a.mkv", "D:\\m\\b.mkv"], &[11, 12]);
    assert!(st.commit_start(gen, items, vec!["x: boom".to_string()], area()));
    assert_eq!(st.phase, SessionPhase::Playing);
    assert_eq!(st.message, "播放中 · 2 部 · 部分失败");
    assert_eq!(st.movie_history.paths, strings(&["D:\\m\\a.mkv", "D:\\m\\b.mkv"]));
    assert_eq!(st.tile_targets.len(), 2);
    assert!(matches!(st.guard_step(), GuardStep::Enforce(t) if t.len() == 2));
    let snap = st.snapshot(true);
    assert_eq!(snap.items[1].name, "b.mkv");
    assert_eq!(snap.current_files, strings(&["D:\\m\\a.mkv", "D:\\m\\b.mkv"]));
    let stop = st.stop();
    assert_eq!(stop.kill_pids, vec![11, 12]);
    assert!(stop.then_finish);
    assert_eq!(st.phase, SessionPhase::Stopping);
    st.stop_finished();
    assert_eq!(st.phase, SessionPhase::Idle);
    assert_eq!(st.message, "已停止 · 预览仍保留 2 部，可再「开启播放」或「再来一批」");
    assert!(matches!(st.guard_step(), GuardStep::Exit));
}

#[test]
fn stopped_launch_never_commits() {
    let mut st = indexed_session(&["a.mkv"]);
    st.roll_preview(false);
    let gen = st.start().launch.unwrap();
    st.stop();
    assert_eq!(st.message, "已取消开启");
    assert!(!st.start_still_valid(gen));
    let gen2 = st.start().launch.unwrap();
    assert_ne!(gen, gen2);
    assert!(!st.commit_start(gen, launched(&["a.mkv"], &[5]), vec![], area()));
    assert_eq!(st.phase, SessionPhase::Starting);
    st.abort_start(gen2, "无法读取屏幕工作区");
    assert_eq!(st.phase, SessionPhase::Idle);
    assert_eq!(st.message, "无法读取屏幕工作区");
}

#[test]
fn system_player_fallback_records_history() {
    let mut st = indexed_session(&["a.mkv"]);
    st.roll_preview(false);
    let gen = st.start().launch.unwrap();
    let list = st.take_launch_list(gen).unwrap();
    assert!(st.system_open_done(gen, &list.files, 1, vec![]));
    assert_eq!(st.phase, SessionPhase::Idle);
    assert_eq!(st.message, "已用系统默认打开 1 部 · 无平铺 · 设置可装 PotPlayer");
    assert_eq!(st.movie_history.paths, strings(&["a.mkv"]));
}

#[test]
fn parked_movie_round_survives_image_mode() {
    let mut st = indexed_session(&["a.mkv", "b.mkv"]);
    st.roll_preview(false);
    let gen = st.start().launch.unwrap();
    st.take_launch_list(gen);
    assert!(st.commit_start(gen, launched(&["a.mkv", "b.mkv"], &[21, 22]), vec![], area()));
    st.set_media_mode(MediaMode::Image);
    assert!(st.parked_movie.is_some());
    assert_eq!(st.retile_pids(), Some(vec![21, 22]));
    assert_eq!(st.message, "请先设置图片库目录 · 电影后台 2 部");
    assert!(st.reap_dead_players(&[], &[true, false]));
    assert_eq!(st.parked_movie.as_ref().unwrap().len(), 1);
    st.set_media_mode(MediaMode::Movie);
    assert_eq!(st.phase, SessionPhase::Playing);
    assert_eq!(st.items.len(), 1);
    assert_eq!(st.message, "播放中 · 1 部 · 已从图片切回，可「关闭本轮」");
    assert_eq!(st.close_item(0), Some((21, false)));
    assert_eq!(st.phase, SessionPhase::Idle);
    assert_eq!(st.message, "就绪 · 已索引 2 部");
}

#[test]
fn solo_keeps_one_player() {
    let mut st = indexed_session(&["D:\\m\\a.mkv", "D:\\m\\b.mkv", "D:\\m\\c.mkv"]);
    st.roll_preview(false);
    let gen = st.start().launch.unwrap();
    st.take_launch_list(gen);
    st.commit_start(gen, launched(&["D:\\m\\a.mkv", "D:\\m\\b.mkv", "D:\\m\\c.mkv"], &[1, 2, 3]), vec![], area());
    assert_eq!(st.focus_item(2), Some(3));
    let plan = st.solo_item(1).unwrap();
    assert_eq!(plan.keep, 2);
    assert_eq!(plan.kill, vec![1, 3]);
    assert_eq!(st.message, "独播 · b");
    assert!(st.tile_targets.is_empty());
    match st.reroll() {
        RerollPlan::KillThenRoll(p) => assert_eq!(p, vec![2]),
        _ => panic!("expected a kill"),
    }
    assert_eq!(st.message, "再来一批…");
    st.reroll_finished();
    assert_eq!(st.phase, SessionPhase::Idle);
}

#[test]
fn image_slideshow_start_and_stop() {
    let mut st = session_with(&[], &["P:\\pics"]);
    st.set_media_mode(MediaMode::Image);
    let t = st.begin_scan(MediaMode::Image).unwrap();
    st.finish_scan(MediaMode::Image, t.epoch, false, strings(&["1.jpg", "2.jpg", "3.jpg"]), 1, 0, false);
    st.set_ui_count(3);
    st.roll_preview(false);
    let (r, plan) = st.start_selected(&[2, 0]);
    assert_eq!(r, Ok(2));
    assert!(plan.launch.is_none());
    assert_eq!(st.phase, SessionPhase::Playing);
    assert_eq!(st.preview_files.len(), 2);
    assert_eq!(st.message, "幻灯中 · 2 张 · 空格暂停 · 左右切换 · Esc 结束");
    let stop = st.stop();
    assert!(stop.kill_pids.is_empty() && !stop.then_finish);
    assert_eq!(st.preview_files.len(), 3);
    assert_eq!(st.message, "已停止 · 预览仍保留 3 张");
    st.set_image_play_style(ImagePlayStyle::Wall);
    st.start();
    assert_eq!(st.message, "平铺墙 · 3 张 · 点击放大 · Esc 结束");
}

#[test]
fn favorites_in_the_session() {
    let mut st = indexed_session(&["a.mkv", "b.mkv", "c.mkv"]);
    st.set_ui_count(3);
    st.roll_preview(false);
    assert_eq!(st.favorite_preview_items(&[0, 0, 2, 8]), 2);
    assert_eq!(st.favorite_count(), 2);
    let favs = st.favorite_paths();
    assert!(st.is_favorite(&favs[0]));
    assert_eq!(st.favorite_paths_existing(&[true, false]), vec![favs[0].clone()]);
    assert_eq!(st.favorite_paths_existing(&[true, true]), vec![favs[1].clone(), favs[0].clone()]);
    assert_eq!(st.roll_preview_from_favorites(&[false, false]), Err("电影收藏为空或文件已不在".to_string()));
    assert_eq!(st.roll_preview_from_favorites(&[true, true]), Ok(2));
    assert!(!st.toggle_favorite(&favs[0]));
    assert_eq!(st.unfavorite_paths(&favs), 1);
    assert_eq!(st.favorite_count(), 0);
    let (r, _plan) = st.start_paths(strings(&["x.mkv", "y.mkv"]), &[false, true]);
    assert_eq!(r, Ok(1));
    assert_eq!(st.preview_files, strings(&["y.mkv"]));
    assert_eq!(st.phase, SessionPhase::Starting);
}

#[test]
fn settings_through_the_session() {
    let mut st = indexed_session(&["a.mkv"]);
    st.set_slideshow_interval(0);
    assert_eq!(st.config.slideshow_interval_secs, 1);
    st.set_count_bounds(3, 4);
    assert_eq!(st.ui_count(), 4);
    st.set_ui_count(99);
    assert_eq!(st.ui_count(), 4);
    assert!(st.set_card_cols(9));
    assert!(!st.set_card_cols(7));
    assert_eq!(st.config.card_cols, 5);
    assert!(!st.set_workbench_sidebar_open(true));
    assert!(st.set_pin_while_playing(false));
    st.set_close_on_exit(true);
    assert!(st.shutdown_pids().is_empty());
}

#[test]
fn library_root_edits_restart_indexing() {
    let mut st = indexed_session(&["a.mkv"]);
    let t = st.add_library_path("E:\\More".to_string()).unwrap();
    assert!(t.force);
    assert_eq!(t.roots, strings(&["D:\\Movies", "E:\\More"]));
    assert!(st.library().files.is_empty());
    let (removed, t2) = st.remove_library_path(0);
    assert_eq!(removed.as_deref(), Some("D:\\Movies"));
    assert_eq!(t2.unwrap().roots, strings(&["E:\\More"]));
    let (removed, t3) = st.remove_library_path(0);
    assert!(removed.is_some() && t3.is_none());
    assert!(st.is_indexed(MediaMode::Movie));
    assert!(st.update_library_path("  ".to_string()).is_none());
}

#[test]
fn default_snapshot_is_idle_movie_mode() {
    let d = SessionSnapshot::default();
    assert_eq!(d.phase, SessionPhase::Idle);
    assert_eq!(d.message, "就绪");
    assert!(d.current_files.is_empty() && d.items.is_empty() && !d.has_preview);
    assert_eq!(d.media_mode, MediaMode::Movie);
    assert_eq!(d.slideshow_interval_secs, 5);
    assert_eq!(d.image_play_style, ImagePlayStyle::Slideshow);
    assert!(!d.indexing && !d.pot_available && !d.movie_in_background);
    assert_eq!(d.library_count, 0);
}
