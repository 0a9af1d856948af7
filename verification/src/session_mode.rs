//! Switching between movies and images, reaping players that exited, and the
//! settings the session changes directly.

use vstd::prelude::*;
use crate::flags::{flagged, set_count, lemma_flagged_push, lemma_flagged_facts};
use crate::config::{
    Config, MediaMode, ImagePlayStyle, ConfigModel, default_of, bounds_of, after_set_min, after_set_max,
    decimal, clamp, lemma_set_bounds_keep_sane,
};
use crate::potplayer::LaunchedItem;
use crate::session::{SessionState, SessionPhase, eq_but_message, next_gen, s, msg_n, clone_strings};

verus! {

broadcast use vstd::std_specs::vec::group_vec_axioms;

/// Process ids of `items` other than 0 (a launch whose id is unknown), in order.
pub open spec fn live_pids(items: Seq<LaunchedItem>) -> Seq<u32>
    decreases items.len(),
{
    if items.len() == 0 {
        Seq::empty()
    } else {
        let prev = live_pids(items.drop_last());
        if items.last().pid != 0 {
            prev.push(items.last().pid)
        } else {
            prev
        }
    }
}

/// The entries of `items` whose flag in `alive` is set, in order.
pub open spec fn alive_only(items: Seq<LaunchedItem>, alive: Seq<bool>) -> Seq<LaunchedItem>
    decreases items.len(),
{
    if items.len() == 0 || alive.len() < items.len() {
        Seq::empty()
    } else {
        let n = items.len() - 1;
        let prev = alive_only(items.take(n), alive);
        if alive[n] {
            prev.push(items[n])
        } else {
            prev
        }
    }
}

/// What a mode switch leaves for the shell to do.
pub struct ModeSwitch {
    /// The mode changed, so the settings must be saved.
    pub changed: bool,
    /// Players of a movie start that the switch cut short: kill them.
    pub kill_pids: Vec<u32>,
    /// The new mode has no index and none is being built: start a scan.
    pub need_scan: bool,
}

pub(crate) fn live_pids_of(items: &Vec<LaunchedItem>) -> (r: Vec<u32>)
    ensures
        r@ == live_pids(items@),
{
    let mut r: Vec<u32> = Vec::new();
    let mut i: usize = 0;
    while i < items.len()
        invariant
            0 <= i <= items@.len(),
            r@ == live_pids(items@.take(i as int)),
        decreases items@.len() - i,
    {
        assert(items@.take(i + 1).drop_last() =~= items@.take(i as int));
        if items[i].pid != 0 {
            r.push(items[i].pid);
        }
        i = i + 1;
    }
    assert(items@.take(items@.len() as int) =~= items@);
    r
}

/// Reaping keeps exactly the players whose alive flag is set, in order:
/// one per set flag, and every player flagged alive is still there.
pub proof fn lemma_reap_keeps_alive(items: Seq<LaunchedItem>, alive: Seq<bool>)
    requires
        alive.len() >= items.len(),
    ensures
        alive_only(items, alive) == flagged(items, alive),
        alive_only(items, alive).len() == set_count(alive.take(items.len() as int)),
        forall|i: int| 0 <= i < items.len() && alive[i] ==> alive_only(items, alive).contains(#[trigger] items[i]),
    decreases items.len(),
{
    if items.len() > 0 {
        let n = items.len() - 1;
        let t = items.take(n as int);
        lemma_reap_keeps_alive(t, alive);
        assert(t.push(items[n as int]) =~= items);
        lemma_flagged_push(t, alive, items[n as int]);
    }
    lemma_flagged_facts(items, alive);
}

fn keep_alive(items: &Vec<LaunchedItem>, alive: &[bool]) -> (r: Vec<LaunchedItem>)
    requires
        alive@.len() == items@.len(),
    ensures
        r@ == alive_only(items@, alive@),
        r@ == flagged(items@, alive@),
        r@.len() <= items@.len(),
{
    proof {
        lemma_reap_keeps_alive(items@, alive@);
    }
    let mut r: Vec<LaunchedItem> = Vec::new();
    let mut i: usize = 0;
    while i < items.len()
        invariant
            0 <= i <= items@.len(),
            alive@.len() == items@.len(),
            r@ == alive_only(items@.take(i as int), alive@),
            r@.len() <= i,
        decreases items@.len() - i,
    {
        assert(items@.take(i + 1).take(i as int) =~= items@.take(i as int));
        assert(items@.take(i + 1)[i as int] == items@[i as int]);
        if alive[i] {
            r.push(items[i].copy());
        }
        i = i + 1;
    }
    assert(items@.take(items@.len() as int) =~= items@);
    r
}

/// `b` and `r` are what switching `a` to `mode` gives: the slate of the
/// mode left is stored and the entered mode's comes back; leaving movies
/// parks a playing round or cuts short one that is starting or stopping;
/// entering movies takes parked players back as the playing round.
pub open spec fn switched_mode(a: SessionState, b: SessionState, mode: MediaMode, r: ModeSwitch) -> bool {
    &&& (r.changed == (mode != a.mode()))
    &&& (mode == a.mode() ==> b == a && r.kill_pids@.len() == 0 && !r.need_scan)
    &&& (mode != a.mode() ==> {
        &&& b.config@ == (ConfigModel { media_mode: mode, ..a.config@ })
        &&& b.ui_count == default_of(a.config@, mode)
        &&& b.last_errors@.len() == 0
        &&& b.lists_kept(&a)
        &&& b.movie_library == a.movie_library
        &&& b.image_library == a.image_library
        &&& b.movie_indexed == a.movie_indexed
        &&& b.image_indexed == a.image_indexed
        &&& b.movie_scan_epoch == a.movie_scan_epoch
        &&& b.image_scan_epoch == a.image_scan_epoch
        &&& b.movie_scan_busy == a.movie_scan_busy
        &&& b.image_scan_busy == a.image_scan_busy
        &&& b.scan_found == a.scan_found
        &&& b.play_queue == a.play_queue
        &&& b.preview_backup == a.preview_backup
        &&& r.need_scan == (!a.indexed(mode) && !a.scan_busy(mode))
    })
    &&& (a.mode() == MediaMode::Movie && mode == MediaMode::Image ==> {
        &&& b.movie_preview.deep_view() == a.preview()
        &&& b.image_preview == a.image_preview
        &&& b.preview() == a.image_preview.deep_view()
    })
    &&& (a.mode() == MediaMode::Image && mode == MediaMode::Movie ==> {
        &&& b.image_preview.deep_view() == a.preview()
        &&& b.movie_preview == a.movie_preview
        &&& b.preview() == a.movie_preview.deep_view()
    })
    &&& (a.mode() == MediaMode::Movie && mode == MediaMode::Image ==> {
        &&& b.phase == SessionPhase::Idle
        &&& b.items@.len() == 0
        &&& b.message@ == b.idle_msg()
        &&& (a.phase == SessionPhase::Playing && a.items@.len() > 0 ==> {
            &&& b.parked_movie == Some(a.items)
            &&& b.play_gen == a.play_gen
            &&& b.tile_targets == a.tile_targets
            &&& b.geometry_guard == a.geometry_guard
            &&& r.kill_pids@.len() == 0
        })
        &&& (a.phase == SessionPhase::Starting || a.phase == SessionPhase::Stopping ==> {
            &&& b.parked_movie == a.parked_movie
            &&& b.play_gen == next_gen(a.play_gen)
            &&& b.tile_targets@.len() == 0
            &&& !b.geometry_guard
            &&& r.kill_pids@ == live_pids(a.items@)
        })
        &&& (a.phase == SessionPhase::Idle || (a.phase == SessionPhase::Playing && a.items@.len() == 0) ==> {
            &&& b.parked_movie == a.parked_movie
            &&& b.play_gen == a.play_gen
            &&& b.tile_targets == a.tile_targets
            &&& b.geometry_guard == a.geometry_guard
            &&& r.kill_pids@.len() == 0
        })
    })
    &&& (a.mode() == MediaMode::Image && mode == MediaMode::Movie ==> {
        &&& b.parked_movie is None
        &&& b.play_gen == a.play_gen
        &&& b.tile_targets == a.tile_targets
        &&& r.kill_pids@.len() == 0
        &&& (a.parked_movie matches Some(p) ==> {
            &&& b.items == p
            &&& b.phase == SessionPhase::Playing
            &&& b.geometry_guard == (a.tile_targets@.len() > 0 || a.geometry_guard)
            &&& b.message@ == "播放中 · "@ + decimal(p@.len()) + " 部 · 已从图片切回，可「关闭本轮」"@
        })
        &&& (a.parked_movie is None ==> {
            &&& b.items@.len() == 0
            &&& b.phase == SessionPhase::Idle
            &&& b.geometry_guard == a.geometry_guard
            &&& b.message@ == b.idle_msg()
        })
    })
}

fn next_generation(g: u64) -> (r: u64)
    ensures
        r == next_gen(g),
{
    g.wrapping_add(1)
}

impl SessionState {
    /// Switches to `mode`. The slate of the mode left is kept for it and the
    /// slate of the mode entered comes back. Leaving movies parks a playing
    /// round (its players keep running) and cuts short a round that is
    /// starting or stopping; entering movies takes parked players back as the
    /// playing round. Errors are cleared and the pick count becomes the new
    /// mode's default.
    #[verifier::rlimit(80)]
    pub fn set_media_mode(&mut self, mode: MediaMode) -> (r: ModeSwitch)
        requires
            old(self).wf(),
        ensures
            final(self).wf(),
            switched_mode(*old(self), *final(self), mode, r),
    {
        let old_mode = self.config.media_mode;
        if old_mode == mode {
            return ModeSwitch { changed: false, kill_pids: Vec::new(), need_scan: false };
        }
        match old_mode {
            MediaMode::Movie => self.movie_preview = clone_strings(&self.preview_files),
            MediaMode::Image => self.image_preview = clone_strings(&self.preview_files),
        }
        let mut kill: Vec<u32> = Vec::new();
        if old_mode == MediaMode::Movie {
            if self.phase == SessionPhase::Playing && self.items.len() > 0 {
                let mut items: Vec<LaunchedItem> = Vec::new();
                std::mem::swap(&mut items, &mut self.items);
                self.parked_movie = Some(items);
                self.phase = SessionPhase::Idle;
            } else if self.phase == SessionPhase::Starting || self.phase == SessionPhase::Stopping {
                self.play_gen = next_generation(self.play_gen);
                kill = live_pids_of(&self.items);
                self.items = Vec::new();
                self.tile_targets = Vec::new();
                self.geometry_guard = false;
                self.phase = SessionPhase::Idle;
            } else {
                self.items = Vec::new();
                self.phase = SessionPhase::Idle;
            }
        } else {
            self.items = Vec::new();
            self.phase = SessionPhase::Idle;
        }
        self.config.media_mode = mode;
        self.ui_count = self.config.default_count_for(mode);
        self.preview_files = match mode {
            MediaMode::Movie => clone_strings(&self.movie_preview),
            MediaMode::Image => clone_strings(&self.image_preview),
        };
        self.last_errors = Vec::new();
        if mode == MediaMode::Movie {
            match self.parked_movie.take() {
                Some(parked) => {
                    let n = parked.len();
                    self.items = parked;
                    self.phase = SessionPhase::Playing;
                    if self.tile_targets.len() > 0 {
                        self.geometry_guard = true;
                    }
                    self.message = msg_n("播放中 · ", n, " 部 · 已从图片切回，可「关闭本轮」");
                },
                None => {
                    self.phase = SessionPhase::Idle;
                    self.message = self.idle_message();
                },
            }
        } else {
            self.phase = SessionPhase::Idle;
            self.message = self.idle_message();
        }
        let need_scan = !self.is_indexed(mode) && !self.is_scan_busy(mode);
        ModeSwitch { changed: true, kill_pids: kill, need_scan }
    }

    /// Drops players that exited, given for each live player (in order) and
    /// each parked player whether its process still runs. When the last
    /// player of a playing round exits the round ends; when the last parked
    /// player exits nothing stays parked. Returns whether anything changed.
    pub fn reap_dead_players(&mut self, items_alive: &[bool], parked_alive: &[bool]) -> (changed: bool)
        requires
            old(self).wf(),
            items_alive@.len() == old(self).items@.len(),
            parked_alive@.len() == old(self).parked().len(),
        ensures
            final(self).wf(),
            old(self).mode() == MediaMode::Movie ==> {
                let kept = alive_only(old(self).items@, items_alive@);
                &&& final(self).items@ == kept
                &&& changed == (kept.len() != old(self).items@.len())
                &&& (changed && kept.len() == 0 ==> {
                    &&& final(self).phase == SessionPhase::Idle
                    &&& eq_but_message(
                        *final(self),
                        (SessionState { items: final(self).items, phase: SessionPhase::Idle, ..*old(self) }),
                    )
                    &&& final(self).message@ == (if old(self).preview().len() == 0 {
                        final(self).idle_msg()
                    } else {
                        "播放器已全部关闭 · 预览仍保留 "@ + decimal(old(self).preview().len()) + " 部"@
                    })
                })
                &&& (changed && kept.len() > 0 ==> {
                    &&& eq_but_message(*final(self), (SessionState { items: final(self).items, ..*old(self) }))
                    &&& final(self).message@ == "播放中 · "@ + decimal(kept.len()) + " 部"@
                })
                &&& (!changed ==> *final(self) == *old(self))
            },
            old(self).mode() == MediaMode::Image ==> {
                &&& final(self).items == old(self).items
                &&& (old(self).parked_movie is None ==> *final(self) == *old(self) && !changed)
                &&& (old(self).parked_movie matches Some(p) ==> {
                    let kept = alive_only(p@, parked_alive@);
                    &&& (kept.len() == 0 ==> {
                        &&& changed
                        &&& final(self).parked_movie is None
                        &&& eq_but_message(*final(self), (SessionState { parked_movie: None, ..*old(self) }))
                        &&& (old(self).phase == SessionPhase::Idle ==> final(self).message@
                            == final(self).idle_msg())
                        &&& (old(self).phase != SessionPhase::Idle ==> final(self).message
                            == old(self).message)
                    })
                    &&& (kept.len() > 0 ==> {
                        &&& changed == (kept.len() != p@.len())
                        &&& final(self).parked() == kept
                        &&& (SessionState { parked_movie: old(self).parked_movie, ..*final(self) })
                            == *old(self)
                    })
                })
            },
    {
        let mut changed = false;
        if self.items.len() > 0 && self.config.media_mode == MediaMode::Movie {
            let before = self.items.len();
            let kept = keep_alive(&self.items, items_alive);
            if kept.len() != before {
                self.items = kept;
                changed = true;
                if self.items.len() == 0 && self.phase == SessionPhase::Playing {
                    self.phase = SessionPhase::Idle;
                    self.message = if self.preview_files.len() == 0 {
                        self.idle_message()
                    } else {
                        msg_n("播放器已全部关闭 · 预览仍保留 ", self.preview_files.len(), " 部")
                    };
                } else if self.phase == SessionPhase::Playing {
                    self.message = msg_n("播放中 · ", self.items.len(), " 部");
                }
            } else {
                proof {
                    lemma_alive_all(self.items@, items_alive@);
                }
            }
        } else if self.config.media_mode == MediaMode::Movie {
            assert(alive_only(self.items@, items_alive@) =~= self.items@);
        }
        let parked = self.parked_movie.take();
        match parked {
            None => {},
            Some(p) => {
                let before = p.len();
                let kept = keep_alive(&p, parked_alive);
                if kept.len() == 0 {
                    if self.config.media_mode == MediaMode::Image && self.phase == SessionPhase::Idle {
                        self.message = self.idle_message();
                    }
                    changed = true;
                } else {
                    if kept.len() != before {
                        changed = true;
                        self.parked_movie = Some(kept);
                    } else {
                        proof {
                            lemma_alive_all(p@, parked_alive@);
                        }
                        self.parked_movie = Some(p);
                    }
                }
            },
        }
        changed
    }
}

/// Keeping every entry keeps the sequence: when `alive_only` loses nothing
/// it is the identity.
proof fn lemma_alive_all(items: Seq<LaunchedItem>, alive: Seq<bool>)
    requires
        alive.len() == items.len(),
        alive_only(items, alive).len() == items.len(),
    ensures
        alive_only(items, alive) == items,
    decreases items.len(),
{
    if items.len() > 0 {
        let n = items.len() - 1;
        lemma_alive_len(items.take(n), alive);
        if alive[n] {
            lemma_alive_all_take(items, alive, n);
            assert(items.take(n).push(items[n]) =~= items);
        } else {
            assert(false);
        }
    }
}

proof fn lemma_alive_len(items: Seq<LaunchedItem>, alive: Seq<bool>)
    ensures
        alive_only(items, alive).len() <= items.len(),
    decreases items.len(),
{
    if items.len() > 0 && alive.len() >= items.len() {
        lemma_alive_len(items.take(items.len() - 1), alive);
    }
}

proof fn lemma_alive_all_take(items: Seq<LaunchedItem>, alive: Seq<bool>, n: int)
    requires
        n == items.len() - 1,
        n >= 0,
        alive.len() == items.len(),
        alive_only(items, alive).len() == items.len(),
        alive[n],
    ensures
        alive_only(items.take(n), alive) == items.take(n),
{
    let t = items.take(n);
    lemma_alive_len(t, alive);
    assert(alive_only(t, alive).len() == t.len());
    lemma_alive_all_prefix(t, alive);
}

proof fn lemma_alive_all_prefix(items: Seq<LaunchedItem>, alive: Seq<bool>)
    requires
        alive.len() >= items.len(),
        alive_only(items, alive).len() == items.len(),
    ensures
        alive_only(items, alive) == items,
    decreases items.len(),
{
    if items.len() > 0 {
        let n = items.len() - 1;
        let t = items.take(n);
        lemma_alive_len(t, alive);
        if alive[n] {
            assert(alive_only(t, alive).len() == t.len());
            lemma_alive_all_prefix(t, alive);
            assert(t.push(items[n]) =~= items);
        } else {
            assert(false);
        }
    }
}

} // verus!

verus! {

impl SessionState {
    pub fn media_mode(&self) -> (m: MediaMode)
        ensures
            m == self.mode(),
    {
        self.config.media_mode
    }

    pub fn ui_count(&self) -> (n: usize)
        ensures
            n == self.ui_count,
    {
        self.ui_count
    }

    /// A copy of the settings.
    pub fn config_clone(&self) -> (c: Config)
        ensures
            c@ == self.config@,
    {
        self.config.clone_config()
    }

    /// Seconds per slideshow image, kept within 1..=60.
    pub fn set_slideshow_interval(&mut self, secs: u8)
        requires
            old(self).wf(),
        ensures
            final(self).wf(),
            final(self).config@ == (ConfigModel {
                slideshow_interval_secs: clamp(secs as int, 1, 60) as nat,
                ..old(self).config@
            }),
            *final(self) == (SessionState { config: final(self).config, ..*old(self) }),
    {
        self.config.slideshow_interval_secs = if secs < 1 {
            1
        } else if secs > 60 {
            60
        } else {
            secs
        };
    }

    pub fn set_image_play_style(&mut self, style: ImagePlayStyle)
        requires
            old(self).wf(),
        ensures
            final(self).wf(),
            final(self).config@ == (ConfigModel { image_play_style: style, ..old(self).config@ }),
            *final(self) == (SessionState { config: final(self).config, ..*old(self) }),
    {
        self.config.image_play_style = style;
    }

    /// Sets the pick count of the active mode (clamped to its bounds); it
    /// becomes that mode's default too.
    pub fn set_ui_count(&mut self, n: usize)
        requires
            old(self).wf(),
        ensures
            final(self).wf(),
            final(self).ui_count == clamp(
                n as int,
                bounds_of(old(self).config@, old(self).mode()).0 as int,
                bounds_of(old(self).config@, old(self).mode()).1 as int,
            ),
            final(self).config@ == (match old(self).mode() {
                MediaMode::Movie => ConfigModel { default_count: final(self).ui_count as nat, ..old(self).config@ },
                MediaMode::Image => ConfigModel {
                    image_default_count: final(self).ui_count as nat,
                    ..old(self).config@
                },
            }),
            *final(self) == (SessionState { config: final(self).config, ui_count: final(self).ui_count, ..*old(self) }),
    {
        let mode = self.config.media_mode;
        let n = self.config.clamp_count_for(mode, n);
        self.ui_count = n;
        self.config.set_default_count_for(mode, n);
    }

    /// Sets the active mode's count bounds (lower bound first, then upper,
    /// each kept consistent) and clamps the pick count into them.
    pub fn set_count_bounds(&mut self, min: usize, max: usize)
        requires
            old(self).wf(),
        ensures
            final(self).wf(),
            ({
                let m = after_set_max(after_set_min(old(self).config@, old(self).mode(), min as nat), old(self).mode(), max as nat);
                let (lo, hi) = bounds_of(m, old(self).mode());
                &&& final(self).ui_count == clamp(old(self).ui_count as int, lo as int, hi as int)
                &&& final(self).config@ == (match old(self).mode() {
                    MediaMode::Movie => ConfigModel { default_count: final(self).ui_count as nat, ..m },
                    MediaMode::Image => ConfigModel { image_default_count: final(self).ui_count as nat, ..m },
                })
            }),
            *final(self) == (SessionState { config: final(self).config, ui_count: final(self).ui_count, ..*old(self) }),
    {
        let mode = self.config.media_mode;
        proof {
            lemma_set_bounds_keep_sane(self.config@, mode, min as nat);
        }
        self.config.set_count_min_for(mode, min);
        proof {
            lemma_set_bounds_keep_sane(self.config@, mode, max as nat);
        }
        self.config.set_count_max_for(mode, max);
        let n = self.config.clamp_count_for(mode, self.ui_count);
        self.ui_count = n;
        self.config.set_default_count_for(mode, n);
    }

    pub fn set_avoid_recent(&mut self, v: bool)
        requires
            old(self).wf(),
        ensures
            final(self).wf(),
            final(self).config@ == (ConfigModel { avoid_recent: v, ..old(self).config@ }),
            *final(self) == (SessionState { config: final(self).config, ..*old(self) }),
    {
        self.config.avoid_recent = v;
    }

    pub fn set_close_on_exit(&mut self, v: bool)
        requires
            old(self).wf(),
        ensures
            final(self).wf(),
            final(self).config@ == (ConfigModel { close_session_on_exit: v, ..old(self).config@ }),
            *final(self) == (SessionState { config: final(self).config, ..*old(self) }),
    {
        self.config.close_session_on_exit = v;
    }

    /// The display for the player grid (the shell re-tiles afterwards).
    pub fn set_tile_monitor_index(&mut self, index: i32)
        requires
            old(self).wf(),
        ensures
            final(self).wf(),
            final(self).config@ == (ConfigModel { tile_monitor_index: index as int, ..old(self).config@ }),
            *final(self) == (SessionState { config: final(self).config, ..*old(self) }),
    {
        self.config.tile_monitor_index = index;
    }

    /// Returns whether the setting changed (and must be saved).
    pub fn set_workbench_sidebar_open(&mut self, open: bool) -> (changed: bool)
        requires
            old(self).wf(),
        ensures
            final(self).wf(),
            changed == (old(self).config.workbench_sidebar_open != open),
            final(self).config@ == (ConfigModel { workbench_sidebar_open: open, ..old(self).config@ }),
            *final(self) == (SessionState { config: final(self).config, ..*old(self) }),
    {
        if self.config.workbench_sidebar_open == open {
            assert(self.config@ =~= (ConfigModel { workbench_sidebar_open: open, ..self.config@ }));
            return false;
        }
        self.config.workbench_sidebar_open = open;
        true
    }

    /// Movie preview columns (kept within 2..=5); returns whether they changed.
    pub fn set_card_cols(&mut self, cols: u8) -> (changed: bool)
        requires
            old(self).wf(),
        ensures
            final(self).wf(),
            changed == (old(self).config.card_cols != clamp(cols as int, 2, 5)),
            final(self).config@ == (ConfigModel {
                card_cols: clamp(cols as int, 2, 5) as nat,
                ..old(self).config@
            }),
            *final(self) == (SessionState { config: final(self).config, ..*old(self) }),
    {
        let cols = if cols < 2 {
            2
        } else if cols > 5 {
            5
        } else {
            cols
        };
        if self.config.card_cols == cols {
            assert(self.config@ =~= (ConfigModel { card_cols: cols as nat, ..self.config@ }));
            return false;
        }
        self.config.card_cols = cols;
        true
    }

    /// Returns whether the setting changed (and must be saved).
    pub fn set_pin_while_playing(&mut self, on: bool) -> (changed: bool)
        requires
            old(self).wf(),
        ensures
            final(self).wf(),
            changed == (old(self).config.pin_while_playing != on),
            final(self).config@ == (ConfigModel { pin_while_playing: on, ..old(self).config@ }),
            *final(self) == (SessionState { config: final(self).config, ..*old(self) }),
    {
        if self.config.pin_while_playing == on {
            assert(self.config@ =~= (ConfigModel { pin_while_playing: on, ..self.config@ }));
            return false;
        }
        self.config.pin_while_playing = on;
        true
    }

    pub fn set_minimize_to_tray(&mut self, v: bool)
        requires
            old(self).wf(),
        ensures
            final(self).wf(),
            final(self).config@ == (ConfigModel { minimize_to_tray: v, ..old(self).config@ }),
            *final(self) == (SessionState { config: final(self).config, ..*old(self) }),
    {
        self.config.minimize_to_tray = v;
    }

    pub fn set_potplayer_path(&mut self, path: String)
        requires
            old(self).wf(),
        ensures
            final(self).wf(),
            final(self).config@ == (ConfigModel { potplayer_path: path@, ..old(self).config@ }),
            *final(self) == (SessionState { config: final(self).config, ..*old(self) }),
    {
        self.config.potplayer_path = path;
    }
}

} // verus!
