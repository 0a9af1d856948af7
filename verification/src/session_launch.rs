//! The decisions of a background movie launch. The shell resolves the
//! player, starts and places the windows, and between its steps asks the
//! session whether the launch it runs (by generation) is still wanted; only
//! a still current launch may commit.

use vstd::prelude::*;
use crate::config::{MediaMode, decimal};
use crate::potplayer::LaunchedItem;
use crate::tiler::{Rect, grid_layout, usable_area, is_grid_cell};
use crate::history::{newest, played_all};
use crate::session::{SessionState, SessionPhase, s, msg_n, clone_strings, item_pids, item_paths};
use crate::session_play::{GuardStep, LaunchList, targets_of, pids_of_items};

verus! {

broadcast use vstd::std_specs::vec::group_vec_axioms;

impl SessionState {
    /// The launch of generation `gen` may go on: it is the current one, the
    /// round is still starting and the session is in movie mode.
    pub open spec fn launch_current(&self, gen: u64) -> bool {
        self.play_gen == gen && self.phase == SessionPhase::Starting && self.mode() == MediaMode::Movie
    }

    /// `b` is `a` with the launch of `gen` ended idle (message and errors
    /// aside); nothing happens unless `gen` is current.
    pub open spec fn launch_ended(a: SessionState, b: SessionState, gen: u64) -> bool {
        if a.play_gen == gen && a.items@.len() == 0 {
            b.phase == SessionPhase::Idle && (SessionState {
                phase: a.phase,
                message: a.message,
                last_errors: a.last_errors,
                play_queue: a.play_queue,
                ..b
            }) == a
        } else {
            b == a
        }
    }

    pub fn start_still_valid(&self, gen: u64) -> (r: bool)
        ensures
            r == self.launch_current(gen),
    {
        self.play_gen == gen && self.phase == SessionPhase::Starting && self.config.media_mode == MediaMode::Movie
    }

    /// Hands the launch of `gen` its play list (the one-shot list, else the
    /// slate) and the configured player path. A superseded launch gets
    /// nothing; an empty list ends the launch.
    pub fn take_launch_list(&mut self, gen: u64) -> (r: Option<LaunchList>)
        requires
            old(self).wf(),
        ensures
            final(self).wf(),
            old(self).play_gen != gen ==> r is None && *final(self) == *old(self),
            old(self).play_gen == gen ==> {
                let list = match old(self).play_queue {
                    Some(q) => q.deep_view(),
                    None => old(self).preview(),
                };
                &&& final(self).play_queue is None
                &&& (list.len() > 0 ==> (r matches Some(l) && l.files.deep_view() == list
                    && l.potplayer_path@ == old(self).config.potplayer_path@)
                    && *final(self) == (SessionState { play_queue: None, ..*old(self) }))
                &&& (list.len() == 0 ==> r is None && SessionState::launch_ended(
                    (SessionState { play_queue: None, ..*old(self) }),
                    *final(self),
                    gen,
                ) && (old(self).items@.len() == 0 ==> final(self).message@ == "请先「随机预览」生成片单"@))
            },
    {
        if self.play_gen != gen {
            return None;
        }
        let chosen = match self.play_queue.take() {
            Some(q) => q,
            None => clone_strings(&self.preview_files),
        };
        if chosen.len() == 0 {
            if self.items.len() == 0 {
                self.phase = SessionPhase::Idle;
                self.message = s("请先「随机预览」生成片单");
            }
            return None;
        }
        Some(LaunchList { files: chosen, potplayer_path: self.config.potplayer_path.clone() })
    }

    /// No PotPlayer was found and the shell opened the list with the system
    /// player instead (`opened` succeeded, `errors` for the rest). Unless
    /// superseded, the launch ends idle; when anything opened, the list is
    /// recorded in the history. Returns whether the history changed.
    pub fn system_open_done(&mut self, gen: u64, files: &Vec<String>, opened: usize, errors: Vec<String>) -> (recorded: bool)
        requires
            old(self).wf(),
        ensures
            final(self).wf(),
            !(old(self).play_gen == gen && old(self).items@.len() == 0) ==> !recorded && *final(self) == *old(self),
            old(self).play_gen == gen && old(self).items@.len() == 0 ==> {
                &&& final(self).phase == SessionPhase::Idle
                &&& final(self).last_errors.deep_view() == errors.deep_view()
                &&& recorded == (opened > 0)
                &&& (opened > 0 ==> {
                    &&& final(self).recent_of_mode() == newest(
                        played_all(old(self).recent_of_mode(), files.deep_view()),
                        old(self).config.recent_history_size as nat,
                    )
                    &&& final(self).message@ == "已用系统默认打开 "@ + decimal(opened as nat)
                        + " 部 · 无平铺 · 设置可装 PotPlayer"@
                })
                &&& (opened == 0 ==> final(self).recent_of_mode() == old(self).recent_of_mode()
                    && final(self).message@ == "无法打开：未找到 PotPlayer，且系统打开失败"@)
                &&& (SessionState {
                    phase: old(self).phase,
                    last_errors: old(self).last_errors,
                    message: old(self).message,
                    movie_history: old(self).movie_history,
                    image_history: old(self).image_history,
                    ..*final(self)
                }) == *old(self)
                &&& (old(self).mode() == MediaMode::Movie ==> final(self).image_history == old(self).image_history)
                &&& (old(self).mode() == MediaMode::Image ==> final(self).movie_history == old(self).movie_history)
            },
    {
        if self.play_gen != gen || self.items.len() > 0 {
            return false;
        }
        self.phase = SessionPhase::Idle;
        self.last_errors = errors;
        if opened > 0 {
            let size = self.config.recent_history_size;
            match self.config.media_mode {
                MediaMode::Movie => self.movie_history.push_many(files.as_slice(), size),
                MediaMode::Image => self.image_history.push_many(files.as_slice(), size),
            }
            let mut m = msg_n("已用系统默认打开 ", opened, " 部 · 无平铺 · 设置可装 PotPlayer");
            self.message = m;
            true
        } else {
            self.message = s("无法打开：未找到 PotPlayer，且系统打开失败");
            false
        }
    }

    /// The active mode's history.
    pub open spec fn recent_of_mode(&self) -> Seq<Seq<char>> {
        self.history_of(self.mode())
    }

    /// No player started: unless superseded, the launch ends idle with the
    /// launch errors shown.
    pub fn launch_failed(&mut self, gen: u64, errors: Vec<String>)
        requires
            old(self).wf(),
        ensures
            final(self).wf(),
            SessionState::launch_ended(*old(self), *final(self), gen),
            final(self).play_queue == old(self).play_queue,
            old(self).play_gen == gen && old(self).items@.len() == 0 ==> final(self).last_errors.deep_view()
                == errors.deep_view() && final(self).message@ == "启动 PotPlayer 失败"@,
    {
        if self.play_gen == gen && self.items.len() == 0 {
            self.phase = SessionPhase::Idle;
            self.last_errors = errors;
            self.message = s("启动 PotPlayer 失败");
        }
    }

    /// The launch was abandoned after its players were killed: unless
    /// superseded, it ends idle with `msg`.
    pub fn abort_start(&mut self, gen: u64, msg: &str)
        requires
            old(self).wf(),
        ensures
            final(self).wf(),
            SessionState::launch_ended(*old(self), *final(self), gen),
            final(self).play_queue == old(self).play_queue,
            final(self).last_errors == old(self).last_errors,
            old(self).play_gen == gen && old(self).items@.len() == 0 ==> final(self).message@ == msg@,
    {
        if self.play_gen == gen && self.items.len() == 0 {
            self.phase = SessionPhase::Idle;
            self.message = String::from_str(msg);
        }
    }

    /// Commits the launch of `gen` with the players that started (errors for
    /// the rest), laid out on the grid of `area`; only a current launch
    /// commits, otherwise the shell kills the players. The started files
    /// become the slate and are recorded in the history.
    pub fn commit_start(&mut self, gen: u64, launched: Vec<LaunchedItem>, errors: Vec<String>, area: Rect) -> (committed: bool)
        requires
            old(self).wf(),
            area.measurable(),
        ensures
            final(self).wf(),
            committed == old(self).launch_current(gen),
            !committed ==> *final(self) == *old(self),
            committed ==> {
                let paths = item_paths(launched@);
                let n = launched@.len();
                &&& final(self).items == launched
                &&& final(self).phase == SessionPhase::Playing
                &&& final(self).preview() == paths
                &&& final(self).movie_preview.deep_view() == paths
                &&& final(self).movie_history@ == newest(
                    played_all(old(self).movie_history@, paths),
                    old(self).config.recent_history_size as nat,
                )
                &&& final(self).last_errors.deep_view() == errors.deep_view()
                &&& final(self).geometry_guard
                &&& (n == 0 || !usable_area(area) ==> final(self).tile_targets@.len() == 0)
                &&& (n > 0 && usable_area(area) ==> exists|cells: Seq<Rect>| #![auto]
                    cells.len() == n && (forall|i: int| 0 <= i < n ==> is_grid_cell(n, area, i, #[trigger] cells[i]))
                    && final(self).tile_targets@ == targets_of(item_pids(launched@), cells))
                &&& final(self).message@ == "播放中 · "@ + decimal(n) + " 部"@ + (if errors@.len() > 0 {
                    " · 部分失败"@
                } else {
                    Seq::empty()
                })
                &&& (SessionState {
                    items: old(self).items,
                    phase: old(self).phase,
                    preview_files: old(self).preview_files,
                    movie_preview: old(self).movie_preview,
                    movie_history: old(self).movie_history,
                    last_errors: old(self).last_errors,
                    tile_targets: old(self).tile_targets,
                    geometry_guard: old(self).geometry_guard,
                    message: old(self).message,
                    ..*final(self)
                }) == *old(self)
            },
    {
        if !(self.play_gen == gen && self.phase == SessionPhase::Starting && self.config.media_mode == MediaMode::Movie) {
            return false;
        }
        let paths = crate::session::paths_of(&launched);
        let pids = pids_of_items(&launched);
        let size = self.config.recent_history_size;
        self.movie_history.push_many(paths.as_slice(), size);
        self.preview_files = clone_strings(&paths);
        self.movie_preview = clone_strings(&paths);
        let n = launched.len();
        self.items = launched;
        self.phase = SessionPhase::Playing;
        let failed_some = errors.len() > 0;
        self.last_errors = errors;
        let cells = grid_layout(pids.len(), area);
        self.tile_targets = crate::session_play::build_targets(&pids, &cells);
        self.geometry_guard = true;
        let mut msg = msg_n("播放中 · ", n, " 部");
        if failed_some {
            msg.append(" · 部分失败");
        }
        self.message = msg;
        proof {
            if n == 0 || !usable_area(area) {
                assert(targets_of(pids@, cells@) =~= Seq::<(u32, Rect)>::empty());
            }
        }
        true
    }

    /// One round of the geometry guard: it ends once no movie player is
    /// left (playing or parked), and enforces the cell targets while the
    /// guard is on and there are any.
    pub fn guard_step(&self) -> (g: GuardStep)
        ensures
            ({
                let live = (self.phase == SessionPhase::Playing && self.mode() == MediaMode::Movie
                    && self.items@.len() > 0) || self.parked_movie is Some;
                &&& (!live ==> g is Exit)
                &&& (live && (!self.geometry_guard || self.tile_targets@.len() == 0) ==> g is Skip)
                &&& (live && self.geometry_guard && self.tile_targets@.len() > 0 ==> (g matches GuardStep::Enforce(t)
                    && t@ == self.tile_targets@))
            }),
    {
        let live = (self.phase == SessionPhase::Playing && self.config.media_mode == MediaMode::Movie
            && self.items.len() > 0) || self.parked_movie.is_some();
        if !live {
            GuardStep::Exit
        } else if !self.geometry_guard || self.tile_targets.len() == 0 {
            GuardStep::Skip
        } else {
            GuardStep::Enforce(crate::session_play::copy_targets(&self.tile_targets))
        }
    }
}

} // verus!
