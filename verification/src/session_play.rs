//! Playing a slate: starting a movie round (launched by the shell in the
//! background, committed only while its generation is current) or an image
//! slideshow, stopping, the player grid, and the single-player controls.

use vstd::prelude::*;
use crate::flags::{flagged, set_count, capped, lemma_flagged_push, lemma_flagged_facts};
use crate::config::{MediaMode, ImagePlayStyle, ABS_COUNT_MAX, decimal};
use crate::potplayer::LaunchedItem;
use crate::tiler::{Rect, grid_layout, usable_area, is_grid_cell};
use crate::pathname::file_stem;
use crate::session::{
    SessionState, SessionPhase, eq_but_message, next_gen, s, msg_n, clone_strings, item_pids,
};
use crate::session_mode::live_pids;
use crate::session_slate::{chosen_slots, mask_set, err_is};

verus! {

broadcast use vstd::std_specs::vec::group_vec_axioms;

/// What a start leaves for the shell to do.
pub struct StartPlan {
    /// Parked movie players to kill before the new round.
    pub kill_parked: Vec<u32>,
    /// A movie round to launch in the background under this generation.
    pub launch: Option<u64>,
}

/// What stopping leaves for the shell to do.
pub struct StopPlan {
    /// Players to kill.
    pub kill_pids: Vec<u32>,
    /// Call `stop_finished` once they are gone.
    pub then_finish: bool,
}

/// What "another batch" asks of the shell.
pub enum RerollPlan {
    /// A round is starting or stopping: nothing to do.
    Nothing,
    /// Roll a new slate now.
    RollNow,
    /// Kill these players, call `reroll_finished`, then roll.
    KillThenRoll(Vec<u32>),
}

/// One round of the geometry guard.
pub enum GuardStep {
    /// No player is left: the guard ends.
    Exit,
    /// Nothing to enforce this round.
    Skip,
    /// Keep each player window in its cell.
    Enforce(Vec<(u32, Rect)>),
}

/// What the background launcher works with.
pub struct LaunchList {
    pub files: Vec<String>,
    pub potplayer_path: String,
}

/// Forced-grid focus on one player: keep it, kill the others.
pub struct SoloPlan {
    pub keep: u32,
    pub kill: Vec<u32>,
}

/// `s` without the cell target of `pid`.
pub open spec fn without_pid(s: Seq<(u32, Rect)>, pid: u32) -> Seq<(u32, Rect)>
    decreases s.len(),
{
    if s.len() == 0 {
        Seq::empty()
    } else {
        let prev = without_pid(s.drop_last(), pid);
        if s.last().0 == pid {
            prev
        } else {
            prev.push(s.last())
        }
    }
}

/// Cell targets assigning `rects[i]` to `pids[i]` (a later entry for the
/// same process replaces an earlier one); the shorter list decides how many.
pub open spec fn targets_of(pids: Seq<u32>, rects: Seq<Rect>) -> Seq<(u32, Rect)>
    decreases pids.len(),
{
    if pids.len() == 0 || rects.len() == 0 {
        Seq::empty()
    } else if pids.len() > rects.len() {
        targets_of(pids.take(rects.len() as int), rects)
    } else {
        let n = pids.len() - 1;
        without_pid(targets_of(pids.take(n), rects), pids[n]).push((pids[n], rects[n]))
    }
}

/// No process has two cell targets.
pub open spec fn pids_distinct(t: Seq<(u32, Rect)>) -> bool {
    forall|i: int, j: int| 0 <= i < j < t.len() ==> (#[trigger] t[i]).0 != (#[trigger] t[j]).0
}

/// Dropping a process's target keeps only other processes' targets, each
/// taken from `s`, and keeps targets distinct.
pub proof fn lemma_without_pid(s: Seq<(u32, Rect)>, pid: u32)
    ensures
        forall|k: int| 0 <= k < without_pid(s, pid).len() ==> (#[trigger] without_pid(s, pid)[k]).0 != pid
            && s.contains(without_pid(s, pid)[k]),
        pids_distinct(s) ==> pids_distinct(without_pid(s, pid)),
    decreases s.len(),
{
    if s.len() > 0 {
        let t = s.drop_last();
        lemma_without_pid(t, pid);
        let w = without_pid(t, pid);
        assert forall|k: int| 0 <= k < w.len() implies s.contains(#[trigger] w[k]) by {
            let i = choose|i: int| 0 <= i < t.len() && t[i] == w[k];
            assert(s[i] == w[k]);
        }
        if s.last().0 != pid {
            let u = w.push(s.last());
            assert forall|k: int| 0 <= k < u.len() implies (#[trigger] u[k]).0 != pid && s.contains(u[k]) by {
                if k < w.len() {
                    assert(u[k] == w[k]);
                } else {
                    assert(s[s.len() - 1] == u[k]);
                }
            }
            if pids_distinct(s) {
                assert(pids_distinct(t)) by {
                    assert forall|i: int, j: int| 0 <= i < j < t.len() implies (#[trigger] t[i]).0 != (#[trigger] t[j]).0 by {
                        assert(t[i] == s[i] && t[j] == s[j]);
                    }
                }
                assert forall|i: int, j: int| 0 <= i < j < u.len() implies (#[trigger] u[i]).0 != (#[trigger] u[j]).0 by {
                    if j == u.len() - 1 {
                        assert(u[i] == w[i]);
                        let m = choose|m: int| 0 <= m < t.len() && t[m] == w[i];
                        assert(s[m] == t[m]);
                        assert(s[s.len() - 1] == u[j]);
                    } else {
                        assert(u[i] == w[i] && u[j] == w[j]);
                    }
                }
            }
        } else {
            if pids_distinct(s) {
                assert(pids_distinct(t)) by {
                    assert forall|i: int, j: int| 0 <= i < j < t.len() implies (#[trigger] t[i]).0 != (#[trigger] t[j]).0 by {
                        assert(t[i] == s[i] && t[j] == s[j]);
                    }
                }
            }
        }
    }
}

/// Cell targets built for a list of processes name each process once.
pub proof fn lemma_targets_distinct(pids: Seq<u32>, rects: Seq<Rect>)
    ensures
        pids_distinct(targets_of(pids, rects)),
    decreases pids.len(),
{
    if pids.len() == 0 || rects.len() == 0 {
    } else if pids.len() > rects.len() {
        lemma_targets_distinct(pids.take(rects.len() as int), rects);
    } else {
        let n = pids.len() - 1;
        let t = targets_of(pids.take(n), rects);
        lemma_targets_distinct(pids.take(n), rects);
        lemma_without_pid(t, pids[n]);
        let w = without_pid(t, pids[n]);
        let u = w.push((pids[n], rects[n]));
        assert forall|i: int, j: int| 0 <= i < j < u.len() implies (#[trigger] u[i]).0 != (#[trigger] u[j]).0 by {
            if j == u.len() - 1 {
                assert(u[i] == w[i]);
            } else {
                assert(u[i] == w[i] && u[j] == w[j]);
            }
        }
    }
}

/// The message of a starting movie round of `n` titles.
pub open spec fn starting_msg(n: nat) -> Seq<char> {
    if n == 1 {
        "正在开启（单部）…"@
    } else {
        "正在开启播放 · "@ + decimal(n) + " 部…"@
    }
}

/// The message of a running slideshow or wall of `n` images.
pub open spec fn image_play_msg(style: ImagePlayStyle, n: nat) -> Seq<char> {
    match style {
        ImagePlayStyle::Slideshow => "幻灯中 · "@ + decimal(n) + " 张 · 空格暂停 · 左右切换 · Esc 结束"@,
        ImagePlayStyle::Wall => "平铺墙 · "@ + decimal(n) + " 张 · 点击放大 · Esc 结束"@,
    }
}

/// The entries of `s` at the positions in `sel`, in order.
pub open spec fn slots_asc(s: Seq<Seq<char>>, sel: Set<int>) -> Seq<Seq<char>>
    decreases s.len(),
{
    if s.len() == 0 {
        Seq::empty()
    } else {
        let prev = slots_asc(s.drop_last(), sel);
        if sel.contains(s.len() - 1) {
            prev.push(s.last())
        } else {
            prev
        }
    }
}

/// The entries of `ps` whose flag in `exists` is set, at most `cap` of them.
pub open spec fn existing_upto(ps: Seq<Seq<char>>, exists: Seq<bool>, cap: nat) -> Seq<Seq<char>>
    decreases ps.len(),
{
    if ps.len() == 0 {
        Seq::empty()
    } else {
        let prev = existing_upto(ps.drop_last(), exists, cap);
        if exists[ps.len() - 1] && prev.len() < cap {
            prev.push(ps.last())
        } else {
            prev
        }
    }
}

pub open spec fn opt_view(q: Option<Vec<String>>) -> Option<Seq<Seq<char>>> {
    match q {
        Some(v) => Some(v.deep_view()),
        None => None,
    }
}

/// What starting `a` with play list `queue` (the slate when `None`) gives.
pub open spec fn start_outcome(a: SessionState, b: SessionState, queue: Option<Seq<Seq<char>>>, plan: StartPlan) -> bool {
    let play = match queue {
        Some(q) => q,
        None => a.preview(),
    };
    if a.phase != SessionPhase::Idle {
        b == a && plan.kill_parked@.len() == 0 && plan.launch is None
    } else if play.len() == 0 {
        &&& plan.launch is None
        &&& plan.kill_parked@ == (if a.mode() == MediaMode::Movie { item_pids(a.parked()) } else { Seq::empty() })
        &&& b.message@ == "请先「随机预览」生成片单"@
        &&& a.mode() == MediaMode::Movie ==> (SessionState { parked_movie: None, message: a.message, ..b }) == a
        &&& a.mode() == MediaMode::Image ==> eq_but_message(b, a)
    } else if a.mode() == MediaMode::Image {
        &&& plan.launch is None
        &&& plan.kill_parked@.len() == 0
        &&& b.preview() == play
        &&& b.play_queue is None
        &&& b.phase == SessionPhase::Playing
        &&& b.last_errors@.len() == 0
        &&& b.message@ == image_play_msg(a.config.image_play_style, play.len())
        &&& (queue is Some && play.len() != a.preview().len() ==> (b.preview_backup matches Some(v)
            && v.deep_view() == a.preview()))
        &&& (!(queue is Some && play.len() != a.preview().len()) ==> b.preview_backup == a.preview_backup)
        &&& (SessionState {
            preview_files: a.preview_files,
            play_queue: a.play_queue,
            phase: a.phase,
            last_errors: a.last_errors,
            message: a.message,
            preview_backup: a.preview_backup,
            items: a.items,
            ..b
        }) == a
    } else {
        &&& plan.launch == Some(b.play_gen)
        &&& plan.kill_parked@ == item_pids(a.parked())
        &&& b.play_gen == next_gen(a.play_gen)
        &&& b.phase == SessionPhase::Starting
        &&& b.play_queue matches Some(v) && v.deep_view() == play
        &&& b.last_errors@.len() == 0
        &&& b.parked_movie is None
        &&& b.message@ == starting_msg(play.len())
        &&& (SessionState {
            play_gen: a.play_gen,
            phase: a.phase,
            play_queue: a.play_queue,
            last_errors: a.last_errors,
            parked_movie: a.parked_movie,
            message: a.message,
            ..b
        }) == a
    }
}

/// A favorites round plays every listed file that exists, in order, up to
/// `cap` of them: the first `cap` of the files flagged as existing, so
/// `min(cap, number of set flags)` files, each flagged file among them
/// when there is room for all.
pub proof fn lemma_plays_existing_upto(ps: Seq<Seq<char>>, exists: Seq<bool>, cap: nat)
    requires
        exists.len() >= ps.len(),
    ensures
        existing_upto(ps, exists, cap) == capped(flagged(ps, exists), cap),
        existing_upto(ps, exists, cap).len() == (if set_count(exists.take(ps.len() as int)) <= cap {
            set_count(exists.take(ps.len() as int))
        } else {
            cap
        }),
    decreases ps.len(),
{
    if ps.len() > 0 {
        let t = ps.drop_last();
        lemma_plays_existing_upto(t, exists, cap);
        assert(t.push(ps.last()) =~= ps);
        lemma_flagged_push(t, exists, ps.last());
        let ft = flagged(t, exists);
        let f = flagged(ps, exists);
        if exists[ps.len() - 1] && ft.len() < cap {
            assert(f =~= ft.push(ps.last()));
        } else if exists[ps.len() - 1] {
            assert(f.take(cap as int) =~= ft.take(cap as int));
        }
    }
    lemma_flagged_facts(ps, exists);
}

pub(crate) fn pids_of_items(items: &Vec<LaunchedItem>) -> (r: Vec<u32>)
    ensures
        r@ == item_pids(items@),
{
    let mut r: Vec<u32> = Vec::new();
    let mut i: usize = 0;
    while i < items.len()
        invariant
            0 <= i <= items@.len(),
            r@ == item_pids(items@.take(i as int)),
        decreases items@.len() - i,
    {
        r.push(items[i].pid);
        assert(item_pids(items@.take(i + 1)) =~= item_pids(items@.take(i as int)).push(items@[i as int].pid));
        i = i + 1;
    }
    assert(items@.take(items@.len() as int) =~= items@);
    r
}

fn drop_pid(v: &Vec<(u32, Rect)>, pid: u32) -> (r: Vec<(u32, Rect)>)
    ensures
        r@ == without_pid(v@, pid),
        pids_distinct(v@) ==> pids_distinct(r@),
{
    proof {
        lemma_without_pid(v@, pid);
    }
    let mut r: Vec<(u32, Rect)> = Vec::new();
    let mut i: usize = 0;
    while i < v.len()
        invariant
            0 <= i <= v@.len(),
            r@ == without_pid(v@.take(i as int), pid),
        decreases v@.len() - i,
    {
        assert(v@.take(i + 1).drop_last() =~= v@.take(i as int));
        let e = v[i];
        if e.0 != pid {
            r.push(e);
        }
        i = i + 1;
    }
    assert(v@.take(v@.len() as int) =~= v@);
    r
}

/// The cell targets for `pids` laid out on `rects`.
pub(crate) fn build_targets(pids: &Vec<u32>, rects: &Vec<Rect>) -> (r: Vec<(u32, Rect)>)
    ensures
        r@ == targets_of(pids@, rects@),
        pids_distinct(r@),
{
    proof {
        lemma_targets_distinct(pids@, rects@);
    }
    let n = if pids.len() < rects.len() {
        pids.len()
    } else {
        rects.len()
    };
    let mut r: Vec<(u32, Rect)> = Vec::new();
    let mut i: usize = 0;
    while i < n
        invariant
            0 <= i <= n,
            n <= pids@.len(),
            n <= rects@.len(),
            n == pids@.len() || n == rects@.len(),
            r@ == targets_of(pids@.take(i as int), rects@),
        decreases n - i,
    {
        proof {
            assert(pids@.take(i + 1).take(i as int) =~= pids@.take(i as int));
            assert(pids@.take(i + 1)[i as int] == pids@[i as int]);
        }
        let mut next = drop_pid(&r, pids[i]);
        next.push((pids[i], rects[i]));
        r = next;
        i = i + 1;
    }
    proof {
        if n == pids@.len() {
            assert(pids@.take(n as int) =~= pids@);
        } else {
            assert(targets_of(pids@, rects@) == targets_of(pids@.take(rects@.len() as int), rects@));
        }
    }
    r
}

pub(crate) fn copy_targets(v: &Vec<(u32, Rect)>) -> (r: Vec<(u32, Rect)>)
    ensures
        r@ == v@,
{
    let mut r: Vec<(u32, Rect)> = Vec::new();
    let mut i: usize = 0;
    while i < v.len()
        invariant
            0 <= i <= v@.len(),
            r@ == v@.take(i as int),
        decreases v@.len() - i,
    {
        r.push(v[i]);
        assert(r@ =~= v@.take(i + 1));
        i = i + 1;
    }
    assert(v@.take(v@.len() as int) =~= v@);
    r
}

fn next_generation(g: u64) -> (r: u64)
    ensures
        r == next_gen(g),
{
    g.wrapping_add(1)
}

impl SessionState {
    /// Starts the slate (or `queue`, a one-shot play list): images become
    /// an in-app slideshow at once; movies go to `Starting` under a new
    /// generation and the shell launches them. Idle sessions only.
    pub fn start_inner(&mut self, queue: Option<Vec<String>>) -> (plan: StartPlan)
        requires
            old(self).wf(),
        ensures
            final(self).wf(),
            start_outcome(*old(self), *final(self), opt_view(queue), plan),
    {
        if self.phase != SessionPhase::Idle {
            return StartPlan { kill_parked: Vec::new(), launch: None };
        }
        let ghost a = *self;
        let kill_parked = if self.config.media_mode == MediaMode::Movie {
            match self.parked_movie.take() {
                Some(p) => pids_of_items(&p),
                None => Vec::new(),
            }
        } else {
            Vec::new()
        };
        proof {
            if a.mode() == MediaMode::Movie && a.parked_movie is None {
                assert(item_pids(a.parked()) =~= Seq::<u32>::empty());
            }
        }
        let has_queue = queue.is_some();
        let play_files = match queue {
            Some(q) => q,
            None => clone_strings(&self.preview_files),
        };
        if play_files.len() == 0 {
            self.message = s("请先「随机预览」生成片单");
            return StartPlan { kill_parked, launch: None };
        }
        if self.config.media_mode == MediaMode::Image {
            let n = play_files.len();
            if has_queue && play_files.len() != self.preview_files.len() {
                self.preview_backup = Some(clone_strings(&self.preview_files));
            }
            self.preview_files = play_files;
            self.play_queue = None;
            self.phase = SessionPhase::Playing;
            self.items = Vec::new();
            self.last_errors = Vec::new();
            self.message = match self.config.image_play_style {
                ImagePlayStyle::Slideshow => msg_n("幻灯中 · ", n, " 张 · 空格暂停 · 左右切换 · Esc 结束"),
                ImagePlayStyle::Wall => msg_n("平铺墙 · ", n, " 张 · 点击放大 · Esc 结束"),
            };
            return StartPlan { kill_parked: Vec::new(), launch: None };
        }
        let n = play_files.len();
        self.play_queue = Some(play_files);
        self.play_gen = next_generation(self.play_gen);
        self.phase = SessionPhase::Starting;
        self.message = if n == 1 {
            s("正在开启（单部）…")
        } else {
            msg_n("正在开启播放 · ", n, " 部…")
        };
        self.last_errors = Vec::new();
        StartPlan { kill_parked, launch: Some(self.play_gen) }
    }

    /// Starts the slate.
    pub fn start(&mut self) -> (plan: StartPlan)
        requires
            old(self).wf(),
        ensures
            final(self).wf(),
            start_outcome(*old(self), *final(self), None, plan),
    {
        self.start_inner(None)
    }

    /// Starts only the slate slots named by `indices` (in slot order); the
    /// full slate stays. Returns how many start.
    pub fn start_selected(&mut self, indices: &[usize]) -> (r: (Result<usize, String>, StartPlan))
        requires
            old(self).wf(),
        ensures
            final(self).wf(),
            ({
                let sel = chosen_slots(indices@, old(self).preview().len());
                let play = slots_asc(old(self).preview(), sel);
                if old(self).phase != SessionPhase::Idle {
                    *final(self) == *old(self) && err_is(r.0, "播放中无法改开播列表"@) && r.1.launch is None
                } else if old(self).preview().len() == 0 {
                    *final(self) == *old(self) && err_is(r.0, "请先生成预览"@) && r.1.launch is None
                } else if play.len() == 0 {
                    *final(self) == *old(self) && err_is(r.0, "请先选中要播放的项"@) && r.1.launch is None
                } else {
                    r.0 == Ok::<usize, String>(play.len() as usize)
                        && start_outcome(*old(self), *final(self), Some(play), r.1)
                }
            }),
    {
        let none = StartPlan { kill_parked: Vec::new(), launch: None };
        if self.phase != SessionPhase::Idle {
            return (Err(s("播放中无法改开播列表")), none);
        }
        if self.preview_files.len() == 0 {
            return (Err(s("请先生成预览")), none);
        }
        let len = self.preview_files.len();
        let ghost sv = self.preview();
        let mask = crate::session_slate::slot_mask(indices, len);
        let ghost sel = mask_set(mask@);
        let mut play: Vec<String> = Vec::new();
        let mut i: usize = 0;
        while i < len
            invariant
                0 <= i <= len,
                len == sv.len(),
                sv == self.preview(),
                mask@.len() == len,
                sel == mask_set(mask@),
                play.deep_view() == slots_asc(sv.take(i as int), sel),
            decreases len - i,
        {
            assert(sv.take(i + 1).drop_last() =~= sv.take(i as int));
            if mask[i] {
                let ghost before = play.deep_view();
                play.push(self.preview_files[i].clone());
                assert(play.deep_view() =~= before.push(sv[i as int]));
            }
            i = i + 1;
        }
        assert(sv.take(len as int) =~= sv);
        if play.len() == 0 {
            return (Err(s("请先选中要播放的项")), none);
        }
        let n = play.len();
        let ghost pv = play.deep_view();
        let plan = self.start_inner(Some(play));
        assert(opt_view(Some(play)) == Some(pv));
        (Ok(n), plan)
    }

    /// Plays `paths` (favorites): those whose file exists (`exists` flags
    /// each, in order), at most the absolute pick limit, become the slate
    /// and start. Idle sessions only.
    pub fn start_paths(&mut self, paths: Vec<String>, exists: &[bool]) -> (r: (Result<usize, String>, StartPlan))
        requires
            old(self).wf(),
            exists@.len() == paths@.len(),
        ensures
            final(self).wf(),
            ({
                let play = existing_upto(paths.deep_view(), exists@, ABS_COUNT_MAX as nat);
                if paths@.len() == 0 {
                    *final(self) == *old(self) && err_is(r.0, "请先选中要播放的项"@) && r.1.launch is None
                } else if old(self).phase != SessionPhase::Idle {
                    *final(self) == *old(self) && err_is(r.0, "播放中无法改开播列表"@) && r.1.launch is None
                } else if play.len() == 0 {
                    *final(self) == *old(self) && err_is(r.0, "所选文件已不存在"@) && r.1.launch is None
                } else {
                    &&& r.0 == Ok::<usize, String>(play.len() as usize)
                    &&& exists|mid: SessionState| #![auto]
                        SessionState::slate_edited(*old(self), mid) && mid.preview() == play
                        && mid.message == old(self).message && mid.last_errors == old(self).last_errors
                        && start_outcome(mid, *final(self), Some(play), r.1)
                }
            }),
    {
        let none = StartPlan { kill_parked: Vec::new(), launch: None };
        if paths.len() == 0 {
            return (Err(s("请先选中要播放的项")), none);
        }
        if self.phase != SessionPhase::Idle {
            return (Err(s("播放中无法改开播列表")), none);
        }
        let ghost pv = paths.deep_view();
        let mut play: Vec<String> = Vec::new();
        let mut i: usize = 0;
        while i < paths.len()
            invariant
                0 <= i <= paths@.len(),
                exists@.len() == paths@.len(),
                pv == paths.deep_view(),
                play.deep_view() == existing_upto(pv.take(i as int), exists@, ABS_COUNT_MAX as nat),
                play@.len() <= ABS_COUNT_MAX,
            decreases paths@.len() - i,
        {
            assert(pv.take(i + 1).drop_last() =~= pv.take(i as int));
            if exists[i] && play.len() < ABS_COUNT_MAX {
                let ghost before = play.deep_view();
                play.push(paths[i].clone());
                assert(play.deep_view() =~= before.push(pv[i as int]));
            }
            i = i + 1;
        }
        assert(pv.take(paths@.len() as int) =~= pv);
        if play.len() == 0 {
            return (Err(s("所选文件已不存在")), none);
        }
        let n = play.len();
        let ghost playv = play.deep_view();
        self.preview_files = clone_strings(&play);
        match self.config.media_mode {
            MediaMode::Movie => self.movie_preview = clone_strings(&self.preview_files),
            MediaMode::Image => self.image_preview = clone_strings(&self.preview_files),
        }
        let ghost mid = *self;
        assert(SessionState::slate_edited(*old(self), mid));
        let plan = self.start_inner(Some(play));
        assert(opt_view(Some(play)) == Some(playv));
        (Ok(n), plan)
    }
}

} // verus!

verus! {

impl SessionState {
    /// Stops what plays. A movie round still starting is cancelled (its
    /// generation is superseded); a slideshow ends at once and a full slate
    /// stashed for it comes back; a movie round goes to `Stopping` and the
    /// shell kills its players, then calls `stop_finished`.
    pub fn stop(&mut self) -> (plan: StopPlan)
        requires
            old(self).wf(),
        ensures
            final(self).wf(),
            old(self).phase == SessionPhase::Starting && old(self).mode() == MediaMode::Movie ==> {
                &&& plan.kill_pids@.len() == 0 && !plan.then_finish
                &&& final(self).message@ == "已取消开启"@
                &&& eq_but_message(
                    *final(self),
                    (SessionState { play_gen: next_gen(old(self).play_gen), phase: SessionPhase::Idle, ..*old(self) }),
                )
            },
            !(old(self).phase == SessionPhase::Starting && old(self).mode() == MediaMode::Movie)
                && old(self).phase != SessionPhase::Playing ==> *final(self) == *old(self)
                && plan.kill_pids@.len() == 0 && !plan.then_finish,
            old(self).phase == SessionPhase::Playing && old(self).mode() == MediaMode::Image ==> {
                &&& plan.kill_pids@.len() == 0 && !plan.then_finish
                &&& final(self).phase == SessionPhase::Idle
                &&& (old(self).preview_backup matches Some(full) ==> final(self).preview() == full.deep_view()
                    && final(self).preview_backup is None && SessionState::slate_edited(
                        (SessionState { phase: SessionPhase::Idle, preview_backup: None, ..*old(self) }),
                        *final(self),
                    ))
                &&& (old(self).preview_backup is None ==> eq_but_message(
                    *final(self),
                    (SessionState { phase: SessionPhase::Idle, ..*old(self) }),
                ))
                &&& final(self).message@ == (if final(self).preview().len() == 0 {
                    final(self).idle_msg()
                } else {
                    "已停止 · 预览仍保留 "@ + decimal(final(self).preview().len()) + " 张"@
                })
            },
            old(self).phase == SessionPhase::Playing && old(self).mode() == MediaMode::Movie ==> {
                &&& plan.kill_pids@ == item_pids(old(self).items@)
                &&& plan.then_finish
                &&& final(self).phase == SessionPhase::Stopping
                &&& final(self).items@.len() == 0
                &&& final(self).tile_targets@.len() == 0
                &&& !final(self).geometry_guard
                &&& final(self).parked_movie is None
                &&& final(self).message@ == "正在关闭本轮…"@
                &&& (SessionState {
                    phase: old(self).phase,
                    items: old(self).items,
                    tile_targets: old(self).tile_targets,
                    geometry_guard: old(self).geometry_guard,
                    parked_movie: old(self).parked_movie,
                    message: old(self).message,
                    ..*final(self)
                }) == *old(self)
            },
    {
        let none = StopPlan { kill_pids: Vec::new(), then_finish: false };
        if self.phase == SessionPhase::Starting && self.config.media_mode == MediaMode::Movie {
            self.play_gen = next_generation(self.play_gen);
            self.phase = SessionPhase::Idle;
            self.message = s("已取消开启");
            return none;
        }
        if self.phase != SessionPhase::Playing {
            return none;
        }
        if self.config.media_mode == MediaMode::Image {
            self.phase = SessionPhase::Idle;
            match self.preview_backup.take() {
                Some(full) => {
                    self.preview_files = full;
                    match self.config.media_mode {
                        MediaMode::Movie => self.movie_preview = clone_strings(&self.preview_files),
                        MediaMode::Image => self.image_preview = clone_strings(&self.preview_files),
                    }
                },
                None => {},
            }
            self.message = if self.preview_files.len() == 0 {
                self.idle_message()
            } else {
                msg_n("已停止 · 预览仍保留 ", self.preview_files.len(), " 张")
            };
            return none;
        }
        let pids = pids_of_items(&self.items);
        self.phase = SessionPhase::Stopping;
        self.message = s("正在关闭本轮…");
        self.geometry_guard = false;
        self.tile_targets = Vec::new();
        self.items = Vec::new();
        self.parked_movie = None;
        StopPlan { kill_pids: pids, then_finish: true }
    }

    /// The players of a stopped movie round are gone: the session is idle
    /// again (unless a new round already plays).
    pub fn stop_finished(&mut self)
        requires
            old(self).wf(),
        ensures
            final(self).wf(),
            old(self).items@.len() > 0 ==> *final(self) == *old(self),
            old(self).items@.len() == 0 ==> {
                &&& eq_but_message(*final(self), (SessionState { phase: SessionPhase::Idle, ..*old(self) }))
                &&& final(self).message@ == (if final(self).preview().len() == 0 {
                    final(self).idle_msg()
                } else {
                    "已停止 · 预览仍保留 "@ + decimal(final(self).preview().len())
                        + " 部，可再「开启播放」或「再来一批」"@
                })
            },
    {
        if self.items.len() > 0 {
            return;
        }
        self.phase = SessionPhase::Idle;
        self.message = if self.preview_files.len() == 0 {
            self.idle_message()
        } else {
            msg_n("已停止 · 预览仍保留 ", self.preview_files.len(), " 部，可再「开启播放」或「再来一批」")
        };
    }

    /// The players to lay out again: those of the playing movie round, else
    /// the parked ones (ids of 0 left out); `None` when there are none.
    pub fn retile_pids(&self) -> (r: Option<Vec<u32>>)
        ensures
            self.phase == SessionPhase::Playing && self.mode() == MediaMode::Movie && self.items@.len() > 0
                ==> (r matches Some(v) && v@ == live_pids(self.items@)),
            !(self.phase == SessionPhase::Playing && self.mode() == MediaMode::Movie && self.items@.len() > 0)
                ==> match self.parked_movie {
                    Some(p) => r matches Some(v) && v@ == live_pids(p@),
                    None => r is None,
                },
    {
        if self.phase == SessionPhase::Playing && self.config.media_mode == MediaMode::Movie && self.items.len() > 0 {
            return Some(crate::session_mode::live_pids_of(&self.items));
        }
        match &self.parked_movie {
            Some(p) => Some(crate::session_mode::live_pids_of(p)),
            None => None,
        }
    }

    /// Lays `pids` out on the grid of `area` and turns the geometry guard
    /// on; returns the cells, in the order of `pids`.
    pub fn apply_retile(&mut self, pids: &Vec<u32>, area: Rect) -> (cells: Vec<Rect>)
        requires
            old(self).wf(),
            area.measurable(),
        ensures
            final(self).wf(),
            pids@.len() == 0 || !usable_area(area) ==> cells@.len() == 0,
            pids@.len() > 0 && usable_area(area) ==> cells@.len() == pids@.len() && forall|i: int|
                0 <= i < pids@.len() ==> is_grid_cell(pids@.len(), area, i, #[trigger] cells@[i]),
            final(self).tile_targets@ == targets_of(pids@, cells@),
            final(self).geometry_guard,
            (SessionState {
                tile_targets: old(self).tile_targets,
                geometry_guard: old(self).geometry_guard,
                ..*final(self)
            }) == *old(self),
    {
        let cells = grid_layout(pids.len(), area);
        self.tile_targets = build_targets(pids, &cells);
        self.geometry_guard = true;
        cells
    }

    /// Ends the parked movie players (image mode); returns their ids.
    pub fn stop_background_movie(&mut self) -> (pids: Vec<u32>)
        requires
            old(self).wf(),
        ensures
            final(self).wf(),
            old(self).parked_movie is None ==> *final(self) == *old(self) && pids@.len() == 0,
            old(self).parked_movie matches Some(p) ==> {
                &&& pids@ == item_pids(p@)
                &&& final(self).parked_movie is None
                &&& eq_but_message(*final(self), (SessionState { parked_movie: None, ..*old(self) }))
                &&& (old(self).mode() == MediaMode::Image ==> final(self).message@ == final(self).idle_msg())
                &&& (old(self).mode() != MediaMode::Image ==> final(self).message == old(self).message)
            },
    {
        match self.parked_movie.take() {
            None => Vec::new(),
            Some(p) => {
                let pids = pids_of_items(&p);
                if self.config.media_mode == MediaMode::Image {
                    self.message = self.idle_message();
                }
                pids
            },
        }
    }

    /// "Another batch": rolls a new slate, stopping a playing round first.
    pub fn reroll(&mut self) -> (plan: RerollPlan)
        requires
            old(self).wf(),
        ensures
            final(self).wf(),
            old(self).phase == SessionPhase::Starting || old(self).phase == SessionPhase::Stopping
                ==> plan is Nothing && *final(self) == *old(self),
            old(self).phase == SessionPhase::Idle ==> plan is RollNow && *final(self) == *old(self),
            old(self).phase == SessionPhase::Playing ==> {
                &&& plan matches RerollPlan::KillThenRoll(pids) && pids@ == item_pids(old(self).items@)
                &&& final(self).phase == SessionPhase::Stopping
                &&& final(self).items@.len() == 0
                &&& final(self).message@ == "再来一批…"@
                &&& eq_but_message(
                    *final(self),
                    (SessionState { phase: SessionPhase::Stopping, items: final(self).items, ..*old(self) }),
                )
            },
    {
        if self.phase == SessionPhase::Starting || self.phase == SessionPhase::Stopping {
            return RerollPlan::Nothing;
        }
        if self.phase == SessionPhase::Idle {
            return RerollPlan::RollNow;
        }
        let pids = pids_of_items(&self.items);
        self.phase = SessionPhase::Stopping;
        self.message = s("再来一批…");
        self.items = Vec::new();
        RerollPlan::KillThenRoll(pids)
    }

    /// The players of "another batch" are gone: back to idle (unless a new
    /// round already plays), ready to roll.
    pub fn reroll_finished(&mut self)
        requires
            old(self).wf(),
        ensures
            final(self).wf(),
            old(self).items@.len() > 0 ==> *final(self) == *old(self),
            old(self).items@.len() == 0 ==> *final(self) == (SessionState { phase: SessionPhase::Idle, ..*old(self) }),
    {
        if self.items.len() == 0 {
            self.phase = SessionPhase::Idle;
        }
    }

    /// The players to end when the app quits: none unless the setting asks,
    /// else the live round's and the parked ones.
    pub fn shutdown_pids(&self) -> (pids: Vec<u32>)
        ensures
            !self.config.close_session_on_exit ==> pids@.len() == 0,
            self.config.close_session_on_exit ==> pids@ == item_pids(self.items@) + item_pids(self.parked()),
    {
        if !self.config.close_session_on_exit {
            return Vec::new();
        }
        let mut pids = pids_of_items(&self.items);
        match &self.parked_movie {
            Some(p) => {
                let more = pids_of_items(p);
                let ghost a = pids@;
                let mut i: usize = 0;
                while i < more.len()
                    invariant
                        0 <= i <= more@.len(),
                        pids@ == a + more@.take(i as int),
                    decreases more@.len() - i,
                {
                    pids.push(more[i]);
                    assert(pids@ =~= a + more@.take(i + 1));
                    i = i + 1;
                }
                assert(more@.take(more@.len() as int) =~= more@);
            },
            None => {
                assert(item_pids(self.parked()) =~= Seq::<u32>::empty());
                assert(pids@ =~= pids@ + Seq::<u32>::empty());
            },
        }
        pids
    }

    /// The process of playing item `index`, to bring to the front.
    pub fn focus_item(&self, index: usize) -> (r: Option<u32>)
        ensures
            index < self.items@.len() ==> r == Some(self.items@[index as int].pid),
            index >= self.items@.len() ==> r is None,
    {
        if index < self.items.len() {
            Some(self.items[index].pid)
        } else {
            None
        }
    }

    /// Keeps only playing item `index` (full screen, grid released) and
    /// returns it with the players to kill.
    pub fn solo_item(&mut self, index: usize) -> (r: Option<SoloPlan>)
        requires
            old(self).wf(),
        ensures
            final(self).wf(),
            index >= old(self).items@.len() ==> r is None && *final(self) == *old(self),
            index < old(self).items@.len() ==> {
                let keep = old(self).items@[index as int];
                &&& r matches Some(plan) && plan.keep == keep.pid
                    && plan.kill@ == item_pids(old(self).items@.remove(index as int))
                &&& final(self).items@ == seq![keep]
                &&& final(self).phase == SessionPhase::Playing
                &&& !final(self).geometry_guard
                &&& final(self).tile_targets@.len() == 0
                &&& final(self).message@ == "独播 · "@ + match file_stem(keep.path@) {
                    Some(st) => st,
                    None => keep.path@,
                }
                &&& (SessionState {
                    items: old(self).items,
                    phase: old(self).phase,
                    geometry_guard: old(self).geometry_guard,
                    tile_targets: old(self).tile_targets,
                    message: old(self).message,
                    ..*final(self)
                }) == *old(self)
            },
    {
        if index >= self.items.len() {
            return None;
        }
        let keep = self.items[index].copy();
        let mut rest: Vec<LaunchedItem> = Vec::new();
        let mut i: usize = 0;
        let ghost all = self.items@;
        while i < self.items.len()
            invariant
                0 <= i <= all.len(),
                all == self.items@,
                index < all.len(),
                rest@ == (if i <= index { all.take(i as int) } else { all.take(i as int).remove(index as int) }),
            decreases all.len() - i,
        {
            if i != index {
                rest.push(self.items[i].copy());
            }
            proof {
                if i < index {
                    assert(rest@ =~= all.take(i + 1));
                } else if i == index {
                    assert(all.take(i + 1).remove(index as int) =~= all.take(i as int));
                } else {
                    assert(all.take(i + 1).remove(index as int) =~= all.take(i as int).remove(index as int).push(all[i as int]));
                }
            }
            i = i + 1;
        }
        assert(all.take(all.len() as int) =~= all);
        let kill = pids_of_items(&rest);
        let stem = match crate::pathname::file_stem_of(keep.path.as_str()) {
            Some(st) => st,
            None => keep.path.clone(),
        };
        let mut msg = s("独播 · ");
        msg.append(stem.as_str());
        let kp = keep.pid;
        self.items = vec![keep];
        self.phase = SessionPhase::Playing;
        self.geometry_guard = false;
        self.tile_targets = Vec::new();
        self.message = msg;
        Some(SoloPlan { keep: kp, kill })
    }

    /// Closes playing item `index`; returns its process and whether others
    /// remain (to lay out again). The round ends with the last one.
    pub fn close_item(&mut self, index: usize) -> (r: Option<(u32, bool)>)
        requires
            old(self).wf(),
        ensures
            final(self).wf(),
            index >= old(self).items@.len() ==> r is None && *final(self) == *old(self),
            index < old(self).items@.len() ==> {
                let gone = old(self).items@[index as int];
                let rest = old(self).items@.remove(index as int);
                &&& final(self).items@ == rest
                &&& r matches Some(v) && v.0 == gone.pid && v.1 == (rest.len() > 0)
                &&& (rest.len() == 0 ==> {
                    &&& final(self).phase == SessionPhase::Idle
                    &&& !final(self).geometry_guard
                    &&& final(self).tile_targets@.len() == 0
                    &&& final(self).message@ == "就绪 · 已索引 "@ + decimal(old(self).lib_files_len()) + " 部"@
                })
                &&& (rest.len() > 0 ==> {
                    &&& final(self).phase == old(self).phase
                    &&& final(self).geometry_guard == old(self).geometry_guard
                    &&& final(self).tile_targets@ == without_pid(old(self).tile_targets@, gone.pid)
                    &&& final(self).message@ == "播放中 · "@ + decimal(rest.len()) + " 部"@
                })
                &&& (SessionState {
                    items: old(self).items,
                    phase: old(self).phase,
                    geometry_guard: old(self).geometry_guard,
                    tile_targets: old(self).tile_targets,
                    message: old(self).message,
                    ..*final(self)
                }) == *old(self)
            },
    {
        if index >= self.items.len() {
            return None;
        }
        let ghost before = self.items@;
        let item = self.items.remove(index);
        assert(self.items@ =~= before.remove(index as int));
        self.tile_targets = drop_pid(&self.tile_targets, item.pid);
        if self.items.len() == 0 {
            self.phase = SessionPhase::Idle;
            self.geometry_guard = false;
            self.tile_targets = Vec::new();
            self.message = msg_n("就绪 · 已索引 ", self.library().files.len(), " 部");
            Some((item.pid, false))
        } else {
            self.message = msg_n("播放中 · ", self.items.len(), " 部");
            Some((item.pid, true))
        }
    }

    pub open spec fn lib_files_len(&self) -> nat {
        self.library_of(self.mode()).files@.len()
    }
}

} // verus!
