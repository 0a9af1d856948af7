//! Indexing decisions of the session: when a background scan starts, which
//! results it may install, cancelling it, and the edits of the library roots
//! that invalidate an index. The desktop shell walks the disks and reports.

use vstd::prelude::*;
use crate::config::{
    MediaMode, ConfigModel, clean_roots, stored_roots, decimal, normalized, after_add_root, after_remove_root,
    lemma_normalize_keeps_sane_counts, counts_sane,
};
use crate::text::{trimmed, trim};
use crate::library::Library;
use crate::session::{
    eq_but_message, SessionState, SessionPhase, RescanOutcome, next_gen, s, msg_n, clone_strings,
};

verus! {

broadcast use vstd::std_specs::vec::group_vec_axioms;

/// A background scan to run: its mode and generation, whether it re-walks
/// every root, and the roots and extensions to walk with.
pub struct ScanTicket {
    pub mode: MediaMode,
    pub epoch: u64,
    pub force: bool,
    pub roots: Vec<String>,
    pub extensions: Vec<String>,
}

/// `s` with `lib` installed as the index of `mode` (indexed, not busy).
pub open spec fn library_set(st: SessionState, mode: MediaMode, lib: Library) -> SessionState {
    match mode {
        MediaMode::Movie => SessionState {
            movie_library: lib,
            movie_indexed: true,
            movie_scan_busy: false,
            ..st
        },
        MediaMode::Image => SessionState {
            image_library: lib,
            image_indexed: true,
            image_scan_busy: false,
            ..st
        },
    }
}

/// `s` with the index of `mode` dropped (empty and not indexed).
pub open spec fn library_dropped(st: SessionState, mode: MediaMode, empty: Library) -> SessionState {
    match mode {
        MediaMode::Movie => SessionState { movie_library: empty, movie_indexed: false, ..st },
        MediaMode::Image => SessionState { image_library: empty, image_indexed: false, ..st },
    }
}

/// `s` with a scan of `mode` under way: a new generation, busy, no files found yet.
pub open spec fn scan_begun(st: SessionState, mode: MediaMode) -> SessionState {
    match mode {
        MediaMode::Movie => SessionState {
            movie_scan_epoch: next_gen(st.movie_scan_epoch),
            movie_scan_busy: true,
            scan_found: 0,
            ..st
        },
        MediaMode::Image => SessionState {
            image_scan_epoch: next_gen(st.image_scan_epoch),
            image_scan_busy: true,
            scan_found: 0,
            ..st
        },
    }
}

/// `s` with the scan of `mode` superseded: a new generation, not busy.
pub open spec fn scan_dropped(st: SessionState, mode: MediaMode) -> SessionState {
    match mode {
        MediaMode::Movie => SessionState {
            movie_scan_epoch: next_gen(st.movie_scan_epoch),
            movie_scan_busy: false,
            ..st
        },
        MediaMode::Image => SessionState {
            image_scan_epoch: next_gen(st.image_scan_epoch),
            image_scan_busy: false,
            ..st
        },
    }
}

/// The message a cancelled scan leaves: the index still in use, if any.
pub open spec fn cancelled_msg(st: SessionState, mode: MediaMode) -> Seq<char> {
    if st.indexed(mode) {
        "索引已取消 · 仍用上次 "@ + decimal(st.library_of(mode).files@.len()) + " 个"@
    } else {
        "索引已取消"@
    }
}

/// The message a finished scan leaves.
pub open spec fn finished_msg(n: nat, force: bool, walked: nat, from_cache: nat) -> Seq<char> {
    if force {
        "全量扫描完成 · "@ + decimal(n) + " 个"@
    } else if walked == 0 {
        "片库无变化 · 缓存 "@ + decimal(n) + " 个"@
    } else {
        "索引已更新 · "@ + decimal(n) + " 个（重扫 "@ + decimal(walked) + " 目录 · 缓存 "@
            + decimal(from_cache) + "）"@
    }
}

fn next_epoch(g: u64) -> (r: u64)
    ensures
        r == next_gen(g),
{
    g.wrapping_add(1)
}

impl SessionState {
    fn set_library(&mut self, mode: MediaMode, lib: Library)
        ensures
            *final(self) == library_set(*old(self), mode, lib),
    {
        match mode {
            MediaMode::Movie => {
                self.movie_library = lib;
                self.movie_indexed = true;
                self.movie_scan_busy = false;
            },
            MediaMode::Image => {
                self.image_library = lib;
                self.image_indexed = true;
                self.image_scan_busy = false;
            },
        }
    }

    fn invalidate_mode(&mut self, mode: MediaMode)
        ensures
            final(self).library_of(mode).files@.len() == 0,
            *final(self) == library_dropped(*old(self), mode, final(self).library_of(mode)),
    {
        match mode {
            MediaMode::Movie => {
                self.movie_library = Library::empty();
                self.movie_indexed = false;
            },
            MediaMode::Image => {
                self.image_library = Library::empty();
                self.image_indexed = false;
            },
        }
    }

    /// Starts a background scan of `mode` (`force` re-walks every root).
    /// Without roots the mode's index becomes empty at once and no scan runs;
    /// otherwise the mode gets a new scan generation and counts as busy, and
    /// the ticket says what the shell must walk.
    pub fn begin_scan_ex(&mut self, mode: MediaMode, force: bool) -> (r: Option<ScanTicket>)
        requires
            old(self).wf(),
        ensures
            final(self).wf(),
            clean_roots(stored_roots(old(self).config@, mode)).len() == 0 ==> {
                &&& r is None
                &&& exists|e: Library| e.files@.len() == 0
                    && eq_but_message(*final(self), library_set(*old(self), mode, e))
                &&& (mode == old(self).mode() && old(self).phase == SessionPhase::Idle ==>
                    final(self).message@ == final(self).idle_msg())
                &&& (!(mode == old(self).mode() && old(self).phase == SessionPhase::Idle) ==>
                    final(self).message == old(self).message)
            },
            clean_roots(stored_roots(old(self).config@, mode)).len() > 0 ==> {
                &&& r matches Some(t) && t.mode == mode && t.force == force
                    && t.epoch == final(self).scan_epoch_of(mode)
                    && t.roots.deep_view() == clean_roots(stored_roots(old(self).config@, mode))
                    && t.extensions.deep_view() == (match mode {
                        MediaMode::Movie => old(self).config@.video_extensions,
                        MediaMode::Image => old(self).config@.image_extensions,
                    })
                &&& eq_but_message(*final(self), scan_begun(*old(self), mode))
                &&& (mode == old(self).mode() ==> final(self).message@ == (if force {
                    "全量扫描中… 扫完前仍可用当前名单"@
                } else {
                    "索引中… 未变目录走缓存"@
                }))
                &&& (mode != old(self).mode() ==> final(self).message == old(self).message)
            },
    {
        let roots = self.config.roots_for(mode);
        if roots.len() == 0 {
            let lib = Library::empty();
            let ghost e = lib;
            self.set_library(mode, lib);
            if self.config.media_mode == mode && self.phase == SessionPhase::Idle {
                self.message = self.idle_message();
            }
            assert(eq_but_message(*self, library_set(*old(self), mode, e)));
            return None;
        }
        match mode {
            MediaMode::Movie => {
                self.movie_scan_epoch = next_epoch(self.movie_scan_epoch);
                self.movie_scan_busy = true;
            },
            MediaMode::Image => {
                self.image_scan_epoch = next_epoch(self.image_scan_epoch);
                self.image_scan_busy = true;
            },
        }
        self.scan_found = 0;
        if self.config.media_mode == mode {
            self.message = if force {
                s("全量扫描中… 扫完前仍可用当前名单")
            } else {
                s("索引中… 未变目录走缓存")
            };
        }
        let epoch = match mode {
            MediaMode::Movie => self.movie_scan_epoch,
            MediaMode::Image => self.image_scan_epoch,
        };
        let extensions = clone_strings(self.config.extensions_for(mode));
        Some(ScanTicket { mode, epoch, force, roots, extensions })
    }

    /// Starts an ordinary (cache-using) scan of `mode`.
    pub fn begin_scan(&mut self, mode: MediaMode) -> (r: Option<ScanTicket>)
        requires
            old(self).wf(),
        ensures
            final(self).wf(),
            clean_roots(stored_roots(old(self).config@, mode)).len() == 0 <==> r is None,
            r matches Some(t) ==> t.mode == mode && !t.force && t.epoch == final(self).scan_epoch_of(mode)
                && eq_but_message(*final(self), scan_begun(*old(self), mode)),
            r is None ==> exists|e: Library| e.files@.len() == 0
                && eq_but_message(*final(self), library_set(*old(self), mode, e)),
    {
        self.begin_scan_ex(mode, false)
    }

    /// Progress of the running scan of `mode`: `found` files so far. The
    /// message follows the first find and every fortieth while that scan
    /// runs for the active mode.
    pub fn scan_progress(&mut self, mode: MediaMode, found: usize)
        requires
            old(self).wf(),
        ensures
            final(self).wf(),
            final(self).scan_found == found,
            eq_but_message(*final(self), (SessionState { scan_found: found, ..*old(self) })),
            (found == 1 || found % 40 == 0) && mode == old(self).mode() && old(self).scan_busy(mode)
                ==> final(self).message@ == "索引中… 已发现 "@ + decimal(found as nat) + " 个"@,
            !((found == 1 || found % 40 == 0) && mode == old(self).mode() && old(self).scan_busy(mode))
                ==> final(self).message == old(self).message,
    {
        self.scan_found = found;
        if (found == 1 || found % 40 == 0) && self.config.media_mode == mode && self.is_scan_busy(mode) {
            self.message = msg_n("索引中… 已发现 ", found, " 个");
        }
    }

    /// A root of the running scan of `mode` came from the disk cache with
    /// `hit` files, `total` found so far.
    pub fn scan_cache_hit(&mut self, mode: MediaMode, hit: usize, total: usize)
        requires
            old(self).wf(),
        ensures
            final(self).wf(),
            final(self).scan_found == total,
            eq_but_message(*final(self), (SessionState { scan_found: total, ..*old(self) })),
            mode == old(self).mode() && old(self).scan_busy(mode) ==> final(self).message@
                == "索引中… 缓存命中 "@ + decimal(hit as nat) + " 个（合计 "@ + decimal(total as nat)
                + "）"@,
            !(mode == old(self).mode() && old(self).scan_busy(mode)) ==> final(self).message
                == old(self).message,
    {
        self.scan_found = total;
        if self.config.media_mode == mode && self.is_scan_busy(mode) {
            let mut m = msg_n("索引中… 缓存命中 ", hit, " 个（合计 ");
            m.append(crate::config::decimal_string(total).as_str());
            m.append("）");
            self.message = m;
        }
    }

    /// The scan of `mode` with generation `epoch` ended. A result of a
    /// superseded generation is dropped; a cancelled scan keeps the previous
    /// index; otherwise the files found (deduplicated and sorted) become the
    /// index. Returns whether a new index was installed.
    pub fn finish_scan(
        &mut self,
        mode: MediaMode,
        epoch: u64,
        cancelled: bool,
        files: Vec<String>,
        walked: usize,
        from_cache: usize,
        force: bool,
    ) -> (installed: bool)
        requires
            old(self).wf(),
        ensures
            final(self).wf(),
            installed == (old(self).scan_epoch_of(mode) == epoch && !cancelled),
            old(self).scan_epoch_of(mode) != epoch ==> *final(self) == *old(self),
            old(self).scan_epoch_of(mode) == epoch && cancelled ==> {
                &&& eq_but_message(*final(self), (match mode {
                    MediaMode::Movie => (SessionState { movie_scan_busy: false, ..*old(self) }),
                    MediaMode::Image => (SessionState { image_scan_busy: false, ..*old(self) }),
                }))
                &&& (mode == old(self).mode() ==> final(self).message@ == cancelled_msg(*old(self), mode))
                &&& (mode != old(self).mode() ==> final(self).message == old(self).message)
            },
            installed ==> {
                &&& eq_but_message(
                    *final(self),
                    library_set(*old(self), mode, final(self).library_of(mode)),
                )
                &&& crate::library::sorted_distinct(final(self).library_of(mode).files.deep_view())
                &&& final(self).library_of(mode).files.deep_view().to_set() == files.deep_view().to_set()
                &&& (mode == old(self).mode() && old(self).phase == SessionPhase::Idle ==>
                    final(self).message@ == finished_msg(
                        final(self).library_of(mode).files@.len(),
                        force,
                        walked as nat,
                        from_cache as nat,
                    ))
                &&& (!(mode == old(self).mode() && old(self).phase == SessionPhase::Idle) ==>
                    final(self).message == old(self).message)
            },
    {
        let current = match mode {
            MediaMode::Movie => self.movie_scan_epoch,
            MediaMode::Image => self.image_scan_epoch,
        };
        if current != epoch {
            return false;
        }
        if cancelled {
            match mode {
                MediaMode::Movie => self.movie_scan_busy = false,
                MediaMode::Image => self.image_scan_busy = false,
            }
            if self.config.media_mode == mode {
                self.message = if self.is_indexed(mode) {
                    msg_n("索引已取消 · 仍用上次 ", self.library().files.len(), " 个")
                } else {
                    s("索引已取消")
                };
            }
            return false;
        }
        let sorted = crate::library::sorted_unique(files);
        let n = sorted.len();
        let lib = Library { root: String::new(), files: sorted };
        self.set_library(mode, lib);
        if self.config.media_mode == mode && self.phase == SessionPhase::Idle {
            self.message = if force {
                msg_n("全量扫描完成 · ", n, " 个")
            } else if walked == 0 {
                msg_n("片库无变化 · 缓存 ", n, " 个")
            } else {
                let mut m = msg_n("索引已更新 · ", n, " 个（重扫 ");
                m.append(crate::config::decimal_string(walked).as_str());
                m.append(" 目录 · 缓存 ");
                m.append(crate::config::decimal_string(from_cache).as_str());
                m.append("）");
                m
            };
        }
        true
    }

    /// Cancels the active mode's running scan: its generation is superseded
    /// and the previous index stays in use. Returns whether a scan was running.
    pub fn cancel_scan(&mut self) -> (cancelled: bool)
        requires
            old(self).wf(),
        ensures
            final(self).wf(),
            cancelled == old(self).scan_busy(old(self).mode()),
            !cancelled ==> *final(self) == *old(self),
            cancelled ==> {
                &&& eq_but_message(*final(self), scan_dropped(*old(self), old(self).mode()))
                &&& final(self).message@ == cancelled_msg(*old(self), old(self).mode())
            },
    {
        let mode = self.config.media_mode;
        if !self.is_scan_busy(mode) {
            return false;
        }
        match mode {
            MediaMode::Movie => {
                self.movie_scan_epoch = next_epoch(self.movie_scan_epoch);
                self.movie_scan_busy = false;
            },
            MediaMode::Image => {
                self.image_scan_epoch = next_epoch(self.image_scan_epoch);
                self.image_scan_busy = false;
            },
        }
        self.message = if self.is_indexed(mode) {
            msg_n("索引已取消 · 仍用上次 ", self.library().files.len(), " 个")
        } else {
            s("索引已取消")
        };
        true
    }
}

} // verus!

verus! {

impl SessionState {
    /// The toolbar "rescan" of the active mode, given whether any root's tree
    /// changed since it was cached (`any_stale`, looked up by the shell).
    /// A running scan or a mode without roots answers at once. Without
    /// `force` an unchanged disk keeps the index; otherwise a scan starts
    /// (re-walking every root with `force`). The previous index stays in use
    /// until the scan finishes.
    pub fn rescan_ex(&mut self, force: bool, any_stale: bool) -> (r: (RescanOutcome, Option<ScanTicket>))
        requires
            old(self).wf(),
        ensures
            final(self).wf(),
            ({
                let mode = old(self).mode();
                let roots = clean_roots(stored_roots(old(self).config@, mode));
                let count = old(self).library_of(mode).files@.len();
                &&& (old(self).scan_busy(mode) ==> r.0 == RescanOutcome::Busy && r.1 is None
                    && *final(self) == *old(self))
                &&& (!old(self).scan_busy(mode) && roots.len() == 0 ==> r.0 == RescanOutcome::NoRoots
                    && r.1 is None && *final(self) == *old(self))
                &&& (!old(self).scan_busy(mode) && roots.len() > 0 && !force && !any_stale ==> {
                    &&& r.0 == (RescanOutcome::AlreadyFresh { count: count as usize })
                    &&& r.1 is None
                    &&& eq_but_message(*final(self), *old(self))
                    &&& (old(self).phase == SessionPhase::Idle ==> final(self).message@
                        == "片库无变化 · 继续用缓存 "@ + decimal(count) + " 个"@)
                    &&& (old(self).phase != SessionPhase::Idle ==> final(self).message
                        == old(self).message)
                })
                &&& (!old(self).scan_busy(mode) && roots.len() > 0 && (force || any_stale) ==> {
                    &&& r.0 == (RescanOutcome::Started { force })
                    &&& r.1 matches Some(t) && t.mode == mode && t.force == force
                        && t.epoch == final(self).scan_epoch_of(mode)
                        && t.roots.deep_view() == roots
                    &&& eq_but_message(*final(self), scan_begun(*old(self), mode))
                    &&& final(self).message@ == (if force {
                        "全量扫描中… 扫完前仍可用当前名单"@
                    } else {
                        "索引中… 未变目录走缓存"@
                    })
                })
            }),
    {
        let mode = self.config.media_mode;
        if self.is_scan_busy(mode) {
            return (RescanOutcome::Busy, None);
        }
        let roots = self.config.roots_for(mode);
        if roots.len() == 0 {
            return (RescanOutcome::NoRoots, None);
        }
        let count = self.library().files.len();
        if !force {
            if !any_stale {
                if self.phase == SessionPhase::Idle {
                    self.message = msg_n("片库无变化 · 继续用缓存 ", count, " 个");
                }
                return (RescanOutcome::AlreadyFresh { count }, None);
            }
            self.message = s("检查片库… 有变化的目录才重扫");
            let t = self.begin_scan_ex(mode, false);
            (RescanOutcome::Started { force: false }, t)
        } else {
            self.message = s("全量扫描中… 扫完前仍可用当前名单");
            let t = self.begin_scan_ex(mode, true);
            (RescanOutcome::Started { force: true }, t)
        }
    }

    /// The smart rescan: only changed roots are walked again.
    pub fn rescan(&mut self, any_stale: bool) -> (r: (RescanOutcome, Option<ScanTicket>))
        requires
            old(self).wf(),
        ensures
            final(self).wf(),
            !old(self).scan_busy(old(self).mode()) && clean_roots(stored_roots(old(self).config@, old(self).mode())).len() > 0
                ==> (r.0 == RescanOutcome::Started { force: false } <==> any_stale),
            r.1 is Some <==> r.0 == (RescanOutcome::Started { force: false }),
    {
        self.rescan_ex(false, any_stale)
    }

    /// Re-walks every root of the active mode.
    pub fn rescan_force(&mut self) -> (r: (RescanOutcome, Option<ScanTicket>))
        requires
            old(self).wf(),
        ensures
            final(self).wf(),
            old(self).scan_busy(old(self).mode()) ==> r.0 == RescanOutcome::Busy,
            !old(self).scan_busy(old(self).mode()) && clean_roots(stored_roots(old(self).config@, old(self).mode())).len() > 0
                ==> r.0 == (RescanOutcome::Started { force: true }) && r.1 is Some,
            !old(self).scan_busy(old(self).mode()) && clean_roots(stored_roots(old(self).config@, old(self).mode())).len() == 0
                ==> r.0 == RescanOutcome::NoRoots,
    {
        self.rescan_ex(true, false)
    }

    /// Starts a smart rescan when some root changed on disk; returns whether
    /// one started.
    pub fn refresh_if_stale(&mut self, any_stale: bool) -> (r: (bool, Option<ScanTicket>))
        requires
            old(self).wf(),
        ensures
            final(self).wf(),
            r.0 == (any_stale && !old(self).scan_busy(old(self).mode())
                && clean_roots(stored_roots(old(self).config@, old(self).mode())).len() > 0),
            r.0 <==> r.1 is Some,
            r.0 ==> eq_but_message(*final(self), scan_begun(*old(self), old(self).mode())),
            !r.0 ==> eq_but_message(*final(self), *old(self)),
            !r.0 && old(self).phase != SessionPhase::Idle ==> *final(self) == *old(self),
    {
        let (outcome, t) = self.rescan_ex(false, any_stale);
        let started = match outcome {
            RescanOutcome::Started { force } => !force,
            _ => false,
        };
        (started, t)
    }

    /// Replaces all movie roots by `path` (none when it is blank), drops the
    /// movie index and starts indexing again.
    pub fn update_library_path(&mut self, path: String) -> (t: Option<ScanTicket>)
        requires
            old(self).wf(),
            old(self).mode() == MediaMode::Movie,
        ensures
            final(self).wf(),
            final(self).config@ == normalized(
                (ConfigModel {
                    library_paths: if trimmed(path@).len() == 0 {
                        Seq::empty()
                    } else {
                        seq![path@]
                    },
                    ..old(self).config@
                }),
            ),
            final(self).lists_kept(&*old(self)),
            final(self).phase == old(self).phase,
            final(self).preview_files == old(self).preview_files,
            clean_roots(stored_roots(final(self).config@, MediaMode::Movie)).len() > 0 <==> t is Some,
            t matches Some(tk) ==> tk.mode == MediaMode::Movie && !tk.force && final(self).scan_busy(MediaMode::Movie)
                && !final(self).indexed(MediaMode::Movie) && final(self).library_of(MediaMode::Movie).files@.len() == 0,
            t is None ==> final(self).indexed(MediaMode::Movie) && final(self).library_of(MediaMode::Movie).files@.len() == 0,
    {
        let blank = trim(path.as_str()).unicode_len() == 0;
        self.config.library_paths = if blank {
            Vec::new()
        } else {
            vec![path]
        };
        proof {
            if !blank {
                assert(self.config.library_paths.deep_view() =~= seq![path@]);
            } else {
                assert(self.config.library_paths.deep_view() =~= Seq::<Seq<char>>::empty());
            }
        }
        let ghost before = self.config@;
        let c = self.config.clone_config();
        self.config = c.normalize();
        proof {
            lemma_normalize_keeps_sane_counts(before);
        }
        let mode = self.config.media_mode;
        self.invalidate_mode(mode);
        self.message = s("索引中…");
        self.begin_scan(mode)
    }

    /// Adds a root to the active mode, drops that mode's index and re-walks
    /// every root.
    pub fn add_library_path(&mut self, path: String) -> (t: Option<ScanTicket>)
        requires
            old(self).wf(),
        ensures
            final(self).wf(),
            final(self).config@ == after_add_root(old(self).config@, old(self).mode(), path@),
            final(self).lists_kept(&*old(self)),
            final(self).phase == old(self).phase,
            final(self).preview_files == old(self).preview_files,
            clean_roots(stored_roots(final(self).config@, old(self).mode())).len() > 0 <==> t is Some,
            t matches Some(tk) ==> tk.mode == old(self).mode() && tk.force && final(self).scan_busy(old(self).mode())
                && !final(self).indexed(old(self).mode())
                && final(self).library_of(old(self).mode()).files@.len() == 0,
            t is None ==> final(self).indexed(old(self).mode())
                && final(self).library_of(old(self).mode()).files@.len() == 0,
    {
        let mode = self.config.media_mode;
        let ghost before = self.config@;
        self.config.add_path_for(mode, path);
        proof {
            lemma_normalize_keeps_sane_counts(before);
            lemma_add_root_sane(before, mode, path@);
        }
        self.invalidate_mode(mode);
        self.message = s("索引中…");
        self.begin_scan_ex(mode, true)
    }

    /// Removes root `index` of the active mode and returns it; then the
    /// mode's index is dropped and every remaining root re-walked. Nothing
    /// happens for an index past the end.
    pub fn remove_library_path(&mut self, index: usize) -> (r: (Option<String>, Option<ScanTicket>))
        requires
            old(self).wf(),
        ensures
            final(self).wf(),
            final(self).config@ == after_remove_root(old(self).config@, old(self).mode(), index as nat),
            index >= stored_roots(old(self).config@, old(self).mode()).len() ==> r.0 is None && r.1 is None
                && *final(self) == (SessionState { config: final(self).config, ..*old(self) }),
            index < stored_roots(old(self).config@, old(self).mode()).len() ==> {
                &&& r.0 matches Some(p) && p@ == stored_roots(old(self).config@, old(self).mode())[index as int]
                &&& final(self).lists_kept(&*old(self))
                &&& final(self).phase == old(self).phase
                &&& final(self).preview_files == old(self).preview_files
                &&& (clean_roots(stored_roots(final(self).config@, old(self).mode())).len() > 0 <==> r.1 is Some)
                &&& (r.1 matches Some(tk) ==> tk.mode == old(self).mode() && tk.force
                    && !final(self).indexed(old(self).mode())
                    && final(self).library_of(old(self).mode()).files@.len() == 0)
                &&& (r.1 is None ==> final(self).indexed(old(self).mode())
                    && final(self).library_of(old(self).mode()).files@.len() == 0)
            },
    {
        let mode = self.config.media_mode;
        let ghost before = self.config@;
        let removed = self.config.remove_path_for(mode, index);
        proof {
            lemma_remove_root_sane(before, mode, index as nat);
        }
        match removed {
            None => (None, None),
            Some(p) => {
                self.invalidate_mode(mode);
                self.message = s("索引中…");
                let t = self.begin_scan_ex(mode, true);
                (Some(p), t)
            },
        }
    }
}

proof fn lemma_add_root_sane(m: ConfigModel, mode: MediaMode, path: Seq<char>)
    requires
        counts_sane(m),
    ensures
        counts_sane(after_add_root(m, mode, path)),
        after_add_root(m, mode, path).media_mode == m.media_mode,
        crate::config::bounds_of(after_add_root(m, mode, path), m.media_mode) == crate::config::bounds_of(m, m.media_mode),
{
    let t = trimmed(path);
    if !(t.len() == 0 || crate::config::has_root(stored_roots(m, mode), t)) {
        let w = crate::config::with_roots(m, mode, stored_roots(m, mode).push(t));
        lemma_normalize_keeps_sane_counts(w);
        crate::config::lemma_normalized_counts_sane(w);
    }
}

proof fn lemma_remove_root_sane(m: ConfigModel, mode: MediaMode, index: nat)
    requires
        counts_sane(m),
    ensures
        counts_sane(after_remove_root(m, mode, index)),
        after_remove_root(m, mode, index).media_mode == m.media_mode,
        crate::config::bounds_of(after_remove_root(m, mode, index), m.media_mode) == crate::config::bounds_of(m, m.media_mode),
{
    let list = stored_roots(m, mode);
    if index < list.len() {
        let rest = list.remove(index as int);
        let m1 = crate::config::with_roots(m, mode, rest);
        let m2 = if mode == MediaMode::Movie && rest.len() == 0 {
            ConfigModel { library_path: Seq::empty(), ..m1 }
        } else {
            m1
        };
        lemma_normalize_keeps_sane_counts(m2);
        crate::config::lemma_normalized_counts_sane(m2);
    }
}

} // verus!
