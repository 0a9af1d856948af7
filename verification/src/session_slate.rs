//! The preview slate: rolling it at random, editing single or several slots,
//! and moving slate entries to the blacklist.

use vstd::prelude::*;
use crate::flags::{flagged, set_count, lemma_flagged_push, lemma_flagged_facts, lemma_flagged_same_flags};
use crate::config::{MediaMode, clean_roots, stored_roots};
use crate::pathset::{has_file, without_file, lemma_has_file_concat};
use crate::text::file_key;
use crate::config::decimal;
use crate::picker::{
    pick, pick_one_excluding, pick_count, primary_pool, secondary_pool, drawn_from, eligible,
    lemma_primary_member,
};
use crate::session::{SessionState, SessionPhase, eq_but_message, s, msg_n, clone_strings};
use crate::session_scan::{ScanTicket, scan_begun};

verus! {

broadcast use vstd::std_specs::vec::group_vec_axioms;

/// The valid slots (below `len`) that `indices` names.
pub open spec fn chosen_slots(indices: Seq<usize>, len: nat) -> Set<int> {
    Set::new(|k: int| 0 <= k < len && indices.contains(k as usize))
}

/// `s` without the entries at the positions in `sel`, order kept.
pub open spec fn without_slots(s: Seq<Seq<char>>, sel: Set<int>) -> Seq<Seq<char>>
    decreases s.len(),
{
    if s.len() == 0 {
        Seq::empty()
    } else {
        let prev = without_slots(s.drop_last(), sel);
        if sel.contains(s.len() - 1) {
            prev
        } else {
            prev.push(s.last())
        }
    }
}

/// The entries of `s` at the positions in `sel`, the last position first.
pub open spec fn slots_desc(s: Seq<Seq<char>>, sel: Set<int>) -> Seq<Seq<char>>
    decreases s.len(),
{
    if s.len() == 0 {
        Seq::empty()
    } else {
        let rest = slots_desc(s.drop_last(), sel);
        if sel.contains(s.len() - 1) {
            seq![s.last()] + rest
        } else {
            rest
        }
    }
}

/// `b` after blacklisting each of `ps` in turn.
pub open spec fn listed_all(b: Seq<Seq<char>>, ps: Seq<Seq<char>>) -> Seq<Seq<char>>
    decreases ps.len(),
{
    if ps.len() == 0 {
        b
    } else {
        let prev = listed_all(b, ps.drop_last());
        without_file(prev, ps.last()).push(ps.last())
    }
}

/// `f` after unlisting each of `ps` in turn.
pub open spec fn unlisted_all(f: Seq<Seq<char>>, ps: Seq<Seq<char>>) -> Seq<Seq<char>>
    decreases ps.len(),
{
    if ps.len() == 0 {
        f
    } else {
        without_file(unlisted_all(f, ps.drop_last()), ps.last())
    }
}

/// What rolling a slate does to `a`, giving `b`; `refreshing` says whether
/// a rescan was started instead (when `any_stale`).
pub open spec fn rolled(a: SessionState, b: SessionState, any_stale: bool, started: bool) -> bool {
    let mode = a.mode();
    let refreshing = any_stale && !a.scan_busy(mode)
        && clean_roots(stored_roots(a.config@, mode)).len() > 0;
    &&& (refreshing <==> started)
    &&& (refreshing ==> {
        &&& eq_but_message(b, scan_begun(a, mode))
        &&& (a.phase == SessionPhase::Idle ==> b.message@
            == "片库正在更新，完成后请再点随机预览"@)
    })
    &&& (!refreshing && a.phase != SessionPhase::Idle ==> b == a)
    &&& (!refreshing && a.phase == SessionPhase::Idle && a.scan_busy(mode) ==> {
        &&& eq_but_message(b, a)
        &&& b.message@ == "片库索引中，请稍候…"@
    })
    &&& (!refreshing && a.phase == SessionPhase::Idle && !a.scan_busy(mode)
        && a.lib_files().len() == 0 ==> {
        &&& eq_but_message(b, a)
        &&& b.message@ == "片库为空，无法预览"@
    })
    &&& (!refreshing && a.phase == SessionPhase::Idle && !a.scan_busy(mode)
        && a.lib_files().len() > 0 ==> {
        &&& SessionState::slate_edited(a, b)
        &&& drawn_from(
            b.preview().to_multiset(),
            pick_count(a.lib_files(), a.ui_count as nat, a.banned()),
            primary_pool(
                a.lib_files(),
                a.ui_count as nat,
                a.config.avoid_recent,
                a.recent(),
                a.banned(),
            ),
            secondary_pool(
                a.lib_files(),
                a.ui_count as nat,
                a.config.avoid_recent,
                a.recent(),
                a.banned(),
            ),
        )
        &&& (b.preview().len() == 0 ==> {
            &&& b.last_errors == a.last_errors
            &&& b.message@ == (if a.lib_files().len() <= a.banned().len()
                && a.banned().len() > 0 {
                "可用片源已被拉黑筛空，请在设置中管理黑名单"@
            } else {
                "未能选出影片"@
            })
        })
        &&& (b.preview().len() > 0 ==> {
            &&& b.last_errors@.len() == 0
            &&& b.message@ == b.preview_ready_msg()
        })
    })
}

impl SessionState {
    /// The active mode's stored slate equals the slate shown.
    pub open spec fn store_synced(&self) -> bool {
        match self.mode() {
            MediaMode::Movie => self.movie_preview.deep_view() == self.preview(),
            MediaMode::Image => self.image_preview.deep_view() == self.preview(),
        }
    }

    /// `b` is `a` after an edit of the slate: only the slate, the active
    /// mode's stored slate (synced to it), the message and the errors differ.
    pub open spec fn slate_edited(a: SessionState, b: SessionState) -> bool {
        &&& (SessionState {
            preview_files: a.preview_files,
            movie_preview: a.movie_preview,
            image_preview: a.image_preview,
            message: a.message,
            last_errors: a.last_errors,
            ..b
        }) == a
        &&& b.store_synced()
        &&& (b.mode() == MediaMode::Movie ==> b.image_preview == a.image_preview)
        &&& (b.mode() == MediaMode::Image ==> b.movie_preview == a.movie_preview)
    }

    /// The active mode's history, blacklist and favorites.
    pub open spec fn recent(&self) -> Seq<Seq<char>> {
        self.history_of(self.mode())
    }

    pub open spec fn banned(&self) -> Seq<Seq<char>> {
        self.blacklist_of(self.mode())
    }

    pub open spec fn favored(&self) -> Seq<Seq<char>> {
        self.favorites_of(self.mode())
    }

    /// The active mode's library files.
    pub open spec fn lib_files(&self) -> Seq<Seq<char>> {
        self.library_of(self.mode()).files.deep_view()
    }

    fn sync_preview_store(&mut self)
        ensures
            final(self).preview_files == old(self).preview_files,
            final(self).store_synced(),
            SessionState::slate_edited(*old(self), *final(self)),
            final(self).message == old(self).message,
            final(self).last_errors == old(self).last_errors,
    {
        match self.config.media_mode {
            MediaMode::Movie => self.movie_preview = clone_strings(&self.preview_files),
            MediaMode::Image => self.image_preview = clone_strings(&self.preview_files),
        }
    }

    fn history_list(&self) -> (v: Vec<String>)
        ensures
            v.deep_view() == self.recent(),
    {
        match self.config.media_mode {
            MediaMode::Movie => self.movie_history.as_path_set(),
            MediaMode::Image => self.image_history.as_path_set(),
        }
    }

    fn blacklist_list(&self) -> (v: Vec<String>)
        ensures
            v.deep_view() == self.banned(),
    {
        match self.config.media_mode {
            MediaMode::Movie => self.movie_blacklist.as_path_set(),
            MediaMode::Image => self.image_blacklist.as_path_set(),
        }
    }

    /// Rolls a new slate of the pick count from the active library (nothing
    /// is launched). When `any_stale` says the disk changed, a smart rescan
    /// starts instead and the user is asked to roll again afterwards. Only an
    /// idle session with a ready, non-empty library rolls.
    pub fn roll_preview(&mut self, any_stale: bool) -> (t: Option<ScanTicket>)
        requires
            old(self).wf(),
        ensures
            final(self).wf(),
            rolled(*old(self), *final(self), any_stale, t is Some),
    {
        let (started, t) = self.refresh_if_stale(any_stale);
        if started {
            if self.phase == SessionPhase::Idle {
                self.message = s("片库正在更新，完成后请再点随机预览");
            }
            return t;
        }
        if self.phase != SessionPhase::Idle {
            return None;
        }
        let mode = self.config.media_mode;
        if self.is_scan_busy(mode) {
            self.message = s("片库索引中，请稍候…");
            return None;
        }
        if self.library().files.len() == 0 {
            self.message = s("片库为空，无法预览");
            return None;
        }
        let n = self.config.clamp_count_for(mode, self.ui_count);
        let avoid = self.history_list();
        let blocked = self.blacklist_list();
        let lib_files = clone_strings(&self.library().files);
        let chosen = pick(lib_files.as_slice(), n, self.config.avoid_recent, avoid.as_slice(), blocked.as_slice());
        if chosen.len() == 0 {
            let total = lib_files.len();
            let eligible_left = if total > blocked.len() {
                total - blocked.len()
            } else {
                0
            };
            self.message = if eligible_left == 0 && blocked.len() > 0 {
                s("可用片源已被拉黑筛空，请在设置中管理黑名单")
            } else {
                s("未能选出影片")
            };
            self.preview_files = Vec::new();
            assert(self.preview() =~= Seq::<Seq<char>>::empty());
            assert(chosen.deep_view() =~= Seq::<Seq<char>>::empty());
            self.sync_preview_store();
            return None;
        }
        self.preview_files = chosen;
        self.sync_preview_store();
        self.last_errors = Vec::new();
        self.message = self.preview_ready_message();
        None
    }
}

} // verus!

verus! {

/// The positions whose flag is set.
pub open spec fn mask_set(mask: Seq<bool>) -> Set<int> {
    Set::new(|k: int| 0 <= k < mask.len() && mask[k])
}

/// Flags, for each slot below `len`, whether `indices` names it.
pub(crate) fn slot_mask(indices: &[usize], len: usize) -> (m: Vec<bool>)
    ensures
        m@.len() == len,
        mask_set(m@) == chosen_slots(indices@, len as nat),
{
    let mut m: Vec<bool> = Vec::new();
    let mut k: usize = 0;
    while k < len
        invariant
            0 <= k <= len,
            m@.len() == k,
            forall|x: int| 0 <= x < k ==> !m@[x],
        decreases len - k,
    {
        m.push(false);
        k = k + 1;
    }
    let mut j: usize = 0;
    while j < indices.len()
        invariant
            0 <= j <= indices@.len(),
            m@.len() == len,
            forall|x: int| 0 <= x < len ==> (#[trigger] m@[x] <==> indices@.take(j as int).contains(x as usize)),
        decreases indices@.len() - j,
    {
        let i = indices[j];
        proof {
            assert(indices@.take(j + 1) =~= indices@.take(j as int).push(i));
            assert forall|x: int| 0 <= x < len implies (#[trigger] indices@.take(j + 1).contains(x as usize)
                <==> (indices@.take(j as int).contains(x as usize) || x as usize == i)) by {
                if indices@.take(j + 1).contains(x as usize) {
                    let w = choose|w: int| 0 <= w < j + 1 && #[trigger] indices@.take(j + 1)[w] == x as usize;
                    if w < j {
                        assert(indices@.take(j as int)[w] == x as usize);
                    }
                }
                if indices@.take(j as int).contains(x as usize) {
                    let w = choose|w: int| 0 <= w < j && #[trigger] indices@.take(j as int)[w] == x as usize;
                    assert(indices@.take(j + 1)[w] == x as usize);
                }
                if x as usize == i {
                    assert(indices@.take(j + 1)[j as int] == i);
                }
            }
        }
        if i < len {
            m.set(i, true);
        }
        j = j + 1;
    }
    proof {
        assert(indices@.take(indices@.len() as int) =~= indices@);
        assert(mask_set(m@) =~= chosen_slots(indices@, len as nat));
    }
    m
}

/// For each of `len` positions, whether it stays (is not chosen).
pub open spec fn keep_flags(len: nat, sel: Set<int>) -> Seq<bool> {
    Seq::new(len, |i: int| !sel.contains(i))
}

/// Taking chosen slots out keeps exactly the unchosen ones, in order: one
/// entry per unchosen position, and the entry of every unchosen position
/// is still there.
pub proof fn lemma_removal_keeps_unchosen(s: Seq<Seq<char>>, sel: Set<int>)
    ensures
        without_slots(s, sel) == flagged(s, keep_flags(s.len(), sel)),
        without_slots(s, sel).len() == set_count(keep_flags(s.len(), sel)),
        forall|i: int| 0 <= i < s.len() && !sel.contains(i) ==> without_slots(s, sel).contains(#[trigger] s[i]),
    decreases s.len(),
{
    let flags = keep_flags(s.len(), sel);
    if s.len() > 0 {
        let t = s.drop_last();
        lemma_removal_keeps_unchosen(t, sel);
        lemma_flagged_same_flags(t, keep_flags(t.len(), sel), flags);
        assert(t.push(s.last()) =~= s);
        lemma_flagged_push(t, flags, s.last());
    }
    lemma_flagged_facts(s, flags);
    assert(flags.take(s.len() as int) =~= flags);
}

/// Splits `v` into the entries kept (flag unset) and those taken out (flag
/// set, the last position first).
fn split_slots(v: &Vec<String>, mask: &Vec<bool>) -> (r: (Vec<String>, Vec<String>))
    requires
        mask@.len() == v@.len(),
    ensures
        r.0.deep_view() == without_slots(v.deep_view(), mask_set(mask@)),
        r.0.deep_view() == flagged(v.deep_view(), keep_flags(v@.len(), mask_set(mask@))),
        r.1.deep_view() == slots_desc(v.deep_view(), mask_set(mask@)),
{
    proof {
        lemma_removal_keeps_unchosen(v.deep_view(), mask_set(mask@));
    }
    let ghost sv = v.deep_view();
    let ghost sel = mask_set(mask@);
    let mut kept: Vec<String> = Vec::new();
    let mut taken: Vec<String> = Vec::new();
    let mut i: usize = 0;
    while i < v.len()
        invariant
            0 <= i <= v@.len(),
            mask@.len() == v@.len(),
            sv == v.deep_view(),
            sel == mask_set(mask@),
            kept.deep_view() == without_slots(sv.take(i as int), sel),
            taken.deep_view() == slots_desc(sv.take(i as int), sel),
        decreases v@.len() - i,
    {
        assert(sv.take(i + 1).drop_last() =~= sv.take(i as int));
        assert(sv.take(i + 1).last() == sv[i as int]);
        if mask[i] {
            assert(sel.contains(i as int));
            let ghost before = taken.deep_view();
            taken.insert(0, v[i].clone());
            assert(taken.deep_view() =~= seq![sv[i as int]] + before);
        } else {
            assert(!sel.contains(i as int));
            let ghost before = kept.deep_view();
            kept.push(v[i].clone());
            assert(kept.deep_view() =~= before.push(sv[i as int]));
        }
        i = i + 1;
    }
    assert(sv.take(v@.len() as int) =~= sv);
    (kept, taken)
}

/// What moving slot `index` of `a`'s slate to the blacklist gives: `b`, and `r`.
pub open spec fn banned_slot(a: SessionState, b: SessionState, index: usize, r: Option<String>) -> bool {
    &&& (a.phase != SessionPhase::Idle || index >= a.preview().len() ==> r is None && b == a)
    &&& (a.phase == SessionPhase::Idle && index < a.preview().len() ==> {
        let p = a.preview()[index as int];
        &&& r matches Some(q) && q@ == p
        &&& b.preview() == a.preview().remove(index as int)
        &&& b.store_synced()
        &&& b.banned() == without_file(a.banned(), p).push(p)
        &&& b.favored() == without_file(a.favored(), p)
        &&& b.message@ == (if b.preview().len() == 0 {
            b.idle_msg()
        } else {
            b.preview_ready_msg()
        })
        &&& (a.mode() == MediaMode::Movie ==> b.image_blacklist
            == a.image_blacklist && b.image_favorites == a.image_favorites
            && b.image_preview == a.image_preview)
        &&& (a.mode() == MediaMode::Image ==> b.movie_blacklist
            == a.movie_blacklist && b.movie_favorites == a.movie_favorites
            && b.movie_preview == a.movie_preview)
        &&& (SessionState {
            preview_files: a.preview_files,
            movie_preview: a.movie_preview,
            image_preview: a.image_preview,
            message: a.message,
            movie_blacklist: a.movie_blacklist,
            image_blacklist: a.image_blacklist,
            movie_favorites: a.movie_favorites,
            image_favorites: a.image_favorites,
            ..b
        }) == a
    })
}

impl SessionState {
    fn slate_message(&self) -> (m: String)
        ensures
            m@ == (if self.preview().len() == 0 {
                self.idle_msg()
            } else {
                self.preview_ready_msg()
            }),
    {
        if self.preview_files.len() == 0 {
            self.idle_message()
        } else {
            self.preview_ready_message()
        }
    }

    /// Takes slot `index` out of the slate (idle sessions only).
    pub fn remove_preview_item(&mut self, index: usize)
        requires
            old(self).wf(),
        ensures
            final(self).wf(),
            old(self).phase != SessionPhase::Idle || index >= old(self).preview().len() ==> *final(self)
                == *old(self),
            old(self).phase == SessionPhase::Idle && index < old(self).preview().len() ==> {
                &&& SessionState::slate_edited(*old(self), *final(self))
                &&& final(self).last_errors == old(self).last_errors
                &&& final(self).preview() == old(self).preview().remove(index as int)
                &&& final(self).message@ == (if final(self).preview().len() == 0 {
                    final(self).idle_msg()
                } else {
                    final(self).preview_ready_msg()
                })
            },
    {
        if self.phase != SessionPhase::Idle || index >= self.preview_files.len() {
            return;
        }
        let ghost before = self.preview();
        self.preview_files.remove(index);
        assert(self.preview() =~= before.remove(index as int));
        self.sync_preview_store();
        self.message = self.slate_message();
    }

    /// Takes the slots named by `indices` out of the slate (idle sessions
    /// only); returns how many went.
    pub fn remove_preview_items(&mut self, indices: &[usize]) -> (n: usize)
        requires
            old(self).wf(),
        ensures
            final(self).wf(),
            old(self).phase != SessionPhase::Idle ==> *final(self) == *old(self) && n == 0,
            old(self).phase == SessionPhase::Idle ==> {
                let sel = chosen_slots(indices@, old(self).preview().len());
                &&& n == slots_desc(old(self).preview(), sel).len()
                &&& SessionState::slate_edited(*old(self), *final(self))
                &&& final(self).last_errors == old(self).last_errors
                &&& final(self).preview() == without_slots(old(self).preview(), sel)
                &&& final(self).message@ == (if final(self).preview().len() == 0 {
                    final(self).idle_msg()
                } else {
                    final(self).preview_ready_msg()
                })
            },
    {
        if self.phase != SessionPhase::Idle {
            return 0;
        }
        let mask = slot_mask(indices, self.preview_files.len());
        let (kept, taken) = split_slots(&self.preview_files, &mask);
        self.preview_files = kept;
        self.sync_preview_store();
        self.message = self.slate_message();
        taken.len()
    }

    fn ban(&mut self, path: &str)
        ensures
            old(self).mode() == MediaMode::Movie ==> {
                &&& final(self).movie_blacklist@ == without_file(old(self).movie_blacklist@, path@).push(path@)
                &&& final(self).movie_favorites@ == without_file(old(self).movie_favorites@, path@)
                &&& *final(self) == (SessionState {
                    movie_blacklist: final(self).movie_blacklist,
                    movie_favorites: final(self).movie_favorites,
                    ..*old(self)
                })
            },
            old(self).mode() == MediaMode::Image ==> {
                &&& final(self).image_blacklist@ == without_file(old(self).image_blacklist@, path@).push(path@)
                &&& final(self).image_favorites@ == without_file(old(self).image_favorites@, path@)
                &&& *final(self) == (SessionState {
                    image_blacklist: final(self).image_blacklist,
                    image_favorites: final(self).image_favorites,
                    ..*old(self)
                })
            },
    {
        match self.config.media_mode {
            MediaMode::Movie => {
                self.movie_blacklist.add(path);
                self.movie_favorites.remove(path);
            },
            MediaMode::Image => {
                self.image_blacklist.add(path);
                self.image_favorites.remove(path);
            },
        }
    }

    /// Moves the slots named by `indices` from the slate to the blacklist
    /// (and off the favorites), highest slot first; idle sessions only.
    /// Returns how many were banned.
    pub fn blacklist_preview_items(&mut self, indices: &[usize]) -> (n: usize)
        requires
            old(self).wf(),
        ensures
            final(self).wf(),
            old(self).phase != SessionPhase::Idle ==> *final(self) == *old(self) && n == 0,
            old(self).phase == SessionPhase::Idle ==> {
                let sel = chosen_slots(indices@, old(self).preview().len());
                let gone = slots_desc(old(self).preview(), sel);
                &&& n == gone.len()
                &&& final(self).preview() == without_slots(old(self).preview(), sel)
                &&& final(self).store_synced()
                &&& final(self).banned() == listed_all(old(self).banned(), gone)
                &&& final(self).favored() == unlisted_all(old(self).favored(), gone)
                &&& final(self).message@ == (if final(self).preview().len() == 0 {
                    final(self).idle_msg()
                } else {
                    final(self).preview_ready_msg()
                })
                &&& final(self).movie_history == old(self).movie_history
                &&& final(self).image_history == old(self).image_history
                &&& (old(self).mode() == MediaMode::Movie ==> final(self).image_blacklist
                    == old(self).image_blacklist && final(self).image_favorites == old(self).image_favorites
                    && final(self).image_preview == old(self).image_preview)
                &&& (old(self).mode() == MediaMode::Image ==> final(self).movie_blacklist
                    == old(self).movie_blacklist && final(self).movie_favorites == old(self).movie_favorites
                    && final(self).movie_preview == old(self).movie_preview)
                &&& (SessionState {
                    preview_files: old(self).preview_files,
                    movie_preview: old(self).movie_preview,
                    image_preview: old(self).image_preview,
                    message: old(self).message,
                    movie_blacklist: old(self).movie_blacklist,
                    image_blacklist: old(self).image_blacklist,
                    movie_favorites: old(self).movie_favorites,
                    image_favorites: old(self).image_favorites,
                    ..*final(self)
                }) == *old(self)
            },
    {
        if self.phase != SessionPhase::Idle {
            return 0;
        }
        let mask = slot_mask(indices, self.preview_files.len());
        let (kept, taken) = split_slots(&self.preview_files, &mask);
        self.preview_files = kept;
        let ghost gone = taken.deep_view();
        let ghost mid = *self;
        let mut k: usize = 0;
        while k < taken.len()
            invariant
                0 <= k <= taken@.len(),
                gone == taken.deep_view(),
                self.mode() == mid.mode(),
                self.banned() == listed_all(mid.banned(), gone.take(k as int)),
                self.favored() == unlisted_all(mid.favored(), gone.take(k as int)),
                mid.mode() == MediaMode::Movie ==> (SessionState {
                    movie_blacklist: mid.movie_blacklist,
                    movie_favorites: mid.movie_favorites,
                    ..*self
                }) == mid,
                mid.mode() == MediaMode::Image ==> (SessionState {
                    image_blacklist: mid.image_blacklist,
                    image_favorites: mid.image_favorites,
                    ..*self
                }) == mid,
            decreases taken@.len() - k,
        {
            assert(gone.take(k + 1).drop_last() =~= gone.take(k as int));
            self.ban(taken[k].as_str());
            k = k + 1;
        }
        assert(gone.take(taken@.len() as int) =~= gone);
        self.sync_preview_store();
        self.message = self.slate_message();
        taken.len()
    }

    /// Moves slot `index` from the slate to the blacklist (and off the
    /// favorites); returns the path, or `None` when not idle or past the end.
    pub fn blacklist_preview_item(&mut self, index: usize) -> (r: Option<String>)
        requires
            old(self).wf(),
        ensures
            final(self).wf(),
            banned_slot(*old(self), *final(self), index, r),
    {
        if self.phase != SessionPhase::Idle || index >= self.preview_files.len() {
            return None;
        }
        let ghost before = self.preview();
        let path = self.preview_files.remove(index);
        assert(self.preview() =~= before.remove(index as int));
        self.ban(path.as_str());
        self.sync_preview_store();
        self.message = self.slate_message();
        Some(path)
    }
}

} // verus!

verus! {

/// `r` is an error with message `m`.
pub open spec fn err_is<T>(r: Result<T, String>, m: Seq<char>) -> bool {
    match r {
        Err(e) => e@ == m,
        Ok(_) => false,
    }
}

/// How many of the positions below `len` are in `sel`.
pub open spec fn count_slots(len: nat, sel: Set<int>) -> nat
    decreases len,
{
    if len == 0 {
        0
    } else {
        count_slots((len - 1) as nat, sel) + if sel.contains(len - 1) {
            1nat
        } else {
            0nat
        }
    }
}

/// Slot `m` of `slate` holds a pick of `a`'s library that is not
/// blacklisted and names a file no other slot names.
pub open spec fn fresh_slot(a: SessionState, slate: Seq<Seq<char>>, m: int) -> bool {
    let p = slate[m];
    &&& a.lib_files().contains(p)
    &&& !has_file(a.banned(), p)
    &&& forall|o: int| 0 <= o < slate.len() && o != m ==> file_key(#[trigger] slate[o]) != file_key(p)
}

/// The slate as it stood when slot `m` was picked: the selected slots
/// before `m` already hold their new picks, the others are as they were.
pub open spec fn slate_at(before: Seq<Seq<char>>, after: Seq<Seq<char>>, sel: Set<int>, m: int) -> Seq<Seq<char>> {
    Seq::new(before.len(), |o: int| if sel.contains(o) && o < m { after[o] } else { before[o] })
}

/// Slot `m` of `after` came from the picker's first choice at that moment:
/// with avoid-recent on, a title not played recently whenever one is left.
pub open spec fn preferred_pick(a: SessionState, after: Seq<Seq<char>>, sel: Set<int>, m: int) -> bool {
    primary_pool(
        a.lib_files(),
        1,
        a.config.avoid_recent,
        a.recent(),
        a.banned() + slate_at(a.preview(), after, sel, m),
    ).contains(after[m])
}

/// The replacing stopped at slot `stop` (the end when every selected slot
/// was replaced): the selected slots before it hold fresh picks, the others
/// are unchanged, and a stop before the end means nothing was left to pick.
pub open spec fn replace_stopped(
    a: SessionState,
    b: SessionState,
    sel: Set<int>,
    stop: int,
    r: Result<usize, String>,
    total: nat,
) -> bool {
    let len = a.preview().len();
    let k = count_slots(stop as nat, sel);
    &&& 0 <= stop <= len
    &&& forall|m: int|
        0 <= m < len && !(sel.contains(m) && m < stop) ==> #[trigger] b.preview()[m] == a.preview()[m]
    &&& forall|m: int| 0 <= m < len && sel.contains(m) && m < stop ==> #[trigger] fresh_slot(a, b.preview(), m)
    &&& forall|m: int| 0 <= m < len && sel.contains(m) && m < stop ==> #[trigger] preferred_pick(a, b.preview(), sel, m)
    &&& (stop == len <==> r is Ok)
    &&& (r matches Ok(n) ==> n == total)
    &&& (stop < len ==> sel.contains(stop) && eligible(a.lib_files(), a.banned() + b.preview()).len() == 0)
    &&& (stop < len && k == 0 ==> err_is(r, "没有更多可换片源（可检查黑名单或扩大片库）"@))
    &&& (stop < len && k > 0 ==> err_is(r, "已换 "@ + decimal(k) + "/"@ + decimal(total)
        + " 部，其余无更多片源"@))
}

/// What replacing the slots named by `indices` does to `a`, giving `b` and `r`.
pub open spec fn replace_outcome(
    a: SessionState,
    b: SessionState,
    indices: Seq<usize>,
    r: Result<usize, String>,
) -> bool {
    let len = a.preview().len();
    let sel = chosen_slots(indices, len);
    let total = count_slots(len, sel);
    if a.phase != SessionPhase::Idle {
        b == a && err_is(r, "播放中不能换预览"@)
    } else if a.scan_busy(a.mode()) {
        b == a && err_is(r, "片库索引中，请稍候"@)
    } else if a.lib_files().len() == 0 {
        b == a && err_is(r, "片库为空"@)
    } else if total == 0 {
        b == a && err_is(r, "请先勾选要换的项"@)
    } else {
        &&& SessionState::slate_edited(a, b)
        &&& b.last_errors == a.last_errors
        &&& b.message@ == b.preview_ready_msg()
        &&& b.preview().len() == len
        &&& exists|stop: int| #[trigger] replace_stopped(a, b, sel, stop, r, total)
    }
}

fn count_mask(mask: &Vec<bool>) -> (n: usize)
    ensures
        n == count_slots(mask@.len(), mask_set(mask@)),
{
    let ghost sel = mask_set(mask@);
    let mut n: usize = 0;
    let mut i: usize = 0;
    while i < mask.len()
        invariant
            0 <= i <= mask@.len(),
            sel == mask_set(mask@),
            n == count_slots(i as nat, sel),
            n <= i,
        decreases mask@.len() - i,
    {
        if mask[i] {
            n = n + 1;
        }
        i = i + 1;
    }
    n
}

impl SessionState {
    /// Replaces the slots named by `indices` (lowest first) with fresh
    /// picks, keeping the others; each pick avoids the whole current slate
    /// and the blacklist. Stops at the first slot with nothing left to pick.
    /// Returns how many were replaced when all were.
    pub fn replace_preview_items(&mut self, indices: &[usize]) -> (r: Result<usize, String>)
        requires
            old(self).wf(),
        ensures
            final(self).wf(),
            replace_outcome(*old(self), *final(self), indices@, r),
    {
        if self.phase != SessionPhase::Idle {
            return Err(s("播放中不能换预览"));
        }
        let mode = self.config.media_mode;
        if self.is_scan_busy(mode) {
            return Err(s("片库索引中，请稍候"));
        }
        if self.library().files.len() == 0 {
            return Err(s("片库为空"));
        }
        let len = self.preview_files.len();
        let mask = slot_mask(indices, len);
        let total = count_mask(&mask);
        if total == 0 {
            return Err(s("请先勾选要换的项"));
        }
        let ghost a = *self;
        let ghost sel = chosen_slots(indices@, len as nat);
        let avoid = self.history_list();
        let blocked = self.blacklist_list();
        let lib_files = clone_strings(&self.library().files);
        let avoid_recent = self.config.avoid_recent;
        let mut replaced: usize = 0;
        let mut failed = false;
        let mut q: usize = 0;
        while q < len && !failed
            invariant
                0 <= q <= len,
                len == a.preview().len(),
                mask@.len() == len,
                mask_set(mask@) == sel,
                self.preview().len() == len,
                *self == (SessionState { preview_files: self.preview_files, ..a }),
                lib_files.deep_view() == a.lib_files(),
                avoid.deep_view() == a.recent(),
                blocked.deep_view() == a.banned(),
                avoid_recent == a.config.avoid_recent,
                replaced == count_slots(q as nat, sel),
                replaced <= q,
                forall|m: int|
                    0 <= m < len && !(sel.contains(m) && m < q) ==> #[trigger] self.preview()[m]
                        == a.preview()[m],
                forall|m: int| 0 <= m < len && sel.contains(m) && m < q ==> #[trigger] fresh_slot(a, self.preview(), m),
                forall|m: int| 0 <= m < len && sel.contains(m) && m < q ==> #[trigger] preferred_pick(a, self.preview(), sel, m),
                failed ==> q < len && sel.contains(q as int) && eligible(a.lib_files(), a.banned() + self.preview()).len() == 0,
            decreases len - q + if failed { 0int } else { 1int },
        {
            if mask[q] {
                let exclude = clone_strings(&self.preview_files);
                let got = pick_one_excluding(
                    lib_files.as_slice(),
                    avoid_recent,
                    avoid.as_slice(),
                    blocked.as_slice(),
                    exclude.as_slice(),
                );
                match got {
                    Some(next) => {
                        let ghost cur = self.preview();
                        proof {
                            lemma_primary_member(
                                a.lib_files(),
                                1,
                                avoid_recent,
                                a.recent(),
                                a.banned() + cur,
                                next@,
                            );
                            lemma_has_file_concat(a.banned(), cur, next@);
                        }
                        self.preview_files.set(q, next);
                        let ghost upd = self.preview();
                        assert(upd =~= cur.update(q as int, next@));
                        proof {
                            assert forall|m: int| 0 <= m < len && sel.contains(m) && m < q + 1 implies #[trigger] fresh_slot(a, upd, m) by {
                                if m == q {
                                    assert forall|o: int| 0 <= o < upd.len() && o != m implies file_key(#[trigger] upd[o]) != file_key(upd[m]) by {
                                        assert(upd[o] == cur[o]);
                                        if file_key(cur[o]) == file_key(next@) {
                                            assert(has_file(cur, next@));
                                        }
                                    }
                                } else {
                                    assert(fresh_slot(a, cur, m));
                                    assert forall|o: int| 0 <= o < upd.len() && o != m implies file_key(#[trigger] upd[o]) != file_key(upd[m]) by {
                                        if o == q {
                                            if file_key(cur[m]) == file_key(next@) {
                                                assert(has_file(cur, next@));
                                            }
                                        } else {
                                            assert(upd[o] == cur[o]);
                                        }
                                    }
                                }
                            }
                        }
                        proof {
                            assert(cur =~= slate_at(a.preview(), cur, sel, q as int));
                            assert(preferred_pick(a, upd, sel, q as int)) by {
                                assert(slate_at(a.preview(), upd, sel, q as int) =~= slate_at(a.preview(), cur, sel, q as int));
                            }
                            assert forall|m: int| 0 <= m < len && sel.contains(m) && m < q + 1 implies #[trigger] preferred_pick(a, upd, sel, m) by {
                                if m < q {
                                    assert(preferred_pick(a, cur, sel, m));
                                    assert(slate_at(a.preview(), upd, sel, m) =~= slate_at(a.preview(), cur, sel, m));
                                    assert(upd[m] == cur[m]);
                                }
                            }
                        }
                        replaced = replaced + 1;
                    },
                    None => {
                        failed = true;
                    },
                }
            } else {
                assert(!sel.contains(q as int));
            }
            if !failed {
                q = q + 1;
            }
        }
        let ghost b_slate = self.preview();
        self.sync_preview_store();
        self.message = self.preview_ready_message();
        let r = if replaced == 0 {
            Err(s("没有更多可换片源（可检查黑名单或扩大片库）"))
        } else if failed {
            let mut m = msg_n("已换 ", replaced, "/");
            m.append(crate::config::decimal_string(total).as_str());
            m.append(" 部，其余无更多片源");
            Err(m)
        } else {
            Ok(replaced)
        };
        proof {
            if !failed {
                assert(q == len);
                if replaced == 0 {
                    assert(count_slots(len as nat, sel) == 0);
                }
            }
            assert(replace_stopped(a, *self, sel, q as int, r, total as nat));
        }
        r
    }

    /// Replaces slot `index` with a fresh pick and returns the new path.
    pub fn replace_preview_item(&mut self, index: usize) -> (r: Result<String, String>)
        requires
            old(self).wf(),
        ensures
            final(self).wf(),
            exists|r2: Result<usize, String>| #![auto]
                replace_outcome(*old(self), *final(self), seq![index], r2)
                && (r2 is Ok ==> index < final(self).preview().len() && (if final(self).preview()[index as int].len() == 0 {
                    err_is(r, "换一部失败"@)
                } else {
                    r matches Ok(p) && p@ == final(self).preview()[index as int]
                }))
                && (r2 matches Err(e) ==> err_is(r, e@)),
    {
        let one: Vec<usize> = vec![index];
        assert(one@ =~= seq![index]);
        let r2 = self.replace_preview_items(one.as_slice());
        match r2 {
            Ok(n) => {
                proof {
                    let sel = chosen_slots(seq![index], old(self).preview().len());
                    if index >= old(self).preview().len() {
                        assert(sel =~= Set::<int>::empty());
                        lemma_count_empty(old(self).preview().len());
                    }
                }
                let p = self.preview_files[index].clone();
                if p.unicode_len() == 0 {
                    Err(s("换一部失败"))
                } else {
                    Ok(p)
                }
            },
            Err(e) => Err(e),
        }
    }
}

proof fn lemma_count_empty(len: nat)
    ensures
        count_slots(len, Set::<int>::empty()) == 0,
    decreases len,
{
    if len > 0 {
        lemma_count_empty((len - 1) as nat);
    }
}

} // verus!
