//! Favorites and blacklist as the session offers them: per mode, with
//! slates rolled from favorites that still exist on disk.

use vstd::prelude::*;
use crate::flags::{flagged, set_count, lemma_flagged_push, lemma_flagged_facts};
use crate::config::MediaMode;
use crate::pathset::{has_file, without_file};
use crate::picker::{pick, pick_count, primary_pool, secondary_pool, drawn_from};
use crate::session::{SessionState, SessionPhase, s, clone_strings};
use crate::session_mode::{ModeSwitch, switched_mode};
use crate::session_slate::err_is;

verus! {

broadcast use {vstd::std_specs::vec::group_vec_axioms, vstd::seq_lib::group_to_multiset_ensures};

/// The entries of `f` whose flag in `exists` is set, in order.
pub open spec fn existing(f: Seq<Seq<char>>, exists: Seq<bool>) -> Seq<Seq<char>>
    decreases f.len(),
{
    if f.len() == 0 {
        Seq::empty()
    } else {
        let prev = existing(f.drop_last(), exists);
        if exists[f.len() - 1] {
            prev.push(f.last())
        } else {
            prev
        }
    }
}

/// Favorites `f` after favoriting the slots `idxs` of `slate` one by one
/// (slots past the end and files already listed are skipped), with the
/// number newly added.
pub open spec fn favored_slots(f: Seq<Seq<char>>, slate: Seq<Seq<char>>, idxs: Seq<usize>) -> (Seq<Seq<char>>, nat)
    decreases idxs.len(),
{
    if idxs.len() == 0 {
        (f, 0)
    } else {
        let prev = favored_slots(f, slate, idxs.drop_last());
        let i = idxs.last() as int;
        if i < slate.len() && !has_file(prev.0, slate[i]) {
            (without_file(prev.0, slate[i]).push(slate[i]), prev.1 + 1)
        } else {
            prev
        }
    }
}

/// Favorites `f` after unlisting each of `ps` that is listed, with the
/// number unlisted.
pub open spec fn unfavored(f: Seq<Seq<char>>, ps: Seq<Seq<char>>) -> (Seq<Seq<char>>, nat)
    decreases ps.len(),
{
    if ps.len() == 0 {
        (f, 0)
    } else {
        let prev = unfavored(f, ps.drop_last());
        if has_file(prev.0, ps.last()) {
            (without_file(prev.0, ps.last()), prev.1 + 1)
        } else {
            prev
        }
    }
}

/// `b` is `a` with the favorites of `mode` replaced.
pub open spec fn favorites_now(a: SessionState, b: SessionState, mode: MediaMode) -> bool {
    match mode {
        MediaMode::Movie => (SessionState { movie_favorites: a.movie_favorites, ..b }) == a,
        MediaMode::Image => (SessionState { image_favorites: a.image_favorites, ..b }) == a,
    }
}

/// What rolling a slate from the existing favorites of `mode` does to `a`.
pub open spec fn favorites_roll(
    a: SessionState,
    b: SessionState,
    mode: MediaMode,
    exists: Seq<bool>,
    r: Result<usize, String>,
) -> bool {
    let pool = existing(a.favorites_of(mode), exists);
    if a.phase != SessionPhase::Idle {
        b == a && err_is(r, "播放中无法换预览"@)
    } else if pool.len() == 0 {
        b == a && err_is(
            r,
            if mode == MediaMode::Movie {
                "电影收藏为空或文件已不在"@
            } else {
                "图片收藏为空或文件已不在"@
            },
        )
    } else if pick_count(pool, a.ui_count as nat, a.banned()) == 0 {
        b == a && err_is(r, "未能从收藏中选出"@)
    } else {
        &&& SessionState::slate_edited(a, b)
        &&& b.last_errors == a.last_errors
        &&& drawn_from(
            b.preview().to_multiset(),
            pick_count(pool, a.ui_count as nat, a.banned()),
            primary_pool(pool, a.ui_count as nat, a.config.avoid_recent, a.recent(), a.banned()),
            secondary_pool(pool, a.ui_count as nat, a.config.avoid_recent, a.recent(), a.banned()),
        )
        &&& r matches Ok(n) && n == b.preview().len()
        &&& b.message@ == b.preview_ready_msg()
    }
}

/// The favorites still on disk are exactly the favorites whose existence
/// flag is set, in order (a filter, not a prefix): one per set flag, and
/// every favorite flagged as existing is among them.
pub proof fn lemma_existing_favorites(f: Seq<Seq<char>>, exists: Seq<bool>)
    requires
        exists.len() >= f.len(),
    ensures
        existing(f, exists) == flagged(f, exists),
        existing(f, exists).len() == set_count(exists.take(f.len() as int)),
        forall|i: int| 0 <= i < f.len() && exists[i] ==> existing(f, exists).contains(#[trigger] f[i]),
    decreases f.len(),
{
    if f.len() > 0 {
        let t = f.drop_last();
        lemma_existing_favorites(t, exists);
        assert(t.push(f.last()) =~= f);
        lemma_flagged_push(t, exists, f.last());
    }
    lemma_flagged_facts(f, exists);
}

fn existing_of(f: &Vec<String>, exists: &[bool]) -> (r: Vec<String>)
    requires
        exists@.len() == f@.len(),
    ensures
        r.deep_view() == existing(f.deep_view(), exists@),
        r.deep_view() == flagged(f.deep_view(), exists@),
{
    proof {
        lemma_existing_favorites(f.deep_view(), exists@);
    }
    let ghost fv = f.deep_view();
    let mut r: Vec<String> = Vec::new();
    let mut i: usize = 0;
    while i < f.len()
        invariant
            0 <= i <= f@.len(),
            exists@.len() == f@.len(),
            fv == f.deep_view(),
            r.deep_view() == existing(fv.take(i as int), exists@),
        decreases f@.len() - i,
    {
        assert(fv.take(i + 1).drop_last() =~= fv.take(i as int));
        if exists[i] {
            let ghost before = r.deep_view();
            r.push(f[i].clone());
            assert(r.deep_view() =~= before.push(fv[i as int]));
        }
        i = i + 1;
    }
    assert(fv.take(f@.len() as int) =~= fv);
    r
}

impl SessionState {
    fn favorites_ref(&self, mode: MediaMode) -> (f: &crate::favorites::Favorites)
        ensures
            f@ == self.favorites_of(mode),
    {
        match mode {
            MediaMode::Movie => &self.movie_favorites,
            MediaMode::Image => &self.image_favorites,
        }
    }

    pub fn blacklist_count(&self) -> (n: usize)
        ensures
            n == self.banned().len(),
    {
        match self.config.media_mode {
            MediaMode::Movie => self.movie_blacklist.len(),
            MediaMode::Image => self.image_blacklist.len(),
        }
    }

    /// The active mode's blacklist.
    pub fn blacklist_paths(&self) -> (v: Vec<String>)
        ensures
            v.deep_view() == self.banned(),
    {
        match self.config.media_mode {
            MediaMode::Movie => self.movie_blacklist.as_path_set(),
            MediaMode::Image => self.image_blacklist.as_path_set(),
        }
    }

    /// Takes `path` off the active mode's blacklist.
    pub fn unblacklist_path(&mut self, path: &str)
        requires
            old(self).wf(),
        ensures
            final(self).wf(),
            final(self).banned() == without_file(old(self).banned(), path@),
            old(self).mode() == MediaMode::Movie ==> (SessionState {
                movie_blacklist: old(self).movie_blacklist,
                ..*final(self)
            }) == *old(self),
            old(self).mode() == MediaMode::Image ==> (SessionState {
                image_blacklist: old(self).image_blacklist,
                ..*final(self)
            }) == *old(self),
    {
        match self.config.media_mode {
            MediaMode::Movie => self.movie_blacklist.remove(path),
            MediaMode::Image => self.image_blacklist.remove(path),
        }
    }

    pub fn favorite_count(&self) -> (n: usize)
        ensures
            n == self.favored().len(),
    {
        self.favorite_count_for(self.config.media_mode)
    }

    pub fn favorite_count_for(&self, mode: MediaMode) -> (n: usize)
        ensures
            n == self.favorites_of(mode).len(),
    {
        self.favorites_ref(mode).len()
    }

    /// The active mode's favorites, oldest first (missing files included).
    pub fn favorite_paths(&self) -> (v: Vec<String>)
        ensures
            v.deep_view() == self.favored(),
    {
        self.favorite_paths_for(self.config.media_mode)
    }

    pub fn favorite_paths_for(&self, mode: MediaMode) -> (v: Vec<String>)
        ensures
            v.deep_view() == self.favorites_of(mode),
    {
        self.favorites_ref(mode).as_path_set()
    }

    /// The favorites of `mode` whose file still exists (`exists` flags each
    /// favorite in order, as checked on disk), newest first.
    pub fn favorite_paths_existing_for(&self, mode: MediaMode, exists: &[bool]) -> (v: Vec<String>)
        requires
            exists@.len() == self.favorites_of(mode).len(),
        ensures
            v.deep_view() == existing(self.favorites_of(mode), exists@).reverse(),
    {
        let fwd = existing_of(&self.favorites_ref(mode).paths, exists);
        let ghost fv = fwd.deep_view();
        let mut v: Vec<String> = Vec::new();
        let mut i: usize = fwd.len();
        while i > 0
            invariant
                0 <= i <= fwd@.len(),
                fv == fwd.deep_view(),
                v.deep_view() == fv.skip(i as int).reverse(),
            decreases i,
        {
            i = i - 1;
            let ghost before = v.deep_view();
            v.push(fwd[i].clone());
            assert(v.deep_view() =~= before.push(fv[i as int]));
            assert(fv.skip(i as int).reverse() =~= fv.skip(i + 1).reverse().push(fv[i as int]));
        }
        assert(fv.skip(0) =~= fv);
        v
    }

    pub fn favorite_paths_existing(&self, exists: &[bool]) -> (v: Vec<String>)
        requires
            exists@.len() == self.favored().len(),
        ensures
            v.deep_view() == existing(self.favored(), exists@).reverse(),
    {
        self.favorite_paths_existing_for(self.config.media_mode, exists)
    }

    pub fn is_favorite(&self, path: &str) -> (r: bool)
        ensures
            r == has_file(self.favored(), path@),
    {
        self.favorites_ref(self.config.media_mode).contains(path)
    }

    pub fn is_favorite_in(&self, mode: MediaMode, path: &str) -> (r: bool)
        ensures
            r == has_file(self.favorites_of(mode), path@),
    {
        self.favorites_ref(mode).contains(path)
    }

    /// Favorites `path` in the active mode, or unfavorites it when listed;
    /// returns whether it is listed now.
    pub fn toggle_favorite(&mut self, path: &str) -> (now: bool)
        requires
            old(self).wf(),
        ensures
            final(self).wf(),
            now == !has_file(old(self).favored(), path@),
            now ==> final(self).favored() == without_file(old(self).favored(), path@).push(path@),
            !now ==> final(self).favored() == without_file(old(self).favored(), path@),
            favorites_now(*old(self), *final(self), old(self).mode()),
    {
        match self.config.media_mode {
            MediaMode::Movie => self.movie_favorites.toggle(path),
            MediaMode::Image => self.image_favorites.toggle(path),
        }
    }

    fn favorite_in(&mut self, mode: MediaMode, path: &str)
        ensures
            final(self).favorites_of(mode) == without_file(old(self).favorites_of(mode), path@).push(path@),
            favorites_now(*old(self), *final(self), mode),
    {
        match mode {
            MediaMode::Movie => self.movie_favorites.add(path),
            MediaMode::Image => self.image_favorites.add(path),
        }
    }

    fn unfavorite_in(&mut self, mode: MediaMode, path: &str)
        ensures
            final(self).favorites_of(mode) == without_file(old(self).favorites_of(mode), path@),
            favorites_now(*old(self), *final(self), mode),
    {
        match mode {
            MediaMode::Movie => self.movie_favorites.remove(path),
            MediaMode::Image => self.image_favorites.remove(path),
        }
    }

    /// Favorites the slate slots named by `indices`, in the order given
    /// (idle sessions only); returns how many were newly added.
    pub fn favorite_preview_items(&mut self, indices: &[usize]) -> (n: usize)
        requires
            old(self).wf(),
        ensures
            final(self).wf(),
            old(self).phase != SessionPhase::Idle ==> *final(self) == *old(self) && n == 0,
            old(self).phase == SessionPhase::Idle ==> {
                let (f, k) = favored_slots(old(self).favored(), old(self).preview(), indices@);
                &&& final(self).favored() == f
                &&& n == k
                &&& favorites_now(*old(self), *final(self), old(self).mode())
            },
    {
        if self.phase != SessionPhase::Idle {
            return 0;
        }
        let mode = self.config.media_mode;
        let ghost a = *self;
        let mut added: usize = 0;
        let mut j: usize = 0;
        while j < indices.len()
            invariant
                0 <= j <= indices@.len(),
                mode == a.mode(),
                self.mode() == mode,
                self.preview() == a.preview(),
                favorites_now(a, *self, mode),
                (self.favored(), added as nat) == favored_slots(a.favored(), a.preview(), indices@.take(j as int)),
                added <= j,
            decreases indices@.len() - j,
        {
            assert(indices@.take(j + 1).drop_last() =~= indices@.take(j as int));
            let i = indices[j];
            if i < self.preview_files.len() {
                let path = self.preview_files[i].clone();
                let listed = self.favorites_ref(mode).contains(path.as_str());
                if !listed {
                    self.favorite_in(mode, path.as_str());
                    added = added + 1;
                }
            }
            j = j + 1;
        }
        assert(indices@.take(indices@.len() as int) =~= indices@);
        added
    }

    pub fn unfavorite_path(&mut self, path: &str)
        requires
            old(self).wf(),
        ensures
            final(self).wf(),
            final(self).favored() == without_file(old(self).favored(), path@),
            favorites_now(*old(self), *final(self), old(self).mode()),
    {
        let mode = self.config.media_mode;
        self.unfavorite_in(mode, path);
    }

    pub fn unfavorite_path_for(&mut self, mode: MediaMode, path: &str)
        requires
            old(self).wf(),
        ensures
            final(self).wf(),
            final(self).favorites_of(mode) == without_file(old(self).favorites_of(mode), path@),
            favorites_now(*old(self), *final(self), mode),
    {
        self.unfavorite_in(mode, path);
    }

    /// Unfavorites each of `paths` that is listed in `mode`; returns how many were.
    pub fn unfavorite_paths_for(&mut self, mode: MediaMode, paths: &[String]) -> (n: usize)
        requires
            old(self).wf(),
        ensures
            final(self).wf(),
            (final(self).favorites_of(mode), n as nat) == unfavored(old(self).favorites_of(mode), paths.deep_view()),
            favorites_now(*old(self), *final(self), mode),
    {
        let ghost a = *self;
        let ghost ps = paths.deep_view();
        let mut n: usize = 0;
        let mut j: usize = 0;
        while j < paths.len()
            invariant
                0 <= j <= paths@.len(),
                ps == paths.deep_view(),
                favorites_now(a, *self, mode),
                (self.favorites_of(mode), n as nat) == unfavored(a.favorites_of(mode), ps.take(j as int)),
                n <= j,
            decreases paths@.len() - j,
        {
            assert(ps.take(j + 1).drop_last() =~= ps.take(j as int));
            if self.favorites_ref(mode).contains(paths[j].as_str()) {
                self.unfavorite_in(mode, paths[j].as_str());
                n = n + 1;
            }
            j = j + 1;
        }
        assert(ps.take(paths@.len() as int) =~= ps);
        n
    }

    pub fn unfavorite_paths(&mut self, paths: &[String]) -> (n: usize)
        requires
            old(self).wf(),
        ensures
            final(self).wf(),
            (final(self).favored(), n as nat) == unfavored(old(self).favored(), paths.deep_view()),
            favorites_now(*old(self), *final(self), old(self).mode()),
    {
        let mode = self.config.media_mode;
        self.unfavorite_paths_for(mode, paths)
    }

    /// Switches to `mode` when needed, then rolls a slate from that mode's
    /// favorites whose file exists (`exists` flags each favorite of `mode`,
    /// in order). Returns the slate size, and the switch for the shell.
    pub fn roll_preview_from_favorites_for(&mut self, mode: MediaMode, exists: &[bool]) -> (r: (Result<usize, String>, ModeSwitch))
        requires
            old(self).wf(),
            exists@.len() == old(self).favorites_of(mode).len(),
        ensures
            final(self).wf(),
            final(self).mode() == mode,
            exists|mid: SessionState| #![auto]
                mid.wf() && switched_mode(*old(self), mid, mode, r.1)
                && favorites_roll(mid, *final(self), mode, exists@, r.0),
    {
        let sw = self.set_media_mode(mode);
        let ghost mid = *self;
        assert(self.favorites_of(mode) == old(self).favorites_of(mode));
        if self.phase != SessionPhase::Idle {
            let r = Err(s("播放中无法换预览"));
            assert(favorites_roll(mid, *self, mode, exists@, r));
            return (r, sw);
        }
        let pool = existing_of(&self.favorites_ref(mode).paths, exists);
        if pool.len() == 0 {
            let r = match mode {
                MediaMode::Movie => Err(s("电影收藏为空或文件已不在")),
                MediaMode::Image => Err(s("图片收藏为空或文件已不在")),
            };
            assert(favorites_roll(mid, *self, mode, exists@, r));
            return (r, sw);
        }
        let n = self.config.clamp_count_for(mode, self.ui_count);
        let avoid = match mode {
            MediaMode::Movie => self.movie_history.as_path_set(),
            MediaMode::Image => self.image_history.as_path_set(),
        };
        let blocked = match mode {
            MediaMode::Movie => self.movie_blacklist.as_path_set(),
            MediaMode::Image => self.image_blacklist.as_path_set(),
        };
        let chosen = pick(pool.as_slice(), n, self.config.avoid_recent, avoid.as_slice(), blocked.as_slice());
        if chosen.len() == 0 {
            let r = Err(s("未能从收藏中选出"));
            proof {
                assert(chosen.deep_view().to_multiset().len() == 0);
            }
            assert(favorites_roll(mid, *self, mode, exists@, r));
            return (r, sw);
        }
        let got = chosen.len();
        self.preview_files = chosen;
        match mode {
            MediaMode::Movie => self.movie_preview = clone_strings(&self.preview_files),
            MediaMode::Image => self.image_preview = clone_strings(&self.preview_files),
        }
        self.message = self.preview_ready_message();
        let r = Ok(got);
        assert(favorites_roll(mid, *self, mode, exists@, r));
        (r, sw)
    }

    /// Rolls a slate from the active mode's existing favorites.
    pub fn roll_preview_from_favorites(&mut self, exists: &[bool]) -> (r: Result<usize, String>)
        requires
            old(self).wf(),
            exists@.len() == old(self).favored().len(),
        ensures
            final(self).wf(),
            favorites_roll(*old(self), *final(self), old(self).mode(), exists@, r),
    {
        let mode = self.config.media_mode;
        let (r, _sw) = self.roll_preview_from_favorites_for(mode, exists);
        r
    }
}

} // verus!
