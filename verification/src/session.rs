//! The play-session state machine: slate preview, movie rounds with their
//! player processes, image slideshows, background indexing and the messages
//! shown to the user. Every decision is taken here; the desktop shell runs
//! the processes, threads and disk work and reports back.

use vstd::prelude::*;
use crate::blacklist::Blacklist;
use crate::config::{
    Config, MediaMode, ImagePlayStyle, clean_roots, stored_roots, label_for_roots, decimal,
    decimal_string, counts_sane, bounds_of,
};
use crate::favorites::Favorites;
use crate::history::History;
use crate::library::Library;
use crate::potplayer::LaunchedItem;
use crate::tiler::Rect;

verus! {

broadcast use vstd::std_specs::vec::group_vec_axioms;

#[derive(Debug, Clone, Copy, PartialEq, Eq, Structural)]
pub enum SessionPhase {
    Idle,
    Starting,
    Playing,
    Stopping,
}

/// Answer to the toolbar "rescan".
#[derive(Debug, Clone, Copy, PartialEq, Eq, Structural)]
pub enum RescanOutcome {
    /// The index already matches the disk; nothing is walked.
    AlreadyFresh { count: usize },
    /// A background scan started; `force` re-walks every root.
    Started { force: bool },
    /// A scan is already running.
    Busy,
    /// No library roots configured.
    NoRoots,
}

#[derive(Debug, Clone)]
pub struct SessionItemView {
    pub index: usize,
    pub path: String,
    pub pid: u32,
    pub name: String,
}

/// Everything the UI draws for one frame.
#[derive(Debug, Clone)]
pub struct SessionSnapshot {
    pub phase: SessionPhase,
    pub message: String,
    /// Paths shown in the grid: the preview slate, or what is playing.
    pub current_files: Vec<String>,
    /// A preview slate exists.
    pub has_preview: bool,
    pub items: Vec<SessionItemView>,
    pub library_count: usize,
    pub library_root: String,
    pub library_roots: Vec<String>,
    pub last_errors: Vec<String>,
    pub media_mode: MediaMode,
    pub slideshow_interval_secs: u8,
    pub image_play_style: ImagePlayStyle,
    /// A background scan runs for the active mode.
    pub indexing: bool,
    /// Files found so far by that scan (0 when idle).
    pub indexing_found: usize,
    /// Movie players still running while the user browses images.
    pub movie_in_background: bool,
    pub movie_background_count: usize,
    /// A PotPlayer executable was found.
    pub pot_available: bool,
}

/// The frame drawn before the session has reported anything: idle, movie
/// mode, nothing indexed, no PotPlayer known.
impl Default for SessionSnapshot {
    fn default() -> (d: Self)
        ensures
            d.phase == SessionPhase::Idle,
            d.message@ == "就绪"@,
            d.current_files@.len() == 0,
            !d.has_preview,
            d.items@.len() == 0,
            d.library_count == 0,
            d.library_root@.len() == 0,
            d.library_roots@.len() == 0,
            d.last_errors@.len() == 0,
            d.media_mode == MediaMode::Movie,
            d.slideshow_interval_secs == 5,
            d.image_play_style == ImagePlayStyle::Slideshow,
            !d.indexing,
            d.indexing_found == 0,
            !d.movie_in_background,
            d.movie_background_count == 0,
            !d.pot_available,
    {
        SessionSnapshot {
            phase: SessionPhase::Idle,
            message: String::from_str("就绪"),
            current_files: Vec::new(),
            has_preview: false,
            items: Vec::new(),
            library_count: 0,
            library_root: String::new(),
            library_roots: Vec::new(),
            last_errors: Vec::new(),
            media_mode: MediaMode::Movie,
            slideshow_interval_secs: 5,
            image_play_style: ImagePlayStyle::Slideshow,
            indexing: false,
            indexing_found: 0,
            movie_in_background: false,
            movie_background_count: 0,
            pot_available: false,
        }
    }
}

/// All session state. The desktop shell keeps it behind a lock.
pub struct SessionState {
    pub config: Config,
    pub movie_library: Library,
    pub image_library: Library,
    pub movie_indexed: bool,
    pub image_indexed: bool,
    pub movie_scan_epoch: u64,
    pub image_scan_epoch: u64,
    pub movie_scan_busy: bool,
    pub image_scan_busy: bool,
    pub movie_history: History,
    pub image_history: History,
    pub movie_blacklist: Blacklist,
    pub image_blacklist: Blacklist,
    pub movie_favorites: Favorites,
    pub image_favorites: Favorites,
    pub phase: SessionPhase,
    /// The active mode's preview slate.
    pub preview_files: Vec<String>,
    pub movie_preview: Vec<String>,
    pub image_preview: Vec<String>,
    /// Players of the current movie round.
    pub items: Vec<LaunchedItem>,
    /// Movie players kept running while the user is in image mode.
    pub parked_movie: Option<Vec<LaunchedItem>>,
    pub message: String,
    pub last_errors: Vec<String>,
    pub ui_count: usize,
    /// Grid enforcement on while a movie round plays.
    pub geometry_guard: bool,
    /// Grid cell assigned to each player process.
    pub tile_targets: Vec<(u32, Rect)>,
    /// Bumped to cancel an in-flight movie start.
    pub play_gen: u64,
    /// One-shot play list (a subset of the slate), taken by the start.
    pub play_queue: Option<Vec<String>>,
    /// The full slate while an image subset plays.
    pub preview_backup: Option<Vec<String>>,
    /// Files found so far by the running scan.
    pub scan_found: usize,
}

/// Units and actions named in messages, per mode.
pub open spec fn unit_of(mode: MediaMode) -> Seq<char> {
    match mode {
        MediaMode::Movie => "部"@,
        MediaMode::Image => "张"@,
    }
}

pub open spec fn action_of(mode: MediaMode) -> Seq<char> {
    match mode {
        MediaMode::Movie => "开启播放"@,
        MediaMode::Image => "开启幻灯"@,
    }
}

pub open spec fn mode_label(mode: MediaMode) -> Seq<char> {
    match mode {
        MediaMode::Movie => "电影"@,
        MediaMode::Image => "图片"@,
    }
}

/// `a` and `b` agree on everything but the message.
pub open spec fn eq_but_message(a: SessionState, b: SessionState) -> bool {
    SessionState { message: b.message, ..a } == b
}

/// The generation after `g`: `g + 1`, wrapping to 0 past `u64::MAX`.
pub open spec fn next_gen(g: u64) -> u64 {
    if g == u64::MAX {
        0
    } else {
        (g + 1) as u64
    }
}

impl SessionState {
    pub open spec fn mode(&self) -> MediaMode {
        self.config.media_mode
    }

    /// What every operation keeps: sane count settings with the pick count
    /// inside the active mode's bounds; parked movie players only while the
    /// user is in image mode, and never an empty parked set; launched players
    /// only in movie mode and only while a round plays.
    pub open spec fn wf(&self) -> bool {
        &&& counts_sane(self.config@)
        &&& bounds_of(self.config@, self.mode()).0 <= self.ui_count
        &&& self.ui_count <= bounds_of(self.config@, self.mode()).1
        &&& (self.parked_movie matches Some(p) ==> (self.mode() == MediaMode::Image && p@.len() > 0))
        &&& (self.mode() == MediaMode::Image ==> self.items@.len() == 0)
        &&& (self.phase != SessionPhase::Playing ==> self.items@.len() == 0)
        &&& crate::session_play::pids_distinct(self.tile_targets@)
    }

    /// The stored lists (histories, blacklists, favorites) of `self` and
    /// `other` agree.
    pub open spec fn lists_kept(&self, other: &SessionState) -> bool {
        &&& self.movie_history == other.movie_history
        &&& self.image_history == other.image_history
        &&& self.movie_blacklist == other.movie_blacklist
        &&& self.image_blacklist == other.image_blacklist
        &&& self.movie_favorites == other.movie_favorites
        &&& self.image_favorites == other.image_favorites
    }

    pub open spec fn scan_epoch_of(&self, mode: MediaMode) -> u64 {
        match mode {
            MediaMode::Movie => self.movie_scan_epoch,
            MediaMode::Image => self.image_scan_epoch,
        }
    }

    /// Parked movie players, none when nothing is parked.
    pub open spec fn parked(&self) -> Seq<LaunchedItem> {
        match self.parked_movie {
            Some(p) => p@,
            None => Seq::empty(),
        }
    }

    pub open spec fn library_of(&self, mode: MediaMode) -> Library {
        match mode {
            MediaMode::Movie => self.movie_library,
            MediaMode::Image => self.image_library,
        }
    }

    pub open spec fn scan_busy(&self, mode: MediaMode) -> bool {
        match mode {
            MediaMode::Movie => self.movie_scan_busy,
            MediaMode::Image => self.image_scan_busy,
        }
    }

    pub open spec fn indexed(&self, mode: MediaMode) -> bool {
        match mode {
            MediaMode::Movie => self.movie_indexed,
            MediaMode::Image => self.image_indexed,
        }
    }

    pub open spec fn history_of(&self, mode: MediaMode) -> Seq<Seq<char>> {
        match mode {
            MediaMode::Movie => self.movie_history@,
            MediaMode::Image => self.image_history@,
        }
    }

    pub open spec fn blacklist_of(&self, mode: MediaMode) -> Seq<Seq<char>> {
        match mode {
            MediaMode::Movie => self.movie_blacklist@,
            MediaMode::Image => self.image_blacklist@,
        }
    }

    pub open spec fn favorites_of(&self, mode: MediaMode) -> Seq<Seq<char>> {
        match mode {
            MediaMode::Movie => self.movie_favorites@,
            MediaMode::Image => self.image_favorites@,
        }
    }

    pub open spec fn preview(&self) -> Seq<Seq<char>> {
        self.preview_files.deep_view()
    }

    /// Background players as counted in messages.
    pub open spec fn parked_count(&self) -> nat {
        match self.parked_movie {
            Some(p) => p@.len(),
            None => 0,
        }
    }

    /// Suffix naming parked movie players, shown in image mode.
    pub open spec fn background_note(&self) -> Seq<char> {
        if self.parked_movie is Some && self.mode() == MediaMode::Image {
            " · 电影后台 "@ + decimal(self.parked_count()) + " 部"@
        } else {
            Seq::empty()
        }
    }

    /// The "ready" message of the active mode.
    pub open spec fn idle_msg(&self) -> Seq<char> {
        let mode = self.mode();
        let lib_len = self.library_of(mode).files@.len();
        if self.scan_busy(mode) {
            if self.scan_found > 0 {
                "索引中… 已发现 "@ + decimal(self.scan_found as nat) + " 个"@
            } else {
                "索引中…"@
            }
        } else if lib_len == 0 {
            if clean_roots(stored_roots(self.config@, mode)).len() == 0 {
                "请先设置"@ + mode_label(mode) + "库目录"@ + self.background_note()
            } else {
                mode_label(mode) + "库中未找到文件"@ + self.background_note()
            }
        } else if self.preview().len() == 0 {
            "就绪 · 已索引 "@ + decimal(lib_len) + " "@ + unit_of(mode) + " · 先「随机预览」"@
                + self.background_note()
        } else {
            "预览就绪 · "@ + decimal(self.preview().len()) + " "@ + unit_of(mode) + " · 可「"@
                + action_of(mode) + "」"@ + self.background_note()
        }
    }

    /// The message after a slate is rolled or edited.
    pub open spec fn preview_ready_msg(&self) -> Seq<char> {
        let mode = self.mode();
        "预览就绪 · "@ + decimal(self.preview().len()) + " "@ + unit_of(mode) + " · 确认后点「"@
            + action_of(mode) + "」"@ + self.background_note()
    }
}

} // verus!

verus! {

pub(crate) fn s(lit: &str) -> (r: String)
    ensures
        r@ == lit@,
{
    String::from_str(lit)
}

/// `a`, then `n` in decimal, then `b`.
pub(crate) fn msg_n(a: &str, n: usize, b: &str) -> (r: String)
    ensures
        r@ == a@ + decimal(n as nat) + b@,
{
    let mut r = String::from_str(a);
    r.append(decimal_string(n).as_str());
    r.append(b);
    r
}

impl SessionState {
    /// The active mode's library.
    pub fn library(&self) -> (l: &Library)
        ensures
            *l == self.library_of(self.mode()),
    {
        match self.config.media_mode {
            MediaMode::Movie => &self.movie_library,
            MediaMode::Image => &self.image_library,
        }
    }

    pub fn is_scan_busy(&self, mode: MediaMode) -> (b: bool)
        ensures
            b == self.scan_busy(mode),
    {
        match mode {
            MediaMode::Movie => self.movie_scan_busy,
            MediaMode::Image => self.image_scan_busy,
        }
    }

    pub fn is_indexed(&self, mode: MediaMode) -> (b: bool)
        ensures
            b == self.indexed(mode),
    {
        match mode {
            MediaMode::Movie => self.movie_indexed,
            MediaMode::Image => self.image_indexed,
        }
    }

    fn unit(mode: MediaMode) -> (u: &'static str)
        ensures
            u@ == unit_of(mode),
    {
        match mode {
            MediaMode::Movie => "部",
            MediaMode::Image => "张",
        }
    }

    fn action(mode: MediaMode) -> (a: &'static str)
        ensures
            a@ == action_of(mode),
    {
        match mode {
            MediaMode::Movie => "开启播放",
            MediaMode::Image => "开启幻灯",
        }
    }

    fn background_note_exec(&self) -> (r: String)
        ensures
            r@ == self.background_note(),
    {
        match &self.parked_movie {
            Some(p) if self.config.media_mode == MediaMode::Image => {
                let mut r = s(" · 电影后台 ");
                r.append(decimal_string(p.len()).as_str());
                r.append(" 部");
                r
            },
            _ => String::new(),
        }
    }

    /// The "ready" message of the active mode.
    pub fn idle_message(&self) -> (r: String)
        ensures
            r@ == self.idle_msg(),
    {
        let mode = self.config.media_mode;
        let bg = self.background_note_exec();
        if self.is_scan_busy(mode) {
            if self.scan_found > 0 {
                let mut r = s("索引中… 已发现 ");
                r.append(decimal_string(self.scan_found).as_str());
                r.append(" 个");
                r
            } else {
                s("索引中…")
            }
        } else if self.library().files.len() == 0 {
            if self.config.roots_for(mode).len() == 0 {
                let mut r = s("请先设置");
                r.append(mode.label());
                r.append("库目录");
                r.append(bg.as_str());
                r
            } else {
                let mut r = s(mode.label());
                r.append("库中未找到文件");
                r.append(bg.as_str());
                r
            }
        } else if self.preview_files.len() == 0 {
            let mut r = s("就绪 · 已索引 ");
            r.append(decimal_string(self.library().files.len()).as_str());
            r.append(" ");
            r.append(Self::unit(mode));
            r.append(" · 先「随机预览」");
            r.append(bg.as_str());
            r
        } else {
            let mut r = s("预览就绪 · ");
            r.append(decimal_string(self.preview_files.len()).as_str());
            r.append(" ");
            r.append(Self::unit(mode));
            r.append(" · 可「");
            r.append(Self::action(mode));
            r.append("」");
            r.append(bg.as_str());
            r
        }
    }

    /// The message after a slate is rolled or edited.
    pub fn preview_ready_message(&self) -> (r: String)
        ensures
            r@ == self.preview_ready_msg(),
    {
        let mode = self.config.media_mode;
        let mut r = s("预览就绪 · ");
        r.append(decimal_string(self.preview_files.len()).as_str());
        r.append(" ");
        r.append(Self::unit(mode));
        r.append(" · 确认后点「");
        r.append(Self::action(mode));
        r.append("」");
        r.append(self.background_note_exec().as_str());
        r
    }
}

} // verus!

verus! {

/// The name shown for a playing item: its file name, or the whole path.
pub open spec fn item_name(path: Seq<char>) -> Seq<char> {
    match crate::pathname::file_name(path) {
        Some(n) => n,
        None => path,
    }
}

/// Paths of launched items, in order.
pub open spec fn item_paths(items: Seq<LaunchedItem>) -> Seq<Seq<char>> {
    items.map_values(|it: LaunchedItem| it.path@)
}

/// Process ids of launched items, in order.
pub open spec fn item_pids(items: Seq<LaunchedItem>) -> Seq<u32> {
    items.map_values(|it: LaunchedItem| it.pid)
}

pub(crate) fn clone_strings(v: &Vec<String>) -> (r: Vec<String>)
    ensures
        r.deep_view() == v.deep_view(),
{
    let r = v.clone();
    assert(r.deep_view() =~= v.deep_view());
    r
}

pub(crate) fn paths_of(items: &Vec<LaunchedItem>) -> (r: Vec<String>)
    ensures
        r.deep_view() == item_paths(items@),
{
    let mut r: Vec<String> = Vec::new();
    let mut i: usize = 0;
    while i < items.len()
        invariant
            0 <= i <= items@.len(),
            r.deep_view() == item_paths(items@.take(i as int)),
        decreases items@.len() - i,
    {
        let ghost before = r.deep_view();
        r.push(items[i].path.clone());
        assert(r.deep_view() =~= before.push(items@[i as int].path@));
        assert(item_paths(items@.take(i + 1)) =~= item_paths(items@.take(i as int)).push(
            items@[i as int].path@,
        ));
        i = i + 1;
    }
    assert(items@.take(items@.len() as int) =~= items@);
    r
}

impl SessionState {
    /// A fresh session: nothing previewed or playing, the given stores, the
    /// pick count at the active mode's default. A mode without roots counts
    /// as indexed (empty) right away; otherwise it waits for its first scan.
    pub fn new(
        config: Config,
        movie_history: History,
        image_history: History,
        movie_blacklist: Blacklist,
        image_blacklist: Blacklist,
        movie_favorites: Favorites,
        image_favorites: Favorites,
    ) -> (st: Self)
        requires
            counts_sane(config@),
        ensures
            st.wf(),
            st.config@ == config@,
            st.phase == SessionPhase::Idle,
            st.preview().len() == 0,
            st.items@.len() == 0,
            st.parked_movie is None,
            st.ui_count == (match config.media_mode {
                MediaMode::Movie => config.default_count,
                MediaMode::Image => config.image_default_count,
            }),
            st.movie_history@ == movie_history@,
            st.image_history@ == image_history@,
            st.movie_blacklist@ == movie_blacklist@,
            st.image_blacklist@ == image_blacklist@,
            st.movie_favorites@ == movie_favorites@,
            st.image_favorites@ == image_favorites@,
            st.indexed(config.media_mode) == (clean_roots(stored_roots(config@, config.media_mode)).len() == 0),
            !st.movie_scan_busy && !st.image_scan_busy,
            clean_roots(stored_roots(config@, config.media_mode)).len() == 0 ==> st.message@ == st.idle_msg(),
            clean_roots(stored_roots(config@, config.media_mode)).len() > 0 ==> st.message@ == "索引中…"@,
    {
        let mode = config.media_mode;
        let ui_count = config.default_count_for(mode);
        let no_roots = config.roots_for(mode).len() == 0;
        let mut st = SessionState {
            config,
            movie_library: Library::empty(),
            image_library: Library::empty(),
            movie_indexed: false,
            image_indexed: false,
            movie_scan_epoch: 0,
            image_scan_epoch: 0,
            movie_scan_busy: false,
            image_scan_busy: false,
            movie_history,
            image_history,
            movie_blacklist,
            image_blacklist,
            movie_favorites,
            image_favorites,
            phase: SessionPhase::Idle,
            preview_files: Vec::new(),
            movie_preview: Vec::new(),
            image_preview: Vec::new(),
            items: Vec::new(),
            parked_movie: None,
            message: s("就绪 · 先「随机预览」再确认开启"),
            last_errors: Vec::new(),
            ui_count,
            geometry_guard: false,
            tile_targets: Vec::new(),
            play_gen: 0,
            play_queue: None,
            preview_backup: None,
            scan_found: 0,
        };
        assert(st.preview_files.deep_view() =~= Seq::<Seq<char>>::empty());
        if no_roots {
            match mode {
                MediaMode::Movie => st.movie_indexed = true,
                MediaMode::Image => st.image_indexed = true,
            }
            st.message = st.idle_message();
        } else {
            st.message = s("索引中…");
        }
        st
    }

    /// What the UI shows this frame; `pot_available` says whether a player
    /// executable was found.
    pub fn snapshot(&self, pot_available: bool) -> (snap: SessionSnapshot)
        ensures
            snap.phase == self.phase,
            snap.message@ == self.message@,
            snap.items@.len() == self.items@.len(),
            forall|i: int|
                0 <= i < self.items@.len() ==> {
                    &&& (#[trigger] snap.items@[i]).index == i
                    &&& snap.items@[i].path@ == self.items@[i].path@
                    &&& snap.items@[i].pid == self.items@[i].pid
                    &&& snap.items@[i].name@ == item_name(self.items@[i].path@)
                },
            snap.current_files.deep_view() == (if self.phase != SessionPhase::Idle
                && self.items@.len() > 0 {
                item_paths(self.items@)
            } else {
                self.preview()
            }),
            snap.has_preview == (self.preview().len() > 0),
            snap.library_count == self.library_of(self.mode()).files@.len(),
            snap.library_root@ == label_for_roots(clean_roots(stored_roots(self.config@, self.mode()))),
            snap.library_roots.deep_view() == clean_roots(stored_roots(self.config@, self.mode())),
            snap.last_errors.deep_view() == self.last_errors.deep_view(),
            snap.media_mode == self.mode(),
            snap.slideshow_interval_secs == self.config.slideshow_interval_secs,
            snap.image_play_style == self.config.image_play_style,
            snap.indexing == self.scan_busy(self.mode()),
            snap.indexing_found == (if self.scan_busy(self.mode()) { self.scan_found } else { 0 }),
            snap.movie_in_background == (self.parked_movie is Some),
            snap.movie_background_count == self.parked_count(),
            snap.pot_available == pot_available,
    {
        let mode = self.config.media_mode;
        let mut views: Vec<SessionItemView> = Vec::new();
        let mut i: usize = 0;
        while i < self.items.len()
            invariant
                0 <= i <= self.items@.len(),
                views@.len() == i,
                forall|k: int|
                    0 <= k < i ==> {
                        &&& (#[trigger] views@[k]).index == k
                        &&& views@[k].path@ == self.items@[k].path@
                        &&& views@[k].pid == self.items@[k].pid
                        &&& views@[k].name@ == item_name(self.items@[k].path@)
                    },
            decreases self.items@.len() - i,
        {
            let it = &self.items[i];
            let name = match crate::pathname::file_name_of(it.path.as_str()) {
                Some(n) => n,
                None => it.path.clone(),
            };
            views.push(SessionItemView { index: i, path: it.path.clone(), pid: it.pid, name });
            i = i + 1;
        }
        let current_files = if self.phase != SessionPhase::Idle && self.items.len() > 0 {
            paths_of(&self.items)
        } else {
            clone_strings(&self.preview_files)
        };
        let busy = self.is_scan_busy(mode);
        let (bg, bg_n) = match &self.parked_movie {
            Some(p) => (true, p.len()),
            None => (false, 0),
        };
        SessionSnapshot {
            phase: self.phase,
            message: self.message.clone(),
            current_files,
            has_preview: self.preview_files.len() > 0,
            items: views,
            library_count: self.library().files.len(),
            library_root: self.config.library_label_for(mode),
            library_roots: self.config.roots_for(mode),
            last_errors: clone_strings(&self.last_errors),
            media_mode: mode,
            slideshow_interval_secs: self.config.slideshow_interval_secs,
            image_play_style: self.config.image_play_style,
            indexing: busy,
            indexing_found: if busy {
                self.scan_found
            } else {
                0
            },
            movie_in_background: bg,
            movie_background_count: bg_n,
            pot_available,
        }
    }
}

} // verus!
