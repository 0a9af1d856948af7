//! Settings: library roots per media mode, pick-count bounds, file
//! extensions and display preferences, with the normalisation applied after
//! loading and after every edit.

use vstd::prelude::*;
use crate::text::{
    trimmed, root_key, lower, chars_of, trim, to_lower, same_root, string_from_chars,
    joined, join_file,
};
use crate::pathname::{file_name, file_name_of};

verus! {

broadcast use vstd::std_specs::vec::group_vec_axioms;

/// Which kind of media the library, history and slate refer to.
#[derive(Debug, Clone, Copy, PartialEq, Eq, Structural)]
pub enum MediaMode {
    Movie,
    Image,
}

impl MediaMode {
    /// Chinese label shown in the UI.
    pub fn label(self) -> (s: &'static str)
        ensures
            self == MediaMode::Movie ==> s@ == "电影"@,
            self == MediaMode::Image ==> s@ == "图片"@,
    {
        match self {
            MediaMode::Movie => "电影",
            MediaMode::Image => "图片",
        }
    }
}

/// How images open when a slate is started.
#[derive(Debug, Clone, Copy, PartialEq, Eq, Structural)]
pub enum ImagePlayStyle {
    /// Fullscreen timed slideshow.
    Slideshow,
    /// All slate images tiled on one wall.
    Wall,
}

impl ImagePlayStyle {
    /// Chinese label shown in the UI.
    pub fn label(self) -> (s: &'static str)
        ensures
            self == ImagePlayStyle::Slideshow ==> s@ == "幻灯片"@,
            self == ImagePlayStyle::Wall ==> s@ == "平铺墙"@,
    {
        match self {
            ImagePlayStyle::Slideshow => "幻灯片",
            ImagePlayStyle::Wall => "平铺墙",
        }
    }
}

} // verus!

verus! {

/// The settings file inside the data directory.
pub fn config_path(data_dir: &str) -> (p: String)
    ensures
        p@ == joined(data_dir@, "config.json"@),
{
    join_file(data_dir, "config.json")
}

/// Smallest and largest pick counts any setting can reach (a guard against
/// launching absurd numbers of players).
pub const ABS_COUNT_MIN: usize = 1;

pub const ABS_COUNT_MAX: usize = 32;

/// Settings (everything in `config.json` except the window placement, which
/// the desktop shell keeps).
#[derive(Debug, Clone)]
pub struct Config {
    /// Legacy single movie root, kept for old files.
    pub library_path: String,
    /// Movie roots (searched recursively).
    pub library_paths: Vec<String>,
    /// Image roots.
    pub image_library_paths: Vec<String>,
    pub media_mode: MediaMode,
    /// Movie pick count and its bounds.
    pub default_count: usize,
    pub count_min: usize,
    pub count_max: usize,
    /// Image pick count and its bounds (independent of movies).
    pub image_default_count: usize,
    pub image_count_min: usize,
    pub image_count_max: usize,
    /// Kept for old files only.
    pub volume_percent: u8,
    pub avoid_recent: bool,
    pub recent_history_size: usize,
    pub potplayer_path: String,
    pub video_extensions: Vec<String>,
    pub image_extensions: Vec<String>,
    /// Seconds per slideshow image (1 to 60).
    pub slideshow_interval_secs: u8,
    pub image_play_style: ImagePlayStyle,
    pub close_session_on_exit: bool,
    /// Title-bar close hides to the tray instead of quitting.
    pub minimize_to_tray: bool,
    /// Display for the player grid: -1 is the primary work area.
    pub tile_monitor_index: i32,
    pub workbench_sidebar_open: bool,
    /// Preview card columns (2 to 5) for movies and for images.
    pub card_cols: u8,
    pub image_card_cols: u8,
    /// Keep the control panel above the players while a movie round runs.
    pub pin_while_playing: bool,
}

/// Mathematical model of [`Config`]: strings as character sequences.
pub struct ConfigModel {
    pub library_path: Seq<char>,
    pub library_paths: Seq<Seq<char>>,
    pub image_library_paths: Seq<Seq<char>>,
    pub media_mode: MediaMode,
    pub default_count: nat,
    pub count_min: nat,
    pub count_max: nat,
    pub image_default_count: nat,
    pub image_count_min: nat,
    pub image_count_max: nat,
    pub volume_percent: nat,
    pub avoid_recent: bool,
    pub recent_history_size: nat,
    pub potplayer_path: Seq<char>,
    pub video_extensions: Seq<Seq<char>>,
    pub image_extensions: Seq<Seq<char>>,
    pub slideshow_interval_secs: nat,
    pub image_play_style: ImagePlayStyle,
    pub close_session_on_exit: bool,
    pub minimize_to_tray: bool,
    pub tile_monitor_index: int,
    pub workbench_sidebar_open: bool,
    pub card_cols: nat,
    pub image_card_cols: nat,
    pub pin_while_playing: bool,
}

impl View for Config {
    type V = ConfigModel;

    open spec fn view(&self) -> ConfigModel {
        ConfigModel {
            library_path: self.library_path@,
            library_paths: self.library_paths.deep_view(),
            image_library_paths: self.image_library_paths.deep_view(),
            media_mode: self.media_mode,
            default_count: self.default_count as nat,
            count_min: self.count_min as nat,
            count_max: self.count_max as nat,
            image_default_count: self.image_default_count as nat,
            image_count_min: self.image_count_min as nat,
            image_count_max: self.image_count_max as nat,
            volume_percent: self.volume_percent as nat,
            avoid_recent: self.avoid_recent,
            recent_history_size: self.recent_history_size as nat,
            potplayer_path: self.potplayer_path@,
            video_extensions: self.video_extensions.deep_view(),
            image_extensions: self.image_extensions.deep_view(),
            slideshow_interval_secs: self.slideshow_interval_secs as nat,
            image_play_style: self.image_play_style,
            close_session_on_exit: self.close_session_on_exit,
            minimize_to_tray: self.minimize_to_tray,
            tile_monitor_index: self.tile_monitor_index as int,
            workbench_sidebar_open: self.workbench_sidebar_open,
            card_cols: self.card_cols as nat,
            image_card_cols: self.image_card_cols as nat,
            pin_while_playing: self.pin_while_playing,
        }
    }
}

pub open spec fn clamp(x: int, lo: int, hi: int) -> int {
    if x < lo {
        lo
    } else if x > hi {
        hi
    } else {
        x
    }
}

/// Pick-count bounds of a mode.
pub open spec fn bounds_of(m: ConfigModel, mode: MediaMode) -> (nat, nat) {
    match mode {
        MediaMode::Movie => (m.count_min, m.count_max),
        MediaMode::Image => (m.image_count_min, m.image_count_max),
    }
}

/// Default pick count of a mode.
pub open spec fn default_of(m: ConfigModel, mode: MediaMode) -> nat {
    match mode {
        MediaMode::Movie => m.default_count,
        MediaMode::Image => m.image_default_count,
    }
}

/// Roots list of a mode, as stored.
pub open spec fn stored_roots(m: ConfigModel, mode: MediaMode) -> Seq<Seq<char>> {
    match mode {
        MediaMode::Movie => m.library_paths,
        MediaMode::Image => m.image_library_paths,
    }
}

/// The bounds of `mode` are ordered, so clamping to them is defined.
pub open spec fn bounds_ordered(m: ConfigModel, mode: MediaMode) -> bool {
    bounds_of(m, mode).0 <= bounds_of(m, mode).1
}

/// Every count triple sits inside the absolute limits with
/// `min <= default <= max`.
pub open spec fn counts_sane(m: ConfigModel) -> bool {
    &&& ABS_COUNT_MIN <= m.count_min <= m.default_count <= m.count_max <= ABS_COUNT_MAX
    &&& ABS_COUNT_MIN <= m.image_count_min <= m.image_default_count <= m.image_count_max
        <= ABS_COUNT_MAX
}

/// The default configuration.
pub open spec fn default_model() -> ConfigModel {
    ConfigModel {
        library_path: Seq::empty(),
        library_paths: Seq::empty(),
        image_library_paths: Seq::empty(),
        media_mode: MediaMode::Movie,
        default_count: 6,
        count_min: 1,
        count_max: 16,
        image_default_count: 9,
        image_count_min: 1,
        image_count_max: 24,
        volume_percent: 28,
        avoid_recent: true,
        recent_history_size: 40,
        potplayer_path: Seq::empty(),
        video_extensions: seq![
            ".mkv"@,
            ".mp4"@,
            ".avi"@,
            ".ts"@,
            ".m2ts"@,
            ".wmv"@,
            ".mov"@,
            ".flv"@,
            ".webm"@,
        ],
        image_extensions: seq![
            ".jpg"@,
            ".jpeg"@,
            ".png"@,
            ".webp"@,
            ".bmp"@,
            ".gif"@,
            ".tif"@,
            ".tiff"@,
        ],
        slideshow_interval_secs: 5,
        image_play_style: ImagePlayStyle::Slideshow,
        close_session_on_exit: false,
        minimize_to_tray: false,
        tile_monitor_index: -1,
        workbench_sidebar_open: true,
        card_cols: 3,
        image_card_cols: 3,
        pin_while_playing: true,
    }
}

fn strings(items: &[&str]) -> (v: Vec<String>)
    ensures
        v.deep_view() == items@.map_values(|s: &str| s@),
{
    let mut v: Vec<String> = Vec::new();
    let mut i: usize = 0;
    while i < items.len()
        invariant
            0 <= i <= items@.len(),
            v.deep_view() == items@.take(i as int).map_values(|s: &str| s@),
        decreases items@.len() - i,
    {
        let ghost before = v.deep_view();
        v.push(String::from_str(items[i]));
        assert(v.deep_view() =~= before.push(items@[i as int]@));
        assert(items@.take(i + 1).map_values(|s: &str| s@) =~= items@.take(i as int).map_values(
            |s: &str| s@,
        ).push(items@[i as int]@));
        i = i + 1;
    }
    assert(items@.take(items@.len() as int) =~= items@);
    v
}

impl Default for Config {
    fn default() -> (c: Self)
        ensures
            c@ == default_model(),
    {
        let video = strings(&[".mkv", ".mp4", ".avi", ".ts", ".m2ts", ".wmv", ".mov", ".flv", ".webm"]);
        let image = strings(&[".jpg", ".jpeg", ".png", ".webp", ".bmp", ".gif", ".tif", ".tiff"]);
        let c = Config {
            library_path: String::new(),
            library_paths: Vec::new(),
            image_library_paths: Vec::new(),
            media_mode: MediaMode::Movie,
            default_count: 6,
            count_min: 1,
            count_max: 16,
            image_default_count: 9,
            image_count_min: 1,
            image_count_max: 24,
            volume_percent: 28,
            avoid_recent: true,
            recent_history_size: 40,
            potplayer_path: String::new(),
            video_extensions: video,
            image_extensions: image,
            slideshow_interval_secs: 5,
            image_play_style: ImagePlayStyle::Slideshow,
            close_session_on_exit: false,
            minimize_to_tray: false,
            tile_monitor_index: -1,
            workbench_sidebar_open: true,
            card_cols: 3,
            image_card_cols: 3,
            pin_while_playing: true,
        };
        assert(c.library_paths.deep_view() =~= Seq::<Seq<char>>::empty());
        assert(c.image_library_paths.deep_view() =~= Seq::<Seq<char>>::empty());
        assert(c.video_extensions.deep_view() =~= default_model().video_extensions);
        assert(c.image_extensions.deep_view() =~= default_model().image_extensions);
        c
    }
}

} // verus!

verus! {

/// Roots as used: each entry trimmed, blank entries skipped.
pub open spec fn clean_roots(list: Seq<Seq<char>>) -> Seq<Seq<char>>
    decreases list.len(),
{
    if list.len() == 0 {
        Seq::empty()
    } else {
        let d = clean_roots(list.drop_last());
        let t = trimmed(list.last());
        if t.len() > 0 {
            d.push(t)
        } else {
            d
        }
    }
}

/// Some entry of `list` is the same root as `p`.
pub open spec fn has_root(list: Seq<Seq<char>>, p: Seq<char>) -> bool {
    exists|i: int| 0 <= i < list.len() && root_key(#[trigger] list[i]) == root_key(p)
}

/// Roots trimmed, blanks skipped and later duplicates of a root dropped.
pub open spec fn dedup_roots(list: Seq<Seq<char>>) -> Seq<Seq<char>>
    decreases list.len(),
{
    if list.len() == 0 {
        Seq::empty()
    } else {
        let d = dedup_roots(list.drop_last());
        let t = trimmed(list.last());
        if t.len() == 0 || has_root(d, t) {
            d
        } else {
            d.push(t)
        }
    }
}

/// Decimal digits of `n`.
pub open spec fn decimal(n: nat) -> Seq<char>
    decreases n,
{
    if n < 10 {
        seq![digit(n)]
    } else {
        decimal(n / 10).push(digit(n % 10))
    }
}

pub open spec fn digit(d: nat) -> char {
    (('0' as u32) + d) as char
}

/// `short_name`: the file name of a path, or the path itself.
pub open spec fn short_name(p: Seq<char>) -> Seq<char> {
    match file_name(p) {
        Some(n) if n.len() > 0 => n,
        _ => p,
    }
}

/// Header label for a list of roots: nothing, the only root, or the first
/// root's name and how many there are.
pub open spec fn label_for_roots(roots: Seq<Seq<char>>) -> Seq<char> {
    if roots.len() == 0 {
        Seq::empty()
    } else if roots.len() == 1 {
        roots[0]
    } else {
        short_name(roots[0]) + " 等 "@ + decimal(roots.len()) + " 个目录"@
    }
}

/// Decimal rendering of `n`.
pub fn decimal_string(n: usize) -> (s: String)
    ensures
        s@ == decimal(n as nat),
{
    let mut v: Vec<char> = Vec::new();
    push_decimal(n, &mut v);
    string_from_chars(v.as_slice())
}

fn push_decimal(n: usize, out: &mut Vec<char>)
    ensures
        final(out)@ == old(out)@ + decimal(n as nat),
    decreases n,
{
    if n >= 10 {
        push_decimal(n / 10, out);
    }
    let d = (n % 10) as u8;
    let c = (48u8 + d) as char;
    assert(c == digit((n % 10) as nat));
    let ghost before = out@;
    out.push(c);
    proof {
        if n >= 10 {
            assert(decimal(n as nat) == decimal((n / 10) as nat).push(digit((n % 10) as nat)));
        }
    }
}

/// Trimmed, non-blank entries of `list`.
pub fn clean_root_list(list: &Vec<String>) -> (r: Vec<String>)
    ensures
        r.deep_view() == clean_roots(list.deep_view()),
{
    let ghost s = list.deep_view();
    let mut r: Vec<String> = Vec::new();
    let mut i: usize = 0;
    while i < list.len()
        invariant
            0 <= i <= list@.len(),
            s == list.deep_view(),
            r.deep_view() == clean_roots(s.take(i as int)),
        decreases list@.len() - i,
    {
        assert(s.take(i + 1).drop_last() =~= s.take(i as int));
        let t = trim(list[i].as_str());
        if t.unicode_len() > 0 {
            let ghost before = r.deep_view();
            r.push(t);
            assert(r.deep_view() =~= before.push(trimmed(s[i as int])));
        }
        i = i + 1;
    }
    assert(s.take(list@.len() as int) =~= s);
    r
}

fn list_has_root(list: &Vec<String>, p: &str) -> (r: bool)
    ensures
        r == has_root(list.deep_view(), p@),
{
    let mut i: usize = 0;
    while i < list.len()
        invariant
            0 <= i <= list@.len(),
            forall|k: int| 0 <= k < i ==> root_key(#[trigger] list.deep_view()[k]) != root_key(p@),
        decreases list@.len() - i,
    {
        if same_root(list[i].as_str(), p) {
            assert(root_key(list.deep_view()[i as int]) == root_key(p@));
            return true;
        }
        i = i + 1;
    }
    false
}

/// Trimmed, non-blank, first occurrence of each root kept.
pub fn dedup_root_list(list: &Vec<String>) -> (r: Vec<String>)
    ensures
        r.deep_view() == dedup_roots(list.deep_view()),
{
    let ghost s = list.deep_view();
    let mut r: Vec<String> = Vec::new();
    let mut i: usize = 0;
    while i < list.len()
        invariant
            0 <= i <= list@.len(),
            s == list.deep_view(),
            r.deep_view() == dedup_roots(s.take(i as int)),
        decreases list@.len() - i,
    {
        assert(s.take(i + 1).drop_last() =~= s.take(i as int));
        let t = trim(list[i].as_str());
        if t.unicode_len() > 0 && !list_has_root(&r, t.as_str()) {
            let ghost before = r.deep_view();
            r.push(t);
            assert(r.deep_view() =~= before.push(trimmed(s[i as int])));
        }
        i = i + 1;
    }
    assert(s.take(list@.len() as int) =~= s);
    r
}

fn short_name_of(p: &str) -> (r: String)
    ensures
        r@ == short_name(p@),
{
    match file_name_of(p) {
        Some(n) if n.unicode_len() > 0 => n,
        _ => String::from_str(p),
    }
}

} // verus!

verus! {

/// An extension in canonical form: ASCII lower case with a leading dot.
pub open spec fn ext_norm(e: Seq<char>) -> Seq<char> {
    let l = lower(e);
    if l.len() > 0 && l[0] == '.' {
        l
    } else {
        seq!['.'] + l
    }
}

/// A (min, max, default) count triple forced inside the absolute limits,
/// with max raised to min and the default clamped between them.
pub open spec fn norm_triple(min: nat, max: nat, def: nat) -> (nat, nat, nat) {
    let mn = clamp(min as int, ABS_COUNT_MIN as int, ABS_COUNT_MAX as int);
    let mx0 = clamp(max as int, ABS_COUNT_MIN as int, ABS_COUNT_MAX as int);
    let mx = if mx0 < mn { mn } else { mx0 };
    (mn as nat, mx as nat, clamp(def as int, mn, mx) as nat)
}

/// Movie roots after normalisation: deduplicated, or the legacy single root
/// when there are none.
pub open spec fn normalized_movie_roots(m: ConfigModel) -> Seq<Seq<char>> {
    let d = dedup_roots(m.library_paths);
    let legacy = trimmed(m.library_path);
    if d.len() == 0 && legacy.len() > 0 {
        seq![legacy]
    } else {
        d
    }
}

/// The settings as normalised after loading and after each edit.
pub open spec fn normalized(m: ConfigModel) -> ConfigModel {
    let mv = norm_triple(m.count_min, m.count_max, m.default_count);
    let im = norm_triple(m.image_count_min, m.image_count_max, m.image_default_count);
    let roots = normalized_movie_roots(m);
    ConfigModel {
        library_path: if roots.len() > 0 {
            roots[0]
        } else {
            Seq::empty()
        },
        library_paths: roots,
        image_library_paths: dedup_roots(m.image_library_paths),
        count_min: mv.0,
        count_max: mv.1,
        default_count: mv.2,
        image_count_min: im.0,
        image_count_max: im.1,
        image_default_count: im.2,
        volume_percent: if m.volume_percent > 100 {
            100
        } else {
            m.volume_percent
        },
        video_extensions: m.video_extensions.map_values(|e: Seq<char>| ext_norm(e)),
        image_extensions: m.image_extensions.map_values(|e: Seq<char>| ext_norm(e)),
        slideshow_interval_secs: clamp(m.slideshow_interval_secs as int, 1, 60) as nat,
        card_cols: clamp(m.card_cols as int, 2, 5) as nat,
        image_card_cols: clamp(m.image_card_cols as int, 2, 5) as nat,
        ..m
    }
}

/// `m` with the stored roots of `mode` replaced.
pub open spec fn with_roots(m: ConfigModel, mode: MediaMode, list: Seq<Seq<char>>) -> ConfigModel {
    match mode {
        MediaMode::Movie => ConfigModel { library_paths: list, ..m },
        MediaMode::Image => ConfigModel { image_library_paths: list, ..m },
    }
}

fn clamp_usize(x: usize, lo: usize, hi: usize) -> (r: usize)
    requires
        lo <= hi,
    ensures
        r == clamp(x as int, lo as int, hi as int),
{
    if x < lo {
        lo
    } else if x > hi {
        hi
    } else {
        x
    }
}

fn clamp_u8(x: u8, lo: u8, hi: u8) -> (r: u8)
    requires
        lo <= hi,
    ensures
        r == clamp(x as int, lo as int, hi as int),
{
    if x < lo {
        lo
    } else if x > hi {
        hi
    } else {
        x
    }
}

fn norm_ext(e: &String) -> (r: String)
    ensures
        r@ == ext_norm(e@),
{
    let l = to_lower(e.as_str());
    let v = chars_of(l.as_str());
    if v.len() > 0 && v[0] == '.' {
        l
    } else {
        let mut r = String::from_str(".");
        proof {
            reveal_strlit(".");
        }
        r.append(l.as_str());
        assert(r@ =~= seq!['.'] + lower(e@));
        r
    }
}

fn norm_ext_list(list: &Vec<String>) -> (r: Vec<String>)
    ensures
        r.deep_view() == list.deep_view().map_values(|e: Seq<char>| ext_norm(e)),
{
    let mut r: Vec<String> = Vec::new();
    let mut i: usize = 0;
    while i < list.len()
        invariant
            0 <= i <= list@.len(),
            r.deep_view() == list.deep_view().take(i as int).map_values(|e: Seq<char>| ext_norm(e)),
        decreases list@.len() - i,
    {
        let ghost before = r.deep_view();
        r.push(norm_ext(&list[i]));
        assert(r.deep_view() =~= before.push(ext_norm(list.deep_view()[i as int])));
        assert(list.deep_view().take(i + 1).map_values(|e: Seq<char>| ext_norm(e)) =~= before.push(
            ext_norm(list.deep_view()[i as int]),
        ));
        i = i + 1;
    }
    assert(list.deep_view().take(list@.len() as int) =~= list.deep_view());
    r
}

fn norm_counts(min: usize, max: usize, def: usize) -> (r: (usize, usize, usize))
    ensures
        (r.0 as nat, r.1 as nat, r.2 as nat) == norm_triple(min as nat, max as nat, def as nat),
{
    let mn = clamp_usize(min, ABS_COUNT_MIN, ABS_COUNT_MAX);
    let mx0 = clamp_usize(max, ABS_COUNT_MIN, ABS_COUNT_MAX);
    let mx = if mx0 < mn {
        mn
    } else {
        mx0
    };
    (mn, mx, clamp_usize(def, mn, mx))
}

impl Config {
    /// Forces every setting into its valid range: count triples inside
    /// `1..=32` with `min <= default <= max`, extensions lower case with a
    /// leading dot, intervals and column counts clamped, roots trimmed and
    /// deduplicated; the legacy single root is used only when no roots are
    /// set and then mirrors the first root.
    pub fn normalize(self) -> (c: Self)
        ensures
            c@ == normalized(self@),
    {
        let mut c = self;
        let (a, b, d) = norm_counts(c.count_min, c.count_max, c.default_count);
        c.count_min = a;
        c.count_max = b;
        c.default_count = d;
        let (a, b, d) = norm_counts(c.image_count_min, c.image_count_max, c.image_default_count);
        c.image_count_min = a;
        c.image_count_max = b;
        c.image_default_count = d;
        if c.volume_percent > 100 {
            c.volume_percent = 100;
        }
        c.video_extensions = norm_ext_list(&c.video_extensions);
        c.image_extensions = norm_ext_list(&c.image_extensions);
        c.slideshow_interval_secs = clamp_u8(c.slideshow_interval_secs, 1, 60);
        c.card_cols = clamp_u8(c.card_cols, 2, 5);
        c.image_card_cols = clamp_u8(c.image_card_cols, 2, 5);
        let mut roots = dedup_root_list(&c.library_paths);
        if roots.len() == 0 {
            let legacy = trim(c.library_path.as_str());
            if legacy.unicode_len() > 0 {
                roots.push(legacy);
                assert(roots.deep_view() =~= seq![trimmed(self@.library_path)]);
            }
        }
        c.library_path = if roots.len() > 0 {
            roots[0].clone()
        } else {
            String::new()
        };
        c.library_paths = roots;
        c.image_library_paths = dedup_root_list(&c.image_library_paths);
        c
    }
}

} // verus!

verus! {

impl Config {
    /// Preview columns of a mode, clamped to 2..=5.
    pub fn card_cols_for(&self, mode: MediaMode) -> (n: u8)
        ensures
            n == clamp(
                (match mode {
                    MediaMode::Movie => self.card_cols,
                    MediaMode::Image => self.image_card_cols,
                }) as int,
                2,
                5,
            ),
    {
        match mode {
            MediaMode::Movie => clamp_u8(self.card_cols, 2, 5),
            MediaMode::Image => clamp_u8(self.image_card_cols, 2, 5),
        }
    }

    pub fn set_card_cols_for(&mut self, mode: MediaMode, cols: u8)
        ensures
            final(self)@ == (match mode {
                MediaMode::Movie => ConfigModel {
                    card_cols: clamp(cols as int, 2, 5) as nat,
                    ..old(self)@
                },
                MediaMode::Image => ConfigModel {
                    image_card_cols: clamp(cols as int, 2, 5) as nat,
                    ..old(self)@
                },
            }),
    {
        let cols = clamp_u8(cols, 2, 5);
        match mode {
            MediaMode::Movie => self.card_cols = cols,
            MediaMode::Image => self.image_card_cols = cols,
        }
    }

    /// Clamps against the current mode's bounds.
    pub fn clamp_count(&self, n: usize) -> (r: usize)
        requires
            bounds_ordered(self@, self.media_mode),
        ensures
            r == clamp(
                n as int,
                bounds_of(self@, self.media_mode).0 as int,
                bounds_of(self@, self.media_mode).1 as int,
            ),
    {
        self.clamp_count_for(self.media_mode, n)
    }

    pub fn clamp_count_for(&self, mode: MediaMode, n: usize) -> (r: usize)
        requires
            bounds_ordered(self@, mode),
        ensures
            r == clamp(n as int, bounds_of(self@, mode).0 as int, bounds_of(self@, mode).1 as int),
    {
        let (lo, hi) = self.count_bounds_for(mode);
        clamp_usize(n, lo, hi)
    }

    pub fn count_bounds_for(&self, mode: MediaMode) -> (b: (usize, usize))
        ensures
            (b.0 as nat, b.1 as nat) == bounds_of(self@, mode),
    {
        match mode {
            MediaMode::Movie => (self.count_min, self.count_max),
            MediaMode::Image => (self.image_count_min, self.image_count_max),
        }
    }

    pub fn default_count_for(&self, mode: MediaMode) -> (n: usize)
        ensures
            n == default_of(self@, mode),
    {
        match mode {
            MediaMode::Movie => self.default_count,
            MediaMode::Image => self.image_default_count,
        }
    }

    /// Sets a mode's default count, clamped to that mode's bounds.
    pub fn set_default_count_for(&mut self, mode: MediaMode, n: usize)
        requires
            bounds_ordered(old(self)@, mode),
        ensures
            final(self)@ == (match mode {
                MediaMode::Movie => ConfigModel {
                    default_count: clamp(
                        n as int,
                        old(self)@.count_min as int,
                        old(self)@.count_max as int,
                    ) as nat,
                    ..old(self)@
                },
                MediaMode::Image => ConfigModel {
                    image_default_count: clamp(
                        n as int,
                        old(self)@.image_count_min as int,
                        old(self)@.image_count_max as int,
                    ) as nat,
                    ..old(self)@
                },
            }),
    {
        let n = self.clamp_count_for(mode, n);
        match mode {
            MediaMode::Movie => self.default_count = n,
            MediaMode::Image => self.image_default_count = n,
        }
    }

    /// Movie roots as used.
    pub fn library_roots(&self) -> (r: Vec<String>)
        ensures
            r.deep_view() == clean_roots(self@.library_paths),
    {
        self.roots_for(MediaMode::Movie)
    }

    /// A mode's roots as used: trimmed, blanks skipped.
    pub fn roots_for(&self, mode: MediaMode) -> (r: Vec<String>)
        ensures
            r.deep_view() == clean_roots(stored_roots(self@, mode)),
    {
        match mode {
            MediaMode::Movie => clean_root_list(&self.library_paths),
            MediaMode::Image => clean_root_list(&self.image_library_paths),
        }
    }

    pub fn extensions_for(&self, mode: MediaMode) -> (r: &Vec<String>)
        ensures
            r.deep_view() == (match mode {
                MediaMode::Movie => self@.video_extensions,
                MediaMode::Image => self@.image_extensions,
            }),
    {
        match mode {
            MediaMode::Movie => &self.video_extensions,
            MediaMode::Image => &self.image_extensions,
        }
    }

    /// The current mode has at least one usable root.
    pub fn has_library(&self) -> (r: bool)
        ensures
            r == (clean_roots(stored_roots(self@, self.media_mode)).len() > 0),
    {
        self.roots_for(self.media_mode).len() > 0
    }

    /// Header label for the current mode's roots.
    pub fn library_label(&self) -> (s: String)
        ensures
            s@ == label_for_roots(clean_roots(stored_roots(self@, self.media_mode))),
    {
        self.library_label_for(self.media_mode)
    }

    pub fn library_label_for(&self, mode: MediaMode) -> (s: String)
        ensures
            s@ == label_for_roots(clean_roots(stored_roots(self@, mode))),
    {
        let roots = self.roots_for(mode);
        let ghost rv = roots.deep_view();
        if roots.len() == 0 {
            String::new()
        } else if roots.len() == 1 {
            roots[0].clone()
        } else {
            let mut s = short_name_of(roots[0].as_str());
            s.append(" 等 ");
            s.append(decimal_string(roots.len()).as_str());
            s.append(" 个目录");
            assert(s@ =~= label_for_roots(rv));
            s
        }
    }
}

} // verus!

verus! {

/// `m` after setting the lower count bound of `mode` to `n` (forced into the
/// absolute limits); the upper bound rises to it if needed and the default
/// is clamped between them.
pub open spec fn after_set_min(m: ConfigModel, mode: MediaMode, n: nat) -> ConfigModel {
    let mn = clamp(n as int, ABS_COUNT_MIN as int, ABS_COUNT_MAX as int);
    match mode {
        MediaMode::Movie => {
            let mx = if m.count_max < mn { mn } else { m.count_max as int };
            ConfigModel {
                count_min: mn as nat,
                count_max: mx as nat,
                default_count: clamp(m.default_count as int, mn, mx) as nat,
                ..m
            }
        },
        MediaMode::Image => {
            let mx = if m.image_count_max < mn { mn } else { m.image_count_max as int };
            ConfigModel {
                image_count_min: mn as nat,
                image_count_max: mx as nat,
                image_default_count: clamp(m.image_default_count as int, mn, mx) as nat,
                ..m
            }
        },
    }
}

/// `m` after setting the upper count bound of `mode` to `n` (forced into the
/// absolute limits); the lower bound drops to it if needed and the default
/// is clamped between them.
pub open spec fn after_set_max(m: ConfigModel, mode: MediaMode, n: nat) -> ConfigModel {
    let mx = clamp(n as int, ABS_COUNT_MIN as int, ABS_COUNT_MAX as int);
    match mode {
        MediaMode::Movie => {
            let mn = if m.count_min > mx { mx } else { m.count_min as int };
            ConfigModel {
                count_max: mx as nat,
                count_min: mn as nat,
                default_count: clamp(m.default_count as int, mn, mx) as nat,
                ..m
            }
        },
        MediaMode::Image => {
            let mn = if m.image_count_min > mx { mx } else { m.image_count_min as int };
            ConfigModel {
                image_count_max: mx as nat,
                image_count_min: mn as nat,
                image_default_count: clamp(m.image_default_count as int, mn, mx) as nat,
                ..m
            }
        },
    }
}

/// `m` after adding root `path` to `mode`: nothing happens for a blank path
/// or a root already listed, else the trimmed path is appended and the whole
/// configuration normalised.
pub open spec fn after_add_root(m: ConfigModel, mode: MediaMode, path: Seq<char>) -> ConfigModel {
    let t = trimmed(path);
    if t.len() == 0 || has_root(stored_roots(m, mode), t) {
        m
    } else {
        normalized(with_roots(m, mode, stored_roots(m, mode).push(t)))
    }
}

/// `m` after removing entry `index` of `mode`'s roots (nothing happens for an
/// index past the end). Removing the last movie root also clears the legacy
/// root, so it cannot come back.
pub open spec fn after_remove_root(m: ConfigModel, mode: MediaMode, index: nat) -> ConfigModel {
    let list = stored_roots(m, mode);
    if index >= list.len() {
        m
    } else {
        let rest = list.remove(index as int);
        let m1 = with_roots(m, mode, rest);
        let m2 = if mode == MediaMode::Movie && rest.len() == 0 {
            ConfigModel { library_path: Seq::empty(), ..m1 }
        } else {
            m1
        };
        normalized(m2)
    }
}

impl Config {
    pub fn set_count_min(&mut self, n: usize)
        ensures
            final(self)@ == after_set_min(old(self)@, old(self)@.media_mode, n as nat),
    {
        let mode = self.media_mode;
        self.set_count_min_for(mode, n);
    }

    pub fn set_count_max(&mut self, n: usize)
        ensures
            final(self)@ == after_set_max(old(self)@, old(self)@.media_mode, n as nat),
    {
        let mode = self.media_mode;
        self.set_count_max_for(mode, n);
    }

    pub fn set_count_min_for(&mut self, mode: MediaMode, n: usize)
        ensures
            final(self)@ == after_set_min(old(self)@, mode, n as nat),
    {
        let n = clamp_usize(n, ABS_COUNT_MIN, ABS_COUNT_MAX);
        match mode {
            MediaMode::Movie => {
                self.count_min = n;
                if self.count_max < self.count_min {
                    self.count_max = self.count_min;
                }
                self.default_count = clamp_usize(self.default_count, self.count_min, self.count_max);
            },
            MediaMode::Image => {
                self.image_count_min = n;
                if self.image_count_max < self.image_count_min {
                    self.image_count_max = self.image_count_min;
                }
                self.image_default_count = clamp_usize(
                    self.image_default_count,
                    self.image_count_min,
                    self.image_count_max,
                );
            },
        }
    }

    pub fn set_count_max_for(&mut self, mode: MediaMode, n: usize)
        ensures
            final(self)@ == after_set_max(old(self)@, mode, n as nat),
    {
        let n = clamp_usize(n, ABS_COUNT_MIN, ABS_COUNT_MAX);
        match mode {
            MediaMode::Movie => {
                self.count_max = n;
                if self.count_min > self.count_max {
                    self.count_min = self.count_max;
                }
                self.default_count = clamp_usize(self.default_count, self.count_min, self.count_max);
            },
            MediaMode::Image => {
                self.image_count_max = n;
                if self.image_count_min > self.image_count_max {
                    self.image_count_min = self.image_count_max;
                }
                self.image_default_count = clamp_usize(
                    self.image_default_count,
                    self.image_count_min,
                    self.image_count_max,
                );
            },
        }
    }

    /// Adds a root to the current mode.
    pub fn add_library_path(&mut self, path: String)
        ensures
            final(self)@ == after_add_root(old(self)@, old(self)@.media_mode, path@),
    {
        let mode = self.media_mode;
        self.add_path_for(mode, path);
    }

    pub fn add_path_for(&mut self, mode: MediaMode, path: String)
        ensures
            final(self)@ == after_add_root(old(self)@, mode, path@),
    {
        let t = trim(path.as_str());
        if t.unicode_len() == 0 {
            return;
        }
        match mode {
            MediaMode::Movie => {
                if list_has_root(&self.library_paths, t.as_str()) {
                    return;
                }
                let ghost l0 = self.library_paths.deep_view();
                self.library_paths.push(t);
                assert(self.library_paths.deep_view() =~= l0.push(trimmed(path@)));
            },
            MediaMode::Image => {
                if list_has_root(&self.image_library_paths, t.as_str()) {
                    return;
                }
                let ghost l0 = self.image_library_paths.deep_view();
                self.image_library_paths.push(t);
                assert(self.image_library_paths.deep_view() =~= l0.push(trimmed(path@)));
            },
        }
        let c = self.clone_config();
        *self = c.normalize();
    }

    /// Removes the current mode's root at `index`; returns it.
    pub fn remove_library_path(&mut self, index: usize) -> (r: Option<String>)
        ensures
            final(self)@ == after_remove_root(old(self)@, old(self)@.media_mode, index as nat),
            index < stored_roots(old(self)@, old(self)@.media_mode).len() ==> (r matches Some(p)
                && p@ == stored_roots(old(self)@, old(self)@.media_mode)[index as int]),
            index >= stored_roots(old(self)@, old(self)@.media_mode).len() ==> r is None,
    {
        let mode = self.media_mode;
        self.remove_path_for(mode, index)
    }

    /// Removes root `index` of `mode`; returns it, or `None` past the end.
    pub fn remove_path_for(&mut self, mode: MediaMode, index: usize) -> (r: Option<String>)
        ensures
            final(self)@ == after_remove_root(old(self)@, mode, index as nat),
            index < stored_roots(old(self)@, mode).len() ==> (r matches Some(p) && p@
                == stored_roots(old(self)@, mode)[index as int]),
            index >= stored_roots(old(self)@, mode).len() ==> r is None,
    {
        let removed = match mode {
            MediaMode::Movie => {
                if index >= self.library_paths.len() {
                    return None;
                }
                let ghost l0 = self.library_paths.deep_view();
                let r = self.library_paths.remove(index);
                assert(self.library_paths.deep_view() =~= l0.remove(index as int));
                if self.library_paths.len() == 0 {
                    self.library_path = String::new();
                }
                r
            },
            MediaMode::Image => {
                if index >= self.image_library_paths.len() {
                    return None;
                }
                let ghost l0 = self.image_library_paths.deep_view();
                let r = self.image_library_paths.remove(index);
                assert(self.image_library_paths.deep_view() =~= l0.remove(index as int));
                r
            },
        };
        let c = self.clone_config();
        *self = c.normalize();
        Some(removed)
    }

    /// A field-by-field copy.
    pub fn clone_config(&self) -> (c: Config)
        ensures
            c@ == self@,
    {
        let c = Config {
            library_path: self.library_path.clone(),
            library_paths: self.library_paths.clone(),
            image_library_paths: self.image_library_paths.clone(),
            media_mode: self.media_mode,
            default_count: self.default_count,
            count_min: self.count_min,
            count_max: self.count_max,
            image_default_count: self.image_default_count,
            image_count_min: self.image_count_min,
            image_count_max: self.image_count_max,
            volume_percent: self.volume_percent,
            avoid_recent: self.avoid_recent,
            recent_history_size: self.recent_history_size,
            potplayer_path: self.potplayer_path.clone(),
            video_extensions: self.video_extensions.clone(),
            image_extensions: self.image_extensions.clone(),
            slideshow_interval_secs: self.slideshow_interval_secs,
            image_play_style: self.image_play_style,
            close_session_on_exit: self.close_session_on_exit,
            minimize_to_tray: self.minimize_to_tray,
            tile_monitor_index: self.tile_monitor_index,
            workbench_sidebar_open: self.workbench_sidebar_open,
            card_cols: self.card_cols,
            image_card_cols: self.image_card_cols,
            pin_while_playing: self.pin_while_playing,
        };
        assert(c.library_paths.deep_view() =~= self.library_paths.deep_view());
        assert(c.image_library_paths.deep_view() =~= self.image_library_paths.deep_view());
        assert(c.video_extensions.deep_view() =~= self.video_extensions.deep_view());
        assert(c.image_extensions.deep_view() =~= self.image_extensions.deep_view());
        c
    }
}

} // verus!

verus! {

/// After normalisation every count triple is inside the absolute limits and
/// ordered `min <= default <= max`, for any starting values.
pub proof fn lemma_normalized_counts_sane(m: ConfigModel)
    ensures
        counts_sane(normalized(m)),
        bounds_ordered(normalized(m), MediaMode::Movie),
        bounds_ordered(normalized(m), MediaMode::Image),
{
}

/// Normalising leaves sane count settings as they are.
pub proof fn lemma_normalize_keeps_sane_counts(m: ConfigModel)
    requires
        counts_sane(m),
    ensures
        bounds_of(normalized(m), MediaMode::Movie) == bounds_of(m, MediaMode::Movie),
        bounds_of(normalized(m), MediaMode::Image) == bounds_of(m, MediaMode::Image),
        default_of(normalized(m), MediaMode::Movie) == default_of(m, MediaMode::Movie),
        default_of(normalized(m), MediaMode::Image) == default_of(m, MediaMode::Image),
        normalized(m).media_mode == m.media_mode,
{
}

/// Setting a bound keeps sane counts sane.
pub proof fn lemma_set_bounds_keep_sane(m: ConfigModel, mode: MediaMode, n: nat)
    requires
        counts_sane(m),
    ensures
        counts_sane(after_set_min(m, mode, n)),
        counts_sane(after_set_max(m, mode, n)),
        after_set_min(m, mode, n).media_mode == m.media_mode,
        bounds_of(after_set_min(m, mode, n), mode).0 == clamp(n as int, ABS_COUNT_MIN as int, ABS_COUNT_MAX as int),
        bounds_of(after_set_max(m, mode, n), mode).1 == clamp(n as int, ABS_COUNT_MIN as int, ABS_COUNT_MAX as int),
        mode == MediaMode::Movie ==> bounds_of(after_set_min(m, mode, n), MediaMode::Image) == bounds_of(m, MediaMode::Image)
            && bounds_of(after_set_max(m, mode, n), MediaMode::Image) == bounds_of(m, MediaMode::Image),
        mode == MediaMode::Image ==> bounds_of(after_set_min(m, mode, n), MediaMode::Movie) == bounds_of(m, MediaMode::Movie)
            && bounds_of(after_set_max(m, mode, n), MediaMode::Movie) == bounds_of(m, MediaMode::Movie),
{
}

/// Removing the last movie root leaves no movie root and no legacy root: a
/// removed root never comes back through the legacy field.
pub proof fn lemma_remove_last_movie_root(m: ConfigModel)
    requires
        m.library_paths.len() == 1,
    ensures
        after_remove_root(m, MediaMode::Movie, 0).library_paths.len() == 0,
        after_remove_root(m, MediaMode::Movie, 0).library_path.len() == 0,
{
    let rest = m.library_paths.remove(0);
    assert(rest.len() == 0);
    assert(dedup_roots(rest) =~= Seq::<Seq<char>>::empty());
    assert(trimmed(Seq::<char>::empty()) =~= Seq::<char>::empty());
}

} // verus!

verus! {

/// Every entry of `l` is trimmed and non-blank, and no two are the same root.
pub open spec fn clean_distinct_roots(l: Seq<Seq<char>>) -> bool {
    &&& forall|i: int| 0 <= i < l.len() ==> trimmed(#[trigger] l[i]) == l[i] && l[i].len() > 0
    &&& forall|i: int, j: int|
        0 <= i < j < l.len() ==> root_key(#[trigger] l[i]) != root_key(#[trigger] l[j])
}

proof fn lemma_dedup_clean(l: Seq<Seq<char>>)
    ensures
        clean_distinct_roots(dedup_roots(l)),
    decreases l.len(),
{
    if l.len() > 0 {
        lemma_dedup_clean(l.drop_last());
        let d = dedup_roots(l.drop_last());
        let t = trimmed(l.last());
        crate::text::lemma_trimmed_idempotent(l.last());
        if !(t.len() == 0 || has_root(d, t)) {
            let u = d.push(t);
            assert forall|i: int| 0 <= i < u.len() implies trimmed(#[trigger] u[i]) == u[i] && u[i].len() > 0 by {
                if i < d.len() {
                    assert(u[i] == d[i]);
                }
            }
            assert forall|i: int, j: int| 0 <= i < j < u.len() implies root_key(#[trigger] u[i]) != root_key(#[trigger] u[j]) by {
                if j == u.len() - 1 {
                    assert(u[i] == d[i]);
                } else {
                    assert(u[i] == d[i] && u[j] == d[j]);
                }
            }
        }
    }
}

/// An extension in canonical form is already lower case and starts with a dot.
proof fn lemma_ext_norm_shape(e: Seq<char>)
    ensures
        lower(ext_norm(e)) == ext_norm(e),
        ext_norm(e).len() > 0,
        ext_norm(e)[0] == '.',
{
    assert(lower(ext_norm(e)) =~= ext_norm(e));
}

/// What every normalised configuration looks like: each mode's roots are
/// trimmed, non-empty and name distinct folders (no two share a root key);
/// the legacy single root is the first movie root (or empty); every
/// extension is ASCII lower case and starts with a dot.
pub proof fn lemma_normalized_shape(m: ConfigModel)
    ensures
        clean_distinct_roots(normalized(m).library_paths),
        clean_distinct_roots(normalized(m).image_library_paths),
        normalized(m).library_path == (if normalized(m).library_paths.len() > 0 {
            normalized(m).library_paths[0]
        } else {
            Seq::<char>::empty()
        }),
        forall|i: int|
            0 <= i < normalized(m).video_extensions.len() ==> {
                let e = #[trigger] normalized(m).video_extensions[i];
                lower(e) == e && e.len() > 0 && e[0] == '.'
            },
        forall|i: int|
            0 <= i < normalized(m).image_extensions.len() ==> {
                let e = #[trigger] normalized(m).image_extensions[i];
                lower(e) == e && e.len() > 0 && e[0] == '.'
            },
{
    lemma_dedup_clean(m.library_paths);
    lemma_dedup_clean(m.image_library_paths);
    let legacy = trimmed(m.library_path);
    crate::text::lemma_trimmed_idempotent(m.library_path);
    if dedup_roots(m.library_paths).len() == 0 && legacy.len() > 0 {
        assert(clean_distinct_roots(seq![legacy]));
    }
    assert forall|i: int| 0 <= i < normalized(m).video_extensions.len() implies {
        let e = #[trigger] normalized(m).video_extensions[i];
        lower(e) == e && e.len() > 0 && e[0] == '.'
    } by {
        lemma_ext_norm_shape(m.video_extensions[i]);
    }
    assert forall|i: int| 0 <= i < normalized(m).image_extensions.len() implies {
        let e = #[trigger] normalized(m).image_extensions[i];
        lower(e) == e && e.len() > 0 && e[0] == '.'
    } by {
        lemma_ext_norm_shape(m.image_extensions[i]);
    }
}

proof fn lemma_dedup_fixed(l: Seq<Seq<char>>)
    requires
        clean_distinct_roots(l),
    ensures
        dedup_roots(l) == l,
    decreases l.len(),
{
    if l.len() > 0 {
        let d = l.drop_last();
        assert(clean_distinct_roots(d)) by {
            assert forall|i: int| 0 <= i < d.len() implies trimmed(#[trigger] d[i]) == d[i] && d[i].len() > 0 by {
                assert(d[i] == l[i]);
            }
            assert forall|i: int, j: int| 0 <= i < j < d.len() implies root_key(#[trigger] d[i]) != root_key(#[trigger] d[j]) by {
                assert(d[i] == l[i] && d[j] == l[j]);
            }
        }
        lemma_dedup_fixed(d);
        let t = trimmed(l.last());
        assert(t == l[l.len() - 1]);
        assert(!has_root(d, t)) by {
            if has_root(d, t) {
                let i = choose|i: int| 0 <= i < d.len() && root_key(#[trigger] d[i]) == root_key(t);
                assert(d[i] == l[i]);
            }
        }
        assert(d.push(t) =~= l);
    }
}

proof fn lemma_ext_norm_idempotent(e: Seq<char>)
    ensures
        ext_norm(ext_norm(e)) == ext_norm(e),
{
    let l = lower(e);
    crate::text::lemma_lower_idempotent(e);
    if !(l.len() > 0 && l[0] == '.') {
        let x = seq!['.'] + l;
        assert(lower(x) =~= x);
    }
}

/// Normalising is idempotent: a normalised configuration is already normal.
pub proof fn lemma_normalize_idempotent(m: ConfigModel)
    ensures
        normalized(normalized(m)) == normalized(m),
{
    let n1 = normalized(m);
    let n2 = normalized(n1);
    lemma_dedup_clean(m.library_paths);
    lemma_dedup_clean(m.image_library_paths);
    let roots = normalized_movie_roots(m);
    let d = dedup_roots(m.library_paths);
    if d.len() == 0 && trimmed(m.library_path).len() > 0 {
        crate::text::lemma_trimmed_idempotent(m.library_path);
        assert(clean_distinct_roots(roots));
    }
    lemma_dedup_fixed(roots);
    lemma_dedup_fixed(dedup_roots(m.image_library_paths));
    if roots.len() == 0 {
        assert(trimmed(Seq::<char>::empty()) =~= Seq::<char>::empty());
    }
    assert(normalized_movie_roots(n1) == roots);
    assert forall|i: int| 0 <= i < n1.video_extensions.len() implies #[trigger] n2.video_extensions[i]
        == n1.video_extensions[i] by {
        lemma_ext_norm_idempotent(m.video_extensions[i]);
    }
    assert forall|i: int| 0 <= i < n1.image_extensions.len() implies #[trigger] n2.image_extensions[i]
        == n1.image_extensions[i] by {
        lemma_ext_norm_idempotent(m.image_extensions[i]);
    }
    assert(n2.video_extensions =~= n1.video_extensions);
    assert(n2.image_extensions =~= n1.image_extensions);
    assert(n2.library_paths =~= n1.library_paths);
    assert(n2.image_library_paths =~= n1.image_library_paths);
}

/// After adding a non-blank root, the mode lists that root (whether it was
/// already there or not).
pub proof fn lemma_add_root_listed(m: ConfigModel, mode: MediaMode, path: Seq<char>)
    requires
        trimmed(path).len() > 0,
    ensures
        has_root(stored_roots(after_add_root(m, mode, path), mode), path),
{
    let t = trimmed(path);
    crate::text::lemma_root_key_trimmed(path);
    let list = stored_roots(m, mode);
    if !has_root(list, t) {
        let l2 = list.push(t);
        crate::text::lemma_trimmed_idempotent(path);
        assert(l2.drop_last() =~= list);
        let d = dedup_roots(list);
        let dd = dedup_roots(l2);
        if has_root(d, t) {
            let i = choose|i: int| 0 <= i < d.len() && root_key(#[trigger] d[i]) == root_key(t);
            assert(dd[i] == d[i]);
        } else {
            assert(dd[dd.len() - 1] == t);
        }
        assert(dd.len() > 0);
    }
}

} // verus!
