//! Thumbnail availability for slate previews, and where extracted frames
//! are cached.

use vstd::prelude::*;
use crate::text::{joined, join_file, hex16, hex16_string, chars_of, string_from_chars};
use crate::pathname::{file_stem, file_stem_of, file_name_bounds, dir_part, prefix_len, name_bounds};
use crate::potplayer::{first_found, first_existing, is_file};

verus! {

broadcast use vstd::std_specs::vec::group_vec_axioms;

/// Where a preview thumbnail stands.
#[derive(Debug, Clone, Copy, PartialEq, Eq, Structural)]
pub enum ThumbState {
    Pending,
    Ready,
    Missing,
}

/// Thumbnail bookkeeping per video path: its state, the image file once
/// ready, and whether (and with what result) `ffmpeg` was probed.
pub struct ThumbCache {
    pub states: Vec<(String, ThumbState)>,
    pub files: Vec<(String, String)>,
    pub ffmpeg_checked: bool,
    pub ffmpeg_ok: bool,
}

/// What a thumbnail request asks of the shell.
pub enum ThumbRequest {
    /// The video is pending, ready or known to have none.
    Known,
    /// Look for a thumbnail in the background; probe `ffmpeg` first when
    /// `check_ffmpeg`.
    Resolve { check_ffmpeg: bool },
}

/// The entries of `s` as a map: a later entry for a key replaces an earlier one.
pub open spec fn entry_map<V>(s: Seq<(String, V)>) -> Map<Seq<char>, V>
    decreases s.len(),
{
    if s.len() == 0 {
        Map::empty()
    } else {
        entry_map(s.drop_last()).insert(s.last().0@, s.last().1)
    }
}

impl ThumbCache {
    pub open spec fn state_map(&self) -> Map<Seq<char>, ThumbState> {
        entry_map(self.states@)
    }

    pub open spec fn file_map(&self) -> Map<Seq<char>, String> {
        entry_map(self.files@)
    }

    pub fn new() -> (c: Self)
        ensures
            c.state_map() == Map::<Seq<char>, ThumbState>::empty(),
            c.file_map() == Map::<Seq<char>, String>::empty(),
            !c.ffmpeg_checked,
            !c.ffmpeg_ok,
    {
        ThumbCache { states: Vec::new(), files: Vec::new(), ffmpeg_checked: false, ffmpeg_ok: false }
    }

    /// The thumbnail cache directory inside the data directory.
    pub fn cache_dir(data_dir: &str) -> (d: String)
        ensures
            d@ == joined(data_dir@, "thumbs"@),
    {
        join_file(data_dir, "thumbs")
    }

    /// Asks for the thumbnail of `video`: a video seen before needs nothing;
    /// a new one becomes pending and is to be resolved in the background.
    pub fn request(&mut self, video: &str) -> (r: ThumbRequest)
        ensures
            old(self).state_map().dom().contains(video@) ==> r is Known && *final(self) == *old(self),
            !old(self).state_map().dom().contains(video@) ==> {
                &&& r == (ThumbRequest::Resolve { check_ffmpeg: !old(self).ffmpeg_checked })
                &&& final(self).state_map() == old(self).state_map().insert(video@, ThumbState::Pending)
                &&& final(self).file_map() == old(self).file_map()
                &&& final(self).ffmpeg_checked == old(self).ffmpeg_checked
                &&& final(self).ffmpeg_ok == old(self).ffmpeg_ok
            },
    {
        if lookup_state(&self.states, video).is_some() {
            return ThumbRequest::Known;
        }
        self.states.push((String::from_str(video), ThumbState::Pending));
        assert(self.states@.drop_last() =~= old(self).states@);
        ThumbRequest::Resolve { check_ffmpeg: !self.ffmpeg_checked }
    }

    /// Records the result of probing for `ffmpeg`.
    pub fn ffmpeg_probed(&mut self, ok: bool)
        ensures
            final(self).ffmpeg_checked,
            final(self).ffmpeg_ok == ok,
            final(self).states == old(self).states,
            final(self).files == old(self).files,
    {
        self.ffmpeg_checked = true;
        self.ffmpeg_ok = ok;
    }

    /// The background lookup for `video` ended: with the thumbnail image
    /// found, or with none.
    pub fn resolved(&mut self, video: &str, thumb: Option<String>)
        ensures
            final(self).ffmpeg_checked == old(self).ffmpeg_checked,
            final(self).ffmpeg_ok == old(self).ffmpeg_ok,
            thumb matches Some(p) ==> final(self).state_map() == old(self).state_map().insert(video@, ThumbState::Ready)
                && final(self).file_map() == old(self).file_map().insert(video@, p),
            thumb is None ==> final(self).state_map() == old(self).state_map().insert(video@, ThumbState::Missing)
                && final(self).file_map() == old(self).file_map(),
    {
        match thumb {
            Some(p) => {
                self.files.push((String::from_str(video), p));
                assert(self.files@.drop_last() =~= old(self).files@);
                self.states.push((String::from_str(video), ThumbState::Ready));
                assert(self.states@.drop_last() =~= old(self).states@);
            },
            None => {
                self.states.push((String::from_str(video), ThumbState::Missing));
                assert(self.states@.drop_last() =~= old(self).states@);
            },
        }
    }

    /// The thumbnail image of `video`, once it is ready.
    pub fn path_if_ready(&self, video: &str) -> (r: Option<String>)
        ensures
            (self.state_map().dom().contains(video@) && self.state_map()[video@] == ThumbState::Ready
                && self.file_map().dom().contains(video@)) ==> r == Some(self.file_map()[video@]),
            !(self.state_map().dom().contains(video@) && self.state_map()[video@] == ThumbState::Ready
                && self.file_map().dom().contains(video@)) ==> r is None,
    {
        match lookup_state(&self.states, video) {
            Some(ThumbState::Ready) => lookup_file(&self.files, video),
            _ => None,
        }
    }
}

/// The state of the last entry for `key`, if any.
fn lookup_state(s: &Vec<(String, ThumbState)>, key: &str) -> (r: Option<ThumbState>)
    ensures
        entry_map(s@).dom().contains(key@) ==> r == Some(entry_map(s@)[key@]),
        !entry_map(s@).dom().contains(key@) ==> r is None,
{
    let k = String::from_str(key);
    let mut i: usize = s.len();
    assert(s@.take(s@.len() as int) =~= s@);
    while i > 0
        invariant
            0 <= i <= s@.len(),
            k@ == key@,
            entry_map(s@).dom().contains(key@) == entry_map(s@.take(i as int)).dom().contains(key@),
            entry_map(s@).dom().contains(key@) ==> entry_map(s@)[key@] == entry_map(s@.take(i as int))[key@],
        decreases i,
    {
        assert(s@.take(i as int).drop_last() =~= s@.take(i - 1));
        if s[i - 1].0 == k {
            return Some(s[i - 1].1);
        }
        i = i - 1;
    }
    assert(s@.take(0).len() == 0);
    None
}

/// The file of the last entry for `key`, if any.
fn lookup_file(s: &Vec<(String, String)>, key: &str) -> (r: Option<String>)
    ensures
        entry_map(s@).dom().contains(key@) ==> r == Some(entry_map(s@)[key@]),
        !entry_map(s@).dom().contains(key@) ==> r is None,
{
    let k = String::from_str(key);
    let mut i: usize = s.len();
    assert(s@.take(s@.len() as int) =~= s@);
    while i > 0
        invariant
            0 <= i <= s@.len(),
            k@ == key@,
            entry_map(s@).dom().contains(key@) == entry_map(s@.take(i as int)).dom().contains(key@),
            entry_map(s@).dom().contains(key@) ==> entry_map(s@)[key@] == entry_map(s@.take(i as int))[key@],
        decreases i,
    {
        assert(s@.take(i as int).drop_last() =~= s@.take(i - 1));
        if s[i - 1].0 == k {
            return Some(s[i - 1].1.clone());
        }
        i = i - 1;
    }
    assert(s@.take(0).len() == 0);
    None
}

} // verus!

verus! {

/// What `DefaultHasher::new()` (an unkeyed hasher) gives for a path string.
pub uninterp spec fn path_hash(s: Seq<char>) -> u64;

/// Hashes `s` with `std::collections::hash_map::DefaultHasher::new()`; the
/// hasher is created without keys, so the value depends on `s` alone
/// (`path_hash`).
#[verifier::external_body]
fn hash_path(s: &str) -> (h: u64)
    ensures
        h == path_hash(s@),
{
    let mut hasher = std::collections::hash_map::DefaultHasher::new();
    std::hash::Hash::hash(s, &mut hasher);
    std::hash::Hasher::finish(&hasher)
}

/// The cached frame of `video` inside `cache_dir`: the path hash in
/// sixteen hexadecimal digits, `.jpg`.
pub fn cache_path_for(cache_dir: &str, video: &str) -> (p: String)
    ensures
        p@ == joined(cache_dir@, hex16(path_hash(video@)) + ".jpg"@),
{
    let mut name = hex16_string(hash_path(video));
    name.append(".jpg");
    join_file(cache_dir, name.as_str())
}

/// The poster images looked for beside a video in `dir` with file stem
/// `stem`, in order: `<stem>.<ext>` then `poster.<ext>` for each of jpg,
/// jpeg, png and webp.
pub open spec fn sidecar_names(dir: Seq<char>, stem: Seq<char>) -> Seq<Seq<char>> {
    seq![
        dir + stem + ".jpg"@,
        dir + "poster.jpg"@,
        dir + stem + ".jpeg"@,
        dir + "poster.jpeg"@,
        dir + stem + ".png"@,
        dir + "poster.png"@,
        dir + stem + ".webp"@,
        dir + "poster.webp"@,
    ]
}

fn dir_plus(dir: &String, a: &str, b: &str) -> (r: String)
    ensures
        r@ == dir@ + a@ + b@,
{
    let mut r = dir.clone();
    r.append(a);
    r.append(b);
    r
}

/// The poster images to look for beside `video`, in order; `None` when the
/// path has no file stem.
pub fn sidecar_candidates(video: &str) -> (r: Option<Vec<String>>)
    ensures
        r is None <==> file_stem(video@) is None,
        r matches Some(v) ==> (file_stem(video@) matches Some(stem) && v.deep_view() == sidecar_names(
            dir_part(video@),
            stem,
        )),
{
    let stem = match file_stem_of(video) {
        Some(st) => st,
        None => return None,
    };
    let cs = chars_of(video);
    let dir = match file_name_bounds(&cs) {
        Some((k, _)) => string_from_chars(&cs.as_slice()[0..k]),
        None => string_from_chars(cs.as_slice()),
    };
    assert(dir@ == dir_part(video@)) by {
        if let Some((k, j)) = name_bounds(video@, prefix_len(video@)) {
            assert(cs@.subrange(0, k) =~= video@.subrange(0, k));
        }
    }
    let mut v: Vec<String> = Vec::new();
    v.push(dir_plus(&dir, stem.as_str(), ".jpg"));
    v.push(dir_plus(&dir, "poster", ".jpg"));
    v.push(dir_plus(&dir, stem.as_str(), ".jpeg"));
    v.push(dir_plus(&dir, "poster", ".jpeg"));
    v.push(dir_plus(&dir, stem.as_str(), ".png"));
    v.push(dir_plus(&dir, "poster", ".png"));
    v.push(dir_plus(&dir, stem.as_str(), ".webp"));
    v.push(dir_plus(&dir, "poster", ".webp"));
    proof {
        reveal_strlit("poster");
        reveal_strlit(".jpg");
        reveal_strlit(".jpeg");
        reveal_strlit(".png");
        reveal_strlit(".webp");
        reveal_strlit("poster.jpg");
        reveal_strlit("poster.jpeg");
        reveal_strlit("poster.png");
        reveal_strlit("poster.webp");
        assert(dir@ + "poster"@ + ".jpg"@ =~= dir@ + "poster.jpg"@);
        assert(dir@ + "poster"@ + ".jpeg"@ =~= dir@ + "poster.jpeg"@);
        assert(dir@ + "poster"@ + ".png"@ =~= dir@ + "poster.png"@);
        assert(dir@ + "poster"@ + ".webp"@ =~= dir@ + "poster.webp"@);
        assert(v.deep_view() =~= sidecar_names(dir@, stem@));
    }
    Some(v)
}

/// A poster image beside `video`: the first of `sidecar_candidates` that is
/// a file. Which ones are files depends on the disk, so the probe answers
/// are left open; the result is the first hit among them.
pub fn sidecar_image(video: &str) -> (r: Option<String>)
    ensures
        file_stem(video@) is None ==> r is None,
        file_stem(video@) matches Some(stem) ==> exists|found: Seq<bool>|
            found.len() == 8 && match r {
                Some(p) => #[trigger] first_found(sidecar_names(dir_part(video@), stem), found) == Some(p@),
                None => first_found(sidecar_names(dir_part(video@), stem), found) is None,
            },
{
    let cands = match sidecar_candidates(video) {
        Some(c) => c,
        None => return None,
    };
    let mut found: Vec<bool> = Vec::new();
    let mut i: usize = 0;
    while i < cands.len()
        invariant
            0 <= i <= cands@.len(),
            found@.len() == i,
        decreases cands@.len() - i,
    {
        found.push(is_file(cands[i].as_str()));
        i = i + 1;
    }
    first_existing(&cands, found.as_slice())
}

} // verus!
