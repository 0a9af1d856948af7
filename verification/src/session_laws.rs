//! Properties of the session that span several operations.

use vstd::prelude::*;
use crate::config::MediaMode;
use crate::pathset::has_file;
use crate::picker::lemma_pick_guarantees;
use crate::text::file_key;
use crate::session::{SessionState, SessionPhase, eq_but_message, next_gen};
use crate::session_mode::{ModeSwitch, switched_mode};
use crate::session_play::{StartPlan, start_outcome};
use crate::session_scan::{scan_dropped, scan_begun};
use crate::session_slate::{banned_slot, rolled};

verus! {

/// The other media mode.
pub open spec fn other_mode(m: MediaMode) -> MediaMode {
    match m {
        MediaMode::Movie => MediaMode::Image,
        MediaMode::Image => MediaMode::Movie,
    }
}

proof fn lemma_next_gen_twice(g: u64)
    ensures
        next_gen(g) != g,
        next_gen(next_gen(g)) != g,
{
}

/// A movie launch cut short by "stop" can never commit, even when a new
/// round is started right afterwards.
pub proof fn lemma_stopped_launch_never_commits(
    a: SessionState,
    b: SessionState,
    c: SessionState,
    gen: u64,
    queue: Option<Seq<Seq<char>>>,
    plan: StartPlan,
)
    requires
        a.wf(),
        a.launch_current(gen),
        eq_but_message(b, SessionState { play_gen: next_gen(a.play_gen), phase: SessionPhase::Idle, ..a }),
        start_outcome(b, c, queue, plan),
    ensures
        !b.launch_current(gen),
        !c.launch_current(gen),
{
    lemma_next_gen_twice(gen);
}

/// Leaving movies while a launch is starting supersedes it: it can never
/// commit, and its players (if any started) are to be killed.
pub proof fn lemma_switch_cancels_launch(a: SessionState, b: SessionState, r: ModeSwitch, gen: u64)
    requires
        a.wf(),
        a.launch_current(gen),
        switched_mode(a, b, MediaMode::Image, r),
    ensures
        !b.launch_current(gen),
        b.play_gen != gen,
        b.phase == SessionPhase::Idle,
{
    lemma_next_gen_twice(gen);
}

/// Switching to the other mode and back gives back the slate, the
/// settings and the stored lists; a movie round that was playing comes back
/// with the same players.
pub proof fn lemma_mode_round_trip(
    a: SessionState,
    b: SessionState,
    c: SessionState,
    r1: ModeSwitch,
    r2: ModeSwitch,
)
    requires
        a.wf(),
        switched_mode(a, b, other_mode(a.mode()), r1),
        switched_mode(b, c, a.mode(), r2),
    ensures
        c.preview() == a.preview(),
        c.config@ == a.config@,
        c.lists_kept(&a),
        a.mode() == MediaMode::Movie && a.phase == SessionPhase::Playing && a.items@.len() > 0 ==> c.items
            == a.items && c.phase == SessionPhase::Playing,
{
    assert(c.config@ =~= a.config@);
}

/// A file moved from the slate to the blacklist never comes back in the
/// next roll (any copy of it included).
pub proof fn lemma_banned_slot_not_rerolled(
    a: SessionState,
    b: SessionState,
    c: SessionState,
    index: usize,
    r: Option<String>,
    any_stale: bool,
    started: bool,
)
    requires
        a.wf(),
        a.phase == SessionPhase::Idle,
        index < a.preview().len(),
        banned_slot(a, b, index, r),
        rolled(b, c, any_stale, started),
        !started,
        !b.scan_busy(b.mode()),
        b.lib_files().len() > 0,
    ensures
        forall|x: Seq<char>| #[trigger] c.preview().contains(x) ==> file_key(x) != file_key(a.preview()[index as int]),
{
    let p = a.preview()[index as int];
    lemma_pick_guarantees(
        b.lib_files(),
        b.ui_count as nat,
        b.config.avoid_recent,
        b.recent(),
        b.banned(),
        c.preview().to_multiset(),
    );
    assert forall|x: Seq<char>| #[trigger] c.preview().contains(x) implies file_key(x) != file_key(p) by {
        vstd::seq_lib::to_multiset_contains(c.preview(), x);
        let bl = b.banned();
        assert(bl[bl.len() - 1] == p);
        if file_key(x) == file_key(p) {
            assert(has_file(bl, x));
        }
    }
}

/// A scan that was cancelled can never install its result, even after a
/// new scan of the same mode started.
pub proof fn lemma_cancelled_scan_never_installs(
    a: SessionState,
    b: SessionState,
    mode: MediaMode,
    epoch: u64,
)
    requires
        a.scan_epoch_of(mode) == epoch,
        eq_but_message(b, scan_dropped(a, mode)),
    ensures
        b.scan_epoch_of(mode) != epoch,
        scan_begun(b, mode).scan_epoch_of(mode) != epoch,
{
    lemma_next_gen_twice(epoch);
}

/// Starting a new scan supersedes the one under way: the older result is
/// dropped when it arrives.
pub proof fn lemma_new_scan_supersedes(a: SessionState, mode: MediaMode, epoch: u64)
    requires
        a.scan_epoch_of(mode) == epoch,
    ensures
        scan_begun(a, mode).scan_epoch_of(mode) != epoch,
        scan_begun(a, mode).scan_busy(mode),
{
    lemma_next_gen_twice(epoch);
}

} // verus!
