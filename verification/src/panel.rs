//! Decisions of the control panel: whether it stays above the players,
//! what a tray command does, and slideshow stepping.

use vstd::prelude::*;
use crate::session::SessionPhase;
use crate::tray::TrayCommand;

verus! {

/// The panel must stay above the player windows: never when hidden to the
/// tray; always while movie players run in the background of image mode;
/// else only while a movie round plays and "pin while playing" is on.
pub open spec fn stays_above(
    hidden_to_tray: bool,
    pin_while_playing: bool,
    image_mode: bool,
    phase: SessionPhase,
    movie_in_background: bool,
) -> bool {
    if hidden_to_tray {
        false
    } else if movie_in_background {
        true
    } else {
        pin_while_playing && !image_mode && phase == SessionPhase::Playing
    }
}

pub fn should_stay_above_players(
    hidden_to_tray: bool,
    pin_while_playing: bool,
    image_mode: bool,
    phase: SessionPhase,
    movie_in_background: bool,
) -> (r: bool)
    ensures
        r == stays_above(hidden_to_tray, pin_while_playing, image_mode, phase, movie_in_background),
{
    if hidden_to_tray {
        return false;
    }
    if movie_in_background {
        return true;
    }
    pin_while_playing && !image_mode && phase == SessionPhase::Playing
}

/// How the panel's window level follows the players.
#[derive(Debug, Clone, Copy, PartialEq, Eq, Structural)]
pub enum PinStep {
    /// Drop the always-on-top level (it is on, or wanted by the shell).
    Release,
    /// Nothing to change.
    Keep,
    /// The window was minimized: show it, then pin it.
    ShowAndPin,
    /// Apply the always-on-top level.
    Pin,
    /// Refresh the top-most flag only.
    Refresh,
}

/// One frame of the pin keeping: `want` is whether the panel should stay
/// above the players; `minimized` whether it is minimized now and
/// `was_minimized` whether it was last frame; `applied` the level last set
/// and `desired` the pin the shell keeps. Returns the step and the new
/// `was_minimized`.
pub fn pin_step(want: bool, minimized: bool, was_minimized: bool, applied: bool, desired: bool) -> (r: (PinStep, bool))
    ensures
        !(want && !minimized) ==> r == (if applied || desired { PinStep::Release } else { PinStep::Keep }, minimized),
        want && !minimized && was_minimized ==> r == (PinStep::ShowAndPin, false),
        want && !minimized && !was_minimized ==> r == (if !applied || !desired {
            PinStep::Pin
        } else {
            PinStep::Refresh
        }, false),
{
    if !(want && !minimized) {
        let step = if applied || desired {
            PinStep::Release
        } else {
            PinStep::Keep
        };
        return (step, minimized);
    }
    if was_minimized {
        (PinStep::ShowAndPin, false)
    } else if !applied || !desired {
        (PinStep::Pin, false)
    } else {
        (PinStep::Refresh, false)
    }
}

/// What the panel does for a tray command (showing the window follows
/// every command but `Exit`).
#[derive(Debug, Clone, Copy, PartialEq, Eq, Structural)]
pub enum TrayAction {
    Show,
    Stop,
    Start,
    /// No slate yet: roll one (the user starts with a second click).
    RollPreview,
    /// A round is starting or stopping: only show the window.
    Wait,
    Reroll,
    Quit,
}

pub fn tray_action(cmd: TrayCommand, phase: SessionPhase, has_preview: bool) -> (a: TrayAction)
    ensures
        cmd == TrayCommand::Show ==> a == TrayAction::Show,
        cmd == TrayCommand::StartOrStop ==> a == (if phase == SessionPhase::Playing {
            TrayAction::Stop
        } else if phase == SessionPhase::Idle {
            if has_preview {
                TrayAction::Start
            } else {
                TrayAction::RollPreview
            }
        } else {
            TrayAction::Wait
        }),
        cmd == TrayCommand::Reroll ==> a == TrayAction::Reroll,
        cmd == TrayCommand::StopSession ==> a == TrayAction::Stop,
        cmd == TrayCommand::Exit ==> a == TrayAction::Quit,
{
    match cmd {
        TrayCommand::Show => TrayAction::Show,
        TrayCommand::StartOrStop => {
            if phase == SessionPhase::Playing {
                TrayAction::Stop
            } else if phase == SessionPhase::Idle {
                if has_preview {
                    TrayAction::Start
                } else {
                    TrayAction::RollPreview
                }
            } else {
                TrayAction::Wait
            }
        },
        TrayCommand::Reroll => TrayAction::Reroll,
        TrayCommand::StopSession => TrayAction::Stop,
        TrayCommand::Exit => TrayAction::Quit,
    }
}

/// The slide `step` places from `index` in a ring of `len` slides.
pub open spec fn ring_step(index: int, len: int, step: int) -> int {
    (index + step) % len
}

/// Steps the slideshow: an index past the end first restarts at 0.
pub fn slide_after(index: usize, len: usize, step: i32) -> (r: usize)
    requires
        0 < len <= i32::MAX,
    ensures
        r < len,
        r == ring_step(if index < len { index as int } else { 0 }, len as int, step as int),
{
    let start: usize = if index < len {
        index
    } else {
        0
    };
    let s = step as i64;
    if s >= 0 {
        let k = ((s as u64) % (len as u64)) as usize;
        proof {
            vstd::arithmetic::div_mod::lemma_add_mod_noop_right(start as int, step as int, len as int);
        }
        (start + k) % len
    } else {
        let k = (((-s) as u64) % (len as u64)) as usize;
        proof {
            vstd::arithmetic::div_mod::lemma_sub_mod_noop_right(start as int, (-s) as int, len as int);
            vstd::arithmetic::div_mod::lemma_add_mod_noop_right(start as int - k, len as int, len as int);
            vstd::arithmetic::div_mod::lemma_mod_self_0(len as int);
        }
        (start + (len - k)) % len
    }
}

} // verus!
