//! Decisions of the main loop: what pending signals ask for, how much game
//! time a frame advances, what a finished game records, and where an
//! unseeded game gets its seed.  The loop itself, with its terminal and
//! clock, runs in the application.

use vstd::prelude::*;

use crate::game::state::{answers_dialog, GameState, Input, Phase};
use crate::persistence::HighScore;
use crate::text::push_str;

verus! {

/// Frame cadence: a 16 ms ceiling (about 60 frames a second).
pub const FRAME_DT_MS: u64 = 16;

/// How long one poll for input waits: 8 ms.
pub const POLL_DT_MS: u64 = 8;

/// The name high scores are recorded under.
pub const PLAYER_NAME: &'static str = "player";

/// What the loop does about the signals that arrived since the last tick.
#[derive(Debug, Clone, Copy, PartialEq, Eq, Structural)]
pub enum SignalAction {
    /// SIGINT or SIGTERM: leave the loop.
    Quit,
    /// SIGTSTP: restore the terminal, stop, and on return re-enter the
    /// terminal, forget a pending SIGCONT and resize on the next tick.
    Suspend,
    /// Carry on: re-enter the terminal after a SIGCONT, and fit the screen
    /// to the terminal's size after a SIGCONT or SIGWINCH.
    Continue { re_enter: bool, resize: bool },
}

/// The action for the pending flags, in priority order: shutdown, then
/// suspend, then continue and resize.
pub fn signal_action(shutdown: bool, tstp: bool, cont: bool, winch: bool) -> (a: SignalAction)
    ensures
        a == (if shutdown {
            SignalAction::Quit
        } else if tstp {
            SignalAction::Suspend
        } else {
            SignalAction::Continue { re_enter: cont, resize: cont || winch }
        }),
{
    if shutdown {
        SignalAction::Quit
    } else if tstp {
        SignalAction::Suspend
    } else {
        SignalAction::Continue { re_enter: cont, resize: cont || winch }
    }
}

/// The game time a frame advances: the time since the last frame, at most
/// two frame budgets (and nothing if the clock went backwards).
pub fn frame_dt(now: u64, last_frame: u64) -> (dt: u64)
    ensures
        dt == (if now <= last_frame {
            0
        } else if now - last_frame > 2 * FRAME_DT_MS * 1_000_000 {
            2 * FRAME_DT_MS * 1_000_000
        } else {
            now - last_frame
        }),
{
    let cap = 2 * FRAME_DT_MS * 1_000_000;
    let dt = now.saturating_sub(last_frame);
    if dt > cap {
        cap
    } else {
        dt
    }
}

/// The high-score entry a finished game records at `ts` (seconds past the
/// epoch): the player's name, the score, level and lines of `state`.
pub fn game_over_entry(state: &GameState, ts: u64) -> (h: HighScore)
    ensures
        h.name@ == PLAYER_NAME@,
        h.score == state.score,
        h.level == state.level,
        h.lines == state.lines_cleared,
        h.ts == ts,
{
    let mut name = String::new();
    push_str(&mut name, PLAYER_NAME);
    assert(name@ =~= PLAYER_NAME@);
    HighScore { name, score: state.score, level: state.level, lines: state.lines_cleared, ts }
}

/// The seed of an unseeded game, from the wall clock: the sub-second
/// nanoseconds mixed into the seconds by exclusive or.
pub fn seed_from_time(secs: u64, subsec_nanos: u32) -> (seed: u64)
    ensures
        seed == (subsec_nanos as u64 ^ secs),
{
    subsec_nanos as u64 ^ secs
}

/// The first answer to the reset-scores dialog among `inputs`, if any.
pub open spec fn first_answer(inputs: Seq<Input>) -> Option<Input>
    decreases inputs.len(),
{
    if inputs.len() == 0 {
        None
    } else if answers_dialog(inputs[0]) {
        Some(inputs[0])
    } else {
        first_answer(inputs.drop_first())
    }
}

/// Whether a step from `phase` with `inputs` confirms the reset-scores
/// dialog, so that the loop clears the high-score store and saves it: the
/// dialog is open and its first answer is yes.
pub fn clears_scores(phase: Phase, inputs: &[Input]) -> (yes: bool)
    ensures
        yes == (phase == Phase::ConfirmResetScores && first_answer(inputs@) == Some(
            Input::ConfirmYes,
        )),
{
    match phase {
        Phase::ConfirmResetScores => {},
        _ => return false,
    }
    let n = inputs.len();
    let mut i: usize = 0;
    assert(inputs@.subrange(0, n as int) =~= inputs@);
    while i < n
        invariant
            i <= n == inputs@.len(),
            phase == Phase::ConfirmResetScores,
            first_answer(inputs@) == first_answer(inputs@.subrange(i as int, n as int)),
        decreases n - i,
    {
        assert(inputs@.subrange(i as int, n as int).drop_first() =~= inputs@.subrange(
            i + 1,
            n as int,
        ));
        assert(inputs@.subrange(i as int, n as int)[0] == inputs@[i as int]);
        match inputs[i] {
            Input::ConfirmYes => return true,
            Input::ConfirmNo => return false,
            _ => {},
        }
        i = i + 1;
    }
    assert(inputs@.subrange(n as int, n as int) =~= Seq::<Input>::empty());
    false
}

} // verus!
