//! The terminal's lifecycle: which of raw mode, the alternate screen and
//! the hidden cursor are in effect, and which steps enter, re-enter or
//! restore them.  Entering goes raw mode → alternate screen → hidden
//! cursor; restoring undoes them in reverse.  A step that fails while
//! entering has the steps already taken rolled back.  The application
//! performs each step on the terminal and reports the ones that succeeded.
//!
//! The signal flags are set by signal handlers and read by the main loop.

use std::sync::atomic::AtomicBool;
use std::sync::Arc;

use vstd::prelude::*;

verus! {

/// The standard library's I/O error, carried by `TerminalError`.
#[verifier::external_type_specification]
#[verifier::external_body]
pub struct ExIoError(std::io::Error);

/// Errors that can occur during terminal setup.
#[derive(Debug)]
pub enum TerminalError {
    RawMode(std::io::Error),
    AlternateScreen(std::io::Error),
    HideCursor(std::io::Error),
}

/// One change to the terminal.
#[derive(Debug, Clone, Copy, PartialEq, Eq, Structural)]
pub enum TermStep {
    EnableRaw,
    EnterAltScreen,
    HideCursor,
    ShowCursor,
    LeaveAltScreen,
    DisableRaw,
}

/// All signal flags observed by the main loop each tick; a handler only
/// sets its flag.
#[derive(Clone)]
pub struct Flags {
    /// SIGINT or SIGTERM: clean shutdown requested.
    pub shutdown: Arc<AtomicBool>,
    /// SIGTSTP (Ctrl-Z): restore terminal then stop.
    pub tstp_pending: Arc<AtomicBool>,
    /// SIGCONT: re-enter raw/alt mode + force redraw.
    pub cont_pending: Arc<AtomicBool>,
    /// SIGWINCH: terminal resized, query new size + redraw.
    pub winch_pending: Arc<AtomicBool>,
}

/// Which terminal modes are in effect.
#[derive(Debug, Clone, Copy, PartialEq, Eq, Structural)]
pub struct TerminalGuard {
    /// Raw mode is enabled.
    pub raw_enabled: bool,
    /// The alternate screen is shown.
    pub alt_screen: bool,
    /// The cursor is hidden.
    pub cursor_hidden: bool,
}

/// The guard after `step` succeeded.
pub open spec fn after_step(g: TerminalGuard, step: TermStep) -> TerminalGuard {
    match step {
        TermStep::EnableRaw => TerminalGuard { raw_enabled: true, ..g },
        TermStep::EnterAltScreen => TerminalGuard { alt_screen: true, ..g },
        TermStep::HideCursor => TerminalGuard { cursor_hidden: true, ..g },
        TermStep::ShowCursor => TerminalGuard { cursor_hidden: false, ..g },
        TermStep::LeaveAltScreen => TerminalGuard { alt_screen: false, ..g },
        TermStep::DisableRaw => TerminalGuard { raw_enabled: false, ..g },
    }
}

/// The guard after all of `steps` succeeded, in order.
pub open spec fn after_steps(g: TerminalGuard, steps: Seq<TermStep>) -> TerminalGuard
    decreases steps.len(),
{
    if steps.len() == 0 {
        g
    } else {
        after_step(after_steps(g, steps.drop_last()), steps.last())
    }
}

impl TerminalGuard {
    /// Nothing entered yet.
    pub fn new() -> (g: Self)
        ensures
            !g.raw_enabled && !g.alt_screen && !g.cursor_hidden,
    {
        TerminalGuard { raw_enabled: false, alt_screen: false, cursor_hidden: false }
    }

    /// The steps that enter the terminal user interface, in order.
    pub fn enter_steps() -> (s: Vec<TermStep>)
        ensures
            s@ == seq![TermStep::EnableRaw, TermStep::EnterAltScreen, TermStep::HideCursor],
    {
        let s = vec![TermStep::EnableRaw, TermStep::EnterAltScreen, TermStep::HideCursor];
        assert(s@ =~= seq![TermStep::EnableRaw, TermStep::EnterAltScreen, TermStep::HideCursor]);
        s
    }

    /// The error for a failed entering step, carrying its cause; the other
    /// steps are never reported as failing.
    pub fn enter_error(step: TermStep, cause: std::io::Error) -> (e: TerminalError)
        ensures
            e == (match step {
                TermStep::EnableRaw => TerminalError::RawMode(cause),
                TermStep::EnterAltScreen => TerminalError::AlternateScreen(cause),
                _ => TerminalError::HideCursor(cause),
            }),
    {
        match step {
            TermStep::EnableRaw => TerminalError::RawMode(cause),
            TermStep::EnterAltScreen => TerminalError::AlternateScreen(cause),
            _ => TerminalError::HideCursor(cause),
        }
    }

    /// The steps that undo what is in effect, cursor first, raw mode last.
    pub open spec fn restore_seq(self) -> Seq<TermStep> {
        (if self.cursor_hidden {
            seq![TermStep::ShowCursor]
        } else {
            Seq::<TermStep>::empty()
        }) + (if self.alt_screen {
            seq![TermStep::LeaveAltScreen]
        } else {
            Seq::<TermStep>::empty()
        }) + (if self.raw_enabled {
            seq![TermStep::DisableRaw]
        } else {
            Seq::<TermStep>::empty()
        })
    }

    /// The steps that undo what is in effect, cursor first, raw mode last.
    pub fn restore_steps(&self) -> (s: Vec<TermStep>)
        ensures
            s@ == self.restore_seq(),
    {
        let mut s: Vec<TermStep> = Vec::new();
        if self.cursor_hidden {
            s.push(TermStep::ShowCursor);
        }
        if self.alt_screen {
            s.push(TermStep::LeaveAltScreen);
        }
        if self.raw_enabled {
            s.push(TermStep::DisableRaw);
        }
        assert(s@ =~= self.restore_seq());
        s
    }

    /// The steps that bring back what is not in effect, in entering order.
    pub fn re_enter_steps(&self) -> (s: Vec<TermStep>)
        ensures
            s@ == (if !self.raw_enabled {
                seq![TermStep::EnableRaw]
            } else {
                Seq::<TermStep>::empty()
            }) + (if !self.alt_screen {
                seq![TermStep::EnterAltScreen]
            } else {
                Seq::<TermStep>::empty()
            }) + (if !self.cursor_hidden {
                seq![TermStep::HideCursor]
            } else {
                Seq::<TermStep>::empty()
            }),
    {
        let mut s: Vec<TermStep> = Vec::new();
        if !self.raw_enabled {
            s.push(TermStep::EnableRaw);
        }
        if !self.alt_screen {
            s.push(TermStep::EnterAltScreen);
        }
        if !self.cursor_hidden {
            s.push(TermStep::HideCursor);
        }
        assert(s@ =~= (if !self.raw_enabled {
            seq![TermStep::EnableRaw]
        } else {
            Seq::<TermStep>::empty()
        }) + (if !self.alt_screen {
            seq![TermStep::EnterAltScreen]
        } else {
            Seq::<TermStep>::empty()
        }) + (if !self.cursor_hidden {
            seq![TermStep::HideCursor]
        } else {
            Seq::<TermStep>::empty()
        }));
        s
    }

    /// Records that `step` succeeded.
    pub fn record(&mut self, step: TermStep)
        ensures
            *final(self) == after_step(*old(self), step),
    {
        match step {
            TermStep::EnableRaw => self.raw_enabled = true,
            TermStep::EnterAltScreen => self.alt_screen = true,
            TermStep::HideCursor => self.cursor_hidden = true,
            TermStep::ShowCursor => self.cursor_hidden = false,
            TermStep::LeaveAltScreen => self.alt_screen = false,
            TermStep::DisableRaw => self.raw_enabled = false,
        }
    }

    /// The guard with nothing in effect.
    pub open spec fn new_spec() -> TerminalGuard {
        TerminalGuard { raw_enabled: false, alt_screen: false, cursor_hidden: false }
    }
}

/// Restoring leaves nothing in effect, whatever was.
pub proof fn lemma_restore_clears(g: TerminalGuard)
    ensures
        after_steps(g, g.restore_seq()) == TerminalGuard::new_spec(),
{
    reveal_with_fuel(after_steps, 4);
    let s = g.restore_seq();
    let e = Seq::<TermStep>::empty();
    if g.cursor_hidden {
        if g.alt_screen {
            if g.raw_enabled {
                assert(s.drop_last().drop_last().drop_last() =~= e);
                assert(s.drop_last().drop_last() =~= seq![TermStep::ShowCursor]);
                assert(s.drop_last() =~= seq![TermStep::ShowCursor, TermStep::LeaveAltScreen]);
            } else {
                assert(s.drop_last().drop_last() =~= e);
                assert(s.drop_last() =~= seq![TermStep::ShowCursor]);
            }
        } else if g.raw_enabled {
            assert(s.drop_last().drop_last() =~= e);
            assert(s.drop_last() =~= seq![TermStep::ShowCursor]);
        } else {
            assert(s.drop_last() =~= e);
        }
    } else if g.alt_screen {
        if g.raw_enabled {
            assert(s.drop_last().drop_last() =~= e);
            assert(s.drop_last() =~= seq![TermStep::LeaveAltScreen]);
        } else {
            assert(s.drop_last() =~= e);
        }
    } else if g.raw_enabled {
        assert(s.drop_last() =~= e);
    } else {
        assert(s =~= e);
    }
}

/// Entering and then restoring leaves the terminal as it was found.
pub proof fn lemma_enter_then_restore(g: TerminalGuard)
    requires
        g == TerminalGuard::new_spec(),
    ensures
        after_steps(
            after_steps(g, seq![TermStep::EnableRaw, TermStep::EnterAltScreen, TermStep::HideCursor]),
            seq![TermStep::ShowCursor, TermStep::LeaveAltScreen, TermStep::DisableRaw],
        ) == g,
{
    reveal_with_fuel(after_steps, 4);
    let e = seq![TermStep::EnableRaw, TermStep::EnterAltScreen, TermStep::HideCursor];
    let r = seq![TermStep::ShowCursor, TermStep::LeaveAltScreen, TermStep::DisableRaw];
    assert(e.drop_last().drop_last().drop_last() =~= Seq::<TermStep>::empty());
    assert(r.drop_last().drop_last().drop_last() =~= Seq::<TermStep>::empty());
}

} // verus!
