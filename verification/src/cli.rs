//! The command-line options.

use vstd::prelude::*;

verus! {

/// blocktxt — terminal falling-block puzzle game.
#[derive(Debug, Clone)]
pub struct Args {
    /// Seed for reproducible piece sequences.
    pub seed: Option<u64>,
    /// Force-disable color output (supplements the NO_COLOR env variable).
    pub no_color: bool,
    /// Prompt in cooked mode to delete the high-score file, then exit.
    pub reset_scores: bool,
    /// Color palette selection.
    pub theme: String,
    /// Panic after entering the terminal user interface (for signal tests).
    pub crash_for_test: bool,
}

} // verus!
