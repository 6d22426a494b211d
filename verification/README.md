# blocktxt

A terminal falling-block puzzle game: SRS rotation with kicks, a 7-bag
randomizer, ghost piece, lock delay with a 15-move reset cap,
back-to-back 4-line scoring, DAS/ARR input, animated line clears and a
persistent high-score table.

The game logic is a Verus library whose behaviour is stated in contracts
and proved:

- `src/game/` — pieces and shapes, the board and line clearing, gravity,
  scoring and lock-delay rules, SRS rotation, the 7-bag randomizer, and
  the game state machine (`GameState::step`), with its standing
  invariant proved to be kept by every step.
- `src/input.rs` — the DAS/ARR key translator.
- `src/render/` — what the screen shows: the cell-by-cell board view,
  HUD text, overlay geometry and the color themes.
- `src/persistence.rs` — the high-score table and the naming and pruning
  rules of the score files.
- `src/session.rs`, `src/terminal.rs` — decisions of the main loop and the
  terminal lifecycle.
- `src/text.rs` — decimal digits, digit grouping and padding.

`app/` is the program around the library: command line, terminal,
signals, file I/O and drawing with ratatui.  `tests/` exercises the
library.

Times are clock readings and durations in nanoseconds, handed in by the
caller.
