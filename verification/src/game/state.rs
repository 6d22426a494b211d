//! Core game state machine.
//!
//! `GameState::step(dt, now, inputs)` is the single authoritative mutation
//! point for all game logic. No I/O occurs here; rendering and persistence
//! read `&GameState` separately.  Time is handed in by the caller: `dt` is
//! the time elapsed since the previous step and `now` the current reading
//! of the caller's clock, both in nanoseconds.

use std::collections::VecDeque;

use rand::rngs::StdRng;
use rand::SeedableRng;
use vstd::prelude::*;

use crate::game::bag::Bag;
use crate::game::board::{cleared_cells, full_row_indices, full_rows_from, placed_cells, row_full, row_of, Board};
use crate::game::piece::{spawn, spawn_origin, Piece, PieceKind, Rotation};
use crate::game::rules::{
    lemma_gravity_range, gravity_duration, gravity_nanos, level_after_lines, level_for_lines, line_clear_result,
    score_line_clear, soft_drop_effective_dt, soft_drop_nanos, after_reset, LockState, LOCK_DELAY,
    NANOS_PER_MILLI, RESET_CAP,
};
use crate::game::srs::{rotate, rotation_result, RotationDir};

verus! {

// ── Line-clear animation constants ───────────────────────────────────────────

/// Duration of the flash phase (phase 1): 0–100 ms.
pub const ANIM_FLASH_MS: u64 = 100;

/// Duration of the dim phase (phase 2): 100–200 ms.
pub const ANIM_DIM_MS: u64 = 100;

/// Total animation budget: ≤ 200 ms.
pub const ANIM_TOTAL_MS: u64 = ANIM_FLASH_MS + ANIM_DIM_MS;

// ── Spawn-fade animation constants ────────────────────────────────────────────

/// Phase 1 of spawn fade: 0–40 ms at 60% intensity.
pub const SPAWN_FADE1_MS: u64 = 40;

/// Phase 2 of spawn fade: 40–80 ms at 80% intensity.
pub const SPAWN_FADE2_MS: u64 = 40;

/// Total spawn-fade budget: 80 ms.
pub const SPAWN_FADE_TOTAL_MS: u64 = SPAWN_FADE1_MS + SPAWN_FADE2_MS;

// ── Score rollup animation constant ───────────────────────────────────────────

/// Duration over which the displayed score ticks up: 250 ms.
pub const SCORE_ROLLUP_MS: u64 = 250;

// ── Game-over zoom animation constant ─────────────────────────────────────────

/// Duration of the game-over overlay zoom-in: 200 ms.
pub const GAMEOVER_ZOOM_MS: u64 = 200;

/// Number of next-pieces kept in the preview queue.
pub const NEXT_QUEUE_LEN: usize = 5;

// ── Line-clear animation state ────────────────────────────────────────────────

/// Visual phase of the line-clear animation.
///
/// Phase 1 (0–100 ms): cleared rows shown flashed.
/// Phase 2 (100–200 ms): rows shown dimmer.
/// Phase 3 (≥ 200 ms): rows removed, cells above shift down.
#[derive(Debug, Clone, Copy, PartialEq, Eq, Structural)]
pub enum LineClearPhase {
    /// Flash phase: `elapsed` < 100 ms.
    Flash,
    /// Dim/transition phase: 100 ms ≤ `elapsed` < 200 ms.
    Dim,
}

/// Animation state held in `GameState` while a line-clear plays out.
#[derive(Debug, Clone)]
pub struct LineClearAnim {
    /// Board row indices (0-based, absolute) being animated.
    pub rows: Vec<usize>,
    /// When the animation began (clock reading, ns).
    pub started_at: u64,
    /// Current visual phase.
    pub phase: LineClearPhase,
    /// Board snapshot before clearing (contains the full rows for rendering).
    pub board_snapshot: Board,
    /// Deferred line count.
    pub pending_count: u8,
    /// Level before this clear (for scoring).
    pub pending_level_before: u8,
    /// B2B state before this clear (for scoring).
    pub pending_b2b_active: bool,
}

// ── Spawn-fade animation state ────────────────────────────────────────────────

/// Spawn-fade animation: tracks how long the newly spawned piece has existed.
///
/// - 0–40 ms  → render at 60% intensity.
/// - 40–80 ms → render at 80% intensity.
/// - ≥ 80 ms  → full intensity; animation done.
#[derive(Debug, Clone, Copy, PartialEq, Eq)]
pub struct SpawnAnim {
    /// When the piece became active (clock reading, ns).
    pub started_at: u64,
    /// The piece kind being faded in.
    pub kind: PieceKind,
}

// ── Score rollup state ────────────────────────────────────────────────────────

/// Tracks the rolling display score shown in the HUD.
///
/// When a line-clear grants `score_delta`, `target` jumps immediately while
/// `current` ticks toward it over `SCORE_ROLLUP_MS` ms.
#[derive(Debug, Clone, Copy, PartialEq, Eq)]
pub struct ScoreDisplay {
    /// The value currently rendered in the HUD.
    pub current: u32,
    /// The value we are rolling toward.
    pub target: u32,
    /// When the target last moved (clock reading, ns).
    pub last_tick: u64,
}

/// How far `current` moves toward `target` in one tick of `dt` nanoseconds:
/// `remaining × whole_ms(dt) / 250`, at least 1 and at most the remaining
/// distance.
pub open spec fn rollup_advance(current: u32, target: u32, dt: u64) -> int {
    let remaining = target - current;
    let raw = remaining * (dt / 1_000_000) / 250;
    let at_least_one = if raw < 1 {
        1
    } else {
        raw
    };
    if at_least_one > remaining {
        remaining
    } else {
        at_least_one
    }
}

impl ScoreDisplay {
    /// Create a new display starting at zero.
    fn new(now: u64) -> (d: Self)
        ensures
            d == (ScoreDisplay { current: 0, target: 0, last_tick: now }),
    {
        ScoreDisplay { current: 0, target: 0, last_tick: now }
    }

    /// The multiplication in `tick` stays within 64 bits.
    pub open spec fn tick_fits(self, dt: u64) -> bool {
        self.current < self.target ==> (self.target - self.current) * (dt / 1_000_000)
            <= u64::MAX
    }

    /// Advance `current` toward `target` proportional to `dt`.
    ///
    /// Uses a linear interpolation: each millisecond of `dt` advances
    /// `current` by `(delta / SCORE_ROLLUP_MS)` points (at least 1 if there
    /// is any remaining delta, to guarantee eventual convergence).
    pub fn tick(&mut self, dt: u64)
        requires
            old(self).tick_fits(dt),
        ensures
            final(self).target == old(self).target,
            final(self).last_tick == old(self).last_tick,
            old(self).current >= old(self).target ==> final(self).current == old(self).target,
            old(self).current < old(self).target ==> final(self).current == old(self).current
                + rollup_advance(old(self).current, old(self).target, dt),
    {
        if self.current >= self.target {
            self.current = self.target;
            return ;
        }
        let remaining = self.target - self.current;
        let rollup_ms: u64 = SCORE_ROLLUP_MS;
        let dt_ms = dt / NANOS_PER_MILLI;
        let product = remaining as u64 * dt_ms;
        let raw = product / rollup_ms;
        let advance: u32 = if raw < 1 {
            1
        } else if raw > remaining as u64 {
            remaining
        } else {
            raw as u32
        };
        self.current = self.current + advance;
    }

    /// Jump `target` by `delta` (saturating) and record the current tick time.
    pub fn add_target(&mut self, delta: u32, now: u64)
        ensures
            final(self).current == old(self).current,
            final(self).target == (if old(self).target + delta > u32::MAX {
                u32::MAX as int
            } else {
                old(self).target + delta
            }),
            final(self).last_tick == now,
    {
        self.target = self.target.saturating_add(delta);
        self.last_tick = now;
    }
}

// ── Game-over zoom state ──────────────────────────────────────────────────────

/// Tracks the zoom-in animation for the game-over overlay.
///
/// The overlay scale goes from 0.5 → 1.0 over `GAMEOVER_ZOOM_MS` ms.
#[derive(Debug, Clone, Copy, PartialEq, Eq)]
pub struct GameOverZoom {
    /// When the game-over phase began (clock reading, ns).
    pub started_at: u64,
}

// ── Public enums ──────────────────────────────────────────────────────────────

/// Player inputs consumed by `GameState::step`.
#[derive(Debug, Clone, Copy, PartialEq, Eq, Structural)]
pub enum Input {
    MoveLeft,
    MoveRight,
    RotateCw,
    RotateCcw,
    SoftDropOn,
    SoftDropOff,
    HardDrop,
    Pause,
    Restart,
    /// Start the game from the Title screen.
    StartGame,
    /// Confirm reset-scores dialog (y).
    ConfirmYes,
    /// Cancel reset-scores dialog (n).
    ConfirmNo,
    /// Hold the active piece.
    Hold,
}

/// Reason for the game ending.
#[derive(Debug, Clone, Copy, PartialEq, Eq, Structural)]
pub enum GameOverReason {
    /// The spawn zone was occupied when a new piece tried to spawn.
    BlockOut,
    /// A piece locked while entirely above the visible playfield (row < 20).
    LockOut,
}

/// Events emitted by `GameState::step` for the application layer.
#[derive(Debug, Clone, Copy, PartialEq, Eq, Structural)]
pub enum Event {
    LinesCleared { count: u8, b2b: bool, level_before: u8, level_after: u8, score_delta: u32 },
    PieceLocked,
    GameOver(GameOverReason),
    Paused,
    Resumed,
}

/// High-level game phase.
#[derive(Debug, Clone, Copy, PartialEq, Eq, Structural)]
pub enum Phase {
    /// Attract / title screen. No active piece.
    Title,
    Playing,
    Paused,
    GameOver { reason: GameOverReason },
    /// Confirmation dialog: reset high scores?
    ConfirmResetScores,
}

/// The standard generator of `rand`, `rand::rngs::StdRng`, carried by the
/// bag as an opaque value.
#[verifier::external_type_specification]
#[verifier::external_body]
pub struct ExStdRng(StdRng);

/// Calls `rand::rngs::StdRng::seed_from_u64`.  The generator is opaque
/// here, so nothing is claimed of it: not the numbers it will produce, and
/// not that equal seeds give equal generators (which `rand` documents).
#[verifier::external_body]
fn seeded_rng(seed: u64) -> StdRng {
    StdRng::seed_from_u64(seed)
}

// ── GameState ─────────────────────────────────────────────────────────────────

/// All mutable game state.  Mutation only via `step`; reads are public.
pub struct GameState {
    pub board: Board,
    pub active: Option<Piece>,
    pub next_queue: VecDeque<PieceKind>,
    pub score: u32,
    pub level: u8,
    pub lines_cleared: u32,
    pub b2b_active: bool,
    pub phase: Phase,
    /// The seed this game was started with; reused on Restart so bag order
    /// is reproducible.
    pub seed: u64,
    /// Hold slot: the kind of the piece currently held, if any.
    pub hold: Option<PieceKind>,
    /// True after a successful hold; prevents holding again until the
    /// current active piece locks (one hold per piece cycle).
    pub hold_used_this_cycle: bool,
    /// The piece randomizer.
    pub bag: Bag<StdRng>,
    pub lock_state: Option<LockState>,
    /// Whether soft drop is held.
    pub soft_drop_held: bool,
    /// Time (ns) accumulated toward the next gravity step.
    pub gravity_acc: u64,
    /// Active line-clear animation, if any.
    ///
    /// While `Some`, `board` still contains the full rows (for rendering).
    pub line_clear_anim: Option<LineClearAnim>,
    /// Active spawn-fade animation, if any.
    pub spawn_anim: Option<SpawnAnim>,
    /// Rolling score display for the HUD.
    pub score_display: ScoreDisplay,
    /// Game-over zoom animation, if any.
    pub gameover_zoom: Option<GameOverZoom>,
    /// Clock reading at creation (ns).
    pub last_tick: u64,
}

impl GameState {
    /// The private parts are consistent: the bag keeps its invariant and
    /// the gravity accumulator stays below one cell time.
    pub open spec fn internal_ok(&self) -> bool {
        &&& self.bag.wf()
        &&& self.gravity_acc <= 1_239_157_372
    }

    /// Whether soft drop is currently held.
    pub open spec fn soft_dropping(&self) -> bool {
        self.soft_drop_held
    }

    /// The gravity accumulator (ns).
    pub open spec fn gravity_accumulated(&self) -> u64 {
        self.gravity_acc
    }

    /// The state on the title screen, as left by a reset at `now`.
    pub open spec fn is_title_reset(&self, seed: u64, now: u64) -> bool {
        &&& self.board@ == Board::empty_cells()
        &&& self.active is None
        &&& self.next_queue@.len() == 0
        &&& self.score == 0
        &&& self.level == 1
        &&& self.lines_cleared == 0
        &&& !self.b2b_active
        &&& self.phase == Phase::Title
        &&& self.seed == seed
        &&& self.hold is None
        &&& !self.hold_used_this_cycle
        &&& self.lock_state is None
        &&& !self.soft_dropping()
        &&& self.gravity_accumulated() == 0
        &&& self.line_clear_anim is None
        &&& self.spawn_anim is None
        &&& self.score_display == (ScoreDisplay { current: 0, target: 0, last_tick: now })
        &&& self.gameover_zoom is None
        &&& self.bag.drawn() == Seq::<PieceKind>::empty()
    }

    /// Create a new game seeded with `seed`, on the title screen, with the
    /// clock reading `now`.
    pub fn new(seed: u64, now: u64) -> (s: Self)
        ensures
            s.internal_ok(),
            s.consistent(),
            s.is_title_reset(seed, now),
            s.last_tick == now,
    {
        let rng = seeded_rng(seed);
        let bag = Bag::new(rng);
        GameState {
            board: Board::empty(),
            active: None,
            next_queue: VecDeque::new(),
            score: 0,
            level: 1,
            lines_cleared: 0,
            b2b_active: false,
            phase: Phase::Title,
            seed,
            hold: None,
            hold_used_this_cycle: false,
            bag,
            lock_state: None,
            soft_drop_held: false,
            gravity_acc: 0,
            line_clear_anim: None,
            spawn_anim: None,
            score_display: ScoreDisplay::new(now),
            gameover_zoom: None,
            last_tick: now,
        }
    }
}

/// The state entered on game over: phase, zoom start, and the displayed
/// score snapped to its target.
pub open spec fn game_over_display(d: ScoreDisplay) -> ScoreDisplay {
    ScoreDisplay { current: d.target, target: d.target, last_tick: d.last_tick }
}

impl GameState {
    /// `post` is `pre` turned into a game over for `reason` at `now`.
    pub open spec fn game_over_of(pre: GameState, reason: GameOverReason, now: u64) -> GameState {
        GameState {
            phase: Phase::GameOver { reason },
            gameover_zoom: Some(GameOverZoom { started_at: now }),
            score_display: game_over_display(pre.score_display),
            ..pre
        }
    }

    /// `post` is what a return to the title screen at `now` leaves behind.
    pub open spec fn title_rel(pre: GameState, now: u64, post: GameState) -> bool {
        &&& post.is_title_reset(pre.seed, now)
        &&& post.last_tick == pre.last_tick
        &&& post.internal_ok()
    }

    /// `post` is a freshly started round at `now`: empty board, zeroed
    /// counters, five pieces queued and a sixth active, all drawn in order
    /// from a fresh bag.
    pub open spec fn round_rel(pre: GameState, now: u64, post: GameState) -> bool {
        &&& post.internal_ok()
        &&& post.phase == pre.phase
        &&& post.seed == pre.seed
        &&& post.last_tick == pre.last_tick
        &&& post.board@ == Board::empty_cells()
        &&& post.next_queue@.len() == NEXT_QUEUE_LEN
        &&& post.score == 0
        &&& post.level == 1
        &&& post.lines_cleared == 0
        &&& !post.b2b_active
        &&& post.hold is None
        &&& !post.hold_used_this_cycle
        &&& post.lock_state is None
        &&& !post.soft_drop_held
        &&& post.gravity_acc == 0
        &&& post.line_clear_anim is None
        &&& post.score_display == (ScoreDisplay { current: 0, target: 0, last_tick: now })
        &&& post.gameover_zoom is None
        &&& exists|k: PieceKind|
            {
                &&& post.active == Some(spawn_piece(k))
                &&& post.spawn_anim == Some(SpawnAnim { started_at: now, kind: k })
                &&& post.bag.drawn() == seq![k] + post.next_queue@
            }
    }

    /// `post` is `pre` after the next queued piece was brought into play at
    /// `now`, with the events `ev`.  The queue is refilled from the bag; the
    /// new piece either spawns (with a fade-in) or, when its spawn cells are
    /// taken, the game ends with a block-out.
    pub open spec fn spawn_rel(pre: GameState, now: u64, post: GameState, ev: Seq<Event>) -> bool {
        if pre.next_queue@.len() == 0 {
            post == pre && ev == Seq::<Event>::empty()
        } else {
            let k = pre.next_queue@[0];
            let piece = spawn_piece(k);
            let refilled = GameState { next_queue: post.next_queue, bag: post.bag, ..pre };
            &&& post.bag.wf()
            &&& post.bag.drawn().len() == pre.bag.drawn().len() + 1
            &&& post.bag.drawn().drop_last() == pre.bag.drawn()
            &&& post.next_queue@ == pre.next_queue@.drop_first().push(post.bag.drawn().last())
            &&& if !pre.board.fits(piece) {
                &&& post == Self::game_over_of(refilled, GameOverReason::BlockOut, now)
                &&& ev == seq![Event::GameOver(GameOverReason::BlockOut)]
            } else {
                &&& post == GameState {
                    spawn_anim: Some(SpawnAnim { started_at: now, kind: k }),
                    active: Some(piece),
                    ..refilled
                }
                &&& ev == Seq::<Event>::empty()
            }
        }
    }
}

/// The freshly spawned piece of `kind`.
pub open spec fn spawn_piece(kind: PieceKind) -> Piece {
    Piece { kind, rotation: Rotation::Zero, origin: spawn_origin(kind) }
}

/// Every freshly spawned piece fits an empty board.
pub proof fn lemma_spawn_fits_empty(b: Board, kind: PieceKind)
    requires
        b@ == Board::empty_cells(),
    ensures
        b.fits(spawn_piece(kind)),
{
    let p = spawn_piece(kind);
    crate::game::piece::lemma_shape_bounds(kind, Rotation::Zero);
    assert forall|i: int| 0 <= i < 4 implies !b.occupied(
        #[trigger] p.cell_seq()[i].0,
        p.cell_seq()[i].1,
    ) by {
        let c = p.cell_seq()[i];
        assert(Board::in_bounds(c.0, c.1));
        assert(b.cell(c.0, c.1) is None);
    }
}

impl GameState {
    /// The game's standing invariant.  The active piece never overlaps the
    /// stack or leaves the board, and there is none while a line clear
    /// plays out; a used hold has a held piece; the level follows the
    /// cleared lines; on the title screen (and in its dialog) nothing is in
    /// play and the score is zero; while playing or paused, five pieces are
    /// queued and either a piece is in play or a line clear runs.
    pub open spec fn consistent(&self) -> bool {
        &&& self.active matches Some(p) ==> self.board.fits(p)
        &&& self.line_clear_anim is Some ==> self.active is None
        &&& self.hold_used_this_cycle ==> self.hold is Some
        &&& self.level == level_for_lines(self.lines_cleared)
        &&& match self.phase {
            Phase::Title | Phase::ConfirmResetScores => {
                &&& self.score == 0
                &&& self.active is None
                &&& self.line_clear_anim is None
            },
            Phase::Playing | Phase::Paused => {
                &&& self.next_queue@.len() == NEXT_QUEUE_LEN
                &&& (self.active is Some || self.line_clear_anim is Some)
            },
            Phase::GameOver { .. } => true,
        }
    }
}

impl GameState {
    /// Return to the Title screen. No active piece; ready for a new round.
    fn reset_to_title(&mut self, now: u64)
        ensures
            Self::title_rel(*old(self), now, *final(self)),
            final(self).consistent(),
    {
        self.board = Board::empty();
        self.active = None;
        self.next_queue = VecDeque::new();
        self.score = 0;
        self.level = 1;
        self.lines_cleared = 0;
        self.b2b_active = false;
        self.phase = Phase::Title;
        self.hold = None;
        self.hold_used_this_cycle = false;
        let rng = seeded_rng(self.seed);
        self.bag = Bag::new(rng);
        self.lock_state = None;
        self.soft_drop_held = false;
        self.gravity_acc = 0;
        self.line_clear_anim = None;
        self.spawn_anim = None;
        self.score_display = ScoreDisplay::new(now);
        self.gameover_zoom = None;
    }

    /// Initialise a fresh game round: fill the next queue and spawn the first
    /// piece.
    fn init_round(&mut self, now: u64)
        ensures
            Self::round_rel(*old(self), now, *final(self)),
            old(self).phase == Phase::Playing ==> final(self).consistent(),
    {
        let rng = seeded_rng(self.seed);
        let mut bag = Bag::new(rng);
        let mut next_queue: VecDeque<PieceKind> = VecDeque::new();
        let mut i: usize = 0;
        while i < NEXT_QUEUE_LEN
            invariant
                i <= NEXT_QUEUE_LEN,
                bag.wf(),
                next_queue@.len() == i,
                bag.drawn() == next_queue@,
            decreases NEXT_QUEUE_LEN - i,
        {
            let k = bag.next().unwrap();
            next_queue.push_back(k);
            i = i + 1;
        }
        let first_kind = next_queue.pop_front().unwrap();
        let k = bag.next().unwrap();
        next_queue.push_back(k);
        assert(bag.drawn() =~= seq![first_kind] + next_queue@);
        let active = spawn(first_kind);
        self.board = Board::empty();
        self.active = Some(active);
        self.next_queue = next_queue;
        self.score = 0;
        self.level = 1;
        self.lines_cleared = 0;
        self.b2b_active = false;
        self.hold = None;
        self.hold_used_this_cycle = false;
        self.bag = bag;
        self.lock_state = None;
        self.soft_drop_held = false;
        self.gravity_acc = 0;
        self.line_clear_anim = None;
        self.spawn_anim = Some(SpawnAnim { started_at: now, kind: first_kind });
        self.score_display = ScoreDisplay::new(now);
        self.gameover_zoom = None;
        assert(self.active == Some(spawn_piece(first_kind)));
        assert(self.bag.drawn() == seq![first_kind] + self.next_queue@);
        proof {
            lemma_spawn_fits_empty(self.board, first_kind);
        }
    }

    /// End the game for `reason` at `now` and report it.
    fn enter_game_over(&mut self, reason: GameOverReason, now: u64, events: &mut Vec<Event>)
        ensures
            *final(self) == Self::game_over_of(*old(self), reason, now),
            final(events)@ == old(events)@.push(Event::GameOver(reason)),
    {
        self.phase = Phase::GameOver { reason };
        self.gameover_zoom = Some(GameOverZoom { started_at: now });
        // Snap the rolling display to its target so the HUD behind the
        // overlay shows the final score immediately.
        self.score_display.current = self.score_display.target;
        events.push(Event::GameOver(reason));
    }

    /// Bring the next queued piece into play.
    fn spawn_next(&mut self, now: u64, events: &mut Vec<Event>)
        requires
            old(self).internal_ok(),
        ensures
            final(self).internal_ok(),
            final(events)@.len() >= old(events)@.len(),
            final(events)@.subrange(0, old(events)@.len() as int) == old(events)@,
            Self::spawn_rel(
                *old(self),
                now,
                *final(self),
                final(events)@.subrange(old(events)@.len() as int, final(events)@.len() as int),
            ),
            final(self).active == old(self).active || (final(self).active matches Some(p)
                && p.near_board()),
            final(self).score == old(self).score,
            final(self).lock_state == old(self).lock_state,
            old(self).active is None ==> (final(self).active matches Some(p) ==> final(self).board.fits(p)),
            old(self).active is None && old(self).next_queue@.len() > 0 && final(self).active is None
                ==> final(self).phase is GameOver,
    {
        let ghost ev0 = events@;
        let ghost pre = *self;
        if self.next_queue.len() == 0 {
            assert(events@.subrange(ev0.len() as int, ev0.len() as int) =~= Seq::<Event>::empty());
            assert(events@.subrange(0, ev0.len() as int) =~= ev0);
            return ;
        }
        let kind = self.next_queue.pop_front().unwrap();
        let k2 = self.bag.next().unwrap();
        self.next_queue.push_back(k2);
        assert(self.next_queue@ =~= pre.next_queue@.drop_first().push(self.bag.drawn().last()));
        assert(self.bag.drawn().drop_last() =~= pre.bag.drawn());
        let piece = spawn(kind);
        if self.board.collides(&piece) {
            self.enter_game_over(GameOverReason::BlockOut, now, events);
            assert(events@.subrange(ev0.len() as int, events@.len() as int) =~= seq![
                Event::GameOver(GameOverReason::BlockOut),
            ]);
            assert(events@.subrange(0, ev0.len() as int) =~= ev0);
            return ;
        }
        self.spawn_anim = Some(SpawnAnim { started_at: now, kind });
        self.active = Some(piece);
        assert(events@.subrange(ev0.len() as int, events@.len() as int) =~= Seq::<Event>::empty());
        assert(events@.subrange(0, ev0.len() as int) =~= ev0);
    }
}

/// Every cell of `p` is above the visible playfield (row < 20).
pub open spec fn above_visible(p: Piece) -> bool {
    forall|i: int| 0 <= i < 4 ==> #[trigger] p.cell_seq()[i].1 < 20
}

impl GameState {
    /// `pre` with the active piece moved to `c`; a grounded move restarts
    /// the lock timer (subject to the reset cap).
    pub open spec fn moved_to(pre: GameState, c: Piece) -> GameState {
        GameState {
            active: Some(c),
            lock_state: if pre.board.grounded(c) && pre.lock_state is Some {
                Some(after_reset(pre.lock_state->0))
            } else {
                pre.lock_state
            },
            ..pre
        }
    }

    /// The state after trying to shift the active piece by `delta` columns.
    pub open spec fn shift_result(pre: GameState, delta: int) -> GameState {
        match pre.active {
            None => pre,
            Some(p) => if pre.board.fits(p.shifted(delta, 0)) {
                Self::moved_to(pre, p.shifted(delta, 0))
            } else {
                pre
            },
        }
    }

    /// The state after trying to rotate the active piece.
    pub open spec fn rotate_result(pre: GameState, dir: RotationDir) -> GameState {
        match pre.active {
            None => pre,
            Some(p) => match rotation_result(p, dir, pre.board) {
                Ok(q) => Self::moved_to(pre, q),
                Err(_) => pre,
            },
        }
    }

    /// `post` is `pre` after locking the active piece at `now`, with events
    /// `ev`.  A piece wholly above row 20 ends the game (lock-out); otherwise
    /// it is written into the board, and either the next piece spawns (no
    /// full row) or the line-clear animation starts.
    pub open spec fn lock_rel(pre: GameState, now: u64, post: GameState, ev: Seq<Event>) -> bool {
        match pre.active {
            None => post == pre && ev == Seq::<Event>::empty(),
            Some(p) => if above_visible(p) {
                &&& post == Self::game_over_of(
                    GameState { active: None, ..pre },
                    GameOverReason::LockOut,
                    now,
                )
                &&& ev == seq![Event::GameOver(GameOverReason::LockOut)]
            } else {
                let cells = placed_cells(pre.board@, p);
                let full = full_row_indices(cells, 40);
                let base = GameState {
                    active: None,
                    board: post.board,
                    lock_state: None,
                    gravity_acc: 0,
                    hold_used_this_cycle: false,
                    ..pre
                };
                &&& post.board@ == cells
                &&& ev.len() >= 1
                &&& ev[0] == Event::PieceLocked
                &&& if full.len() == 0 {
                    Self::spawn_rel(base, now, post, ev.drop_first())
                } else {
                    &&& post.line_clear_anim matches Some(a) && {
                        &&& a.rows@ == full
                        &&& a.started_at == now
                        &&& a.phase == LineClearPhase::Flash
                        &&& a.board_snapshot == post.board
                        &&& a.pending_count == 0
                        &&& a.pending_level_before == pre.level
                        &&& a.pending_b2b_active == pre.b2b_active
                    }
                    &&& post == GameState { line_clear_anim: post.line_clear_anim, ..base }
                    &&& ev.len() == 1
                }
            },
        }
    }

    /// `post` is `pre` after a hard drop at `now`: the piece falls as far
    /// as it can, scores two points per row, and locks at once.
    pub open spec fn hard_drop_rel(pre: GameState, now: u64, post: GameState, ev: Seq<Event>) -> bool {
        match pre.active {
            None => post == pre && ev == Seq::<Event>::empty(),
            Some(p) => exists|d: int|
                #[trigger] pre.board.is_drop_distance(p, d) && Self::lock_rel(
                    GameState { active: Some(p.shifted(0, d)), score: (pre.score + 2 * d) as u32, ..pre },
                    now,
                    post,
                    ev,
                ),
        }
    }

    /// `post` is `pre` after a hold request at `now`.  Allowed once per
    /// piece: the active kind goes to the hold slot and the held kind (or,
    /// the first time, the next queued kind) spawns fresh.
    pub open spec fn hold_rel(pre: GameState, now: u64, post: GameState, ev: Seq<Event>) -> bool {
        if pre.hold_used_this_cycle || pre.active is None || (pre.hold is None
            && pre.next_queue@.len() == 0) {
            post == pre && ev == Seq::<Event>::empty()
        } else {
            let a = pre.active->0;
            let k = match pre.hold {
                Some(h) => h,
                None => pre.next_queue@[0],
            };
            let mid = GameState {
                active: None,
                hold: Some(a.kind),
                lock_state: None,
                gravity_acc: 0,
                spawn_anim: Some(SpawnAnim { started_at: now, kind: k }),
                hold_used_this_cycle: true,
                next_queue: post.next_queue,
                bag: post.bag,
                ..pre
            };
            &&& post.bag.wf()
            &&& if pre.hold is Some {
                post.next_queue == pre.next_queue && post.bag == pre.bag
            } else {
                &&& post.bag.drawn().len() == pre.bag.drawn().len() + 1
                &&& post.bag.drawn().drop_last() == pre.bag.drawn()
                &&& post.next_queue@ == pre.next_queue@.drop_first().push(post.bag.drawn().last())
            }
            &&& if !pre.board.fits(spawn_piece(k)) {
                &&& post == Self::game_over_of(mid, GameOverReason::BlockOut, now)
                &&& ev == seq![Event::GameOver(GameOverReason::BlockOut)]
            } else {
                &&& post == GameState { active: Some(spawn_piece(k)), ..mid }
                &&& ev == Seq::<Event>::empty()
            }
        }
    }
}

/// A hard drop locks the piece at once: the events it reports start with
/// `PieceLocked`, or with a lock-out game over when the piece stayed above
/// the visible playfield.
pub proof fn lemma_hard_drop_locks(pre: GameState, now: u64, post: GameState, ev: Seq<Event>)
    requires
        pre.active is Some,
        GameState::hard_drop_rel(pre, now, post, ev),
    ensures
        ev.len() >= 1,
        ev[0] == Event::PieceLocked || ev[0] == Event::GameOver(GameOverReason::LockOut),
{
}

/// A hard drop scores two points for every row the piece falls: with
/// `d` the distance the active piece can drop, the score after the drop
/// (and the lock it ends with) is the score before plus `2 * d`.
pub proof fn lemma_hard_drop_scores(
    pre: GameState,
    now: u64,
    post: GameState,
    ev: Seq<Event>,
    d: int,
)
    requires
        pre.active is Some,
        pre.board.is_drop_distance(pre.active->0, d),
        pre.score + 2 * d <= u32::MAX,
        GameState::hard_drop_rel(pre, now, post, ev),
    ensures
        post.score == pre.score + 2 * d,
{
    let p = pre.active->0;
    let d2 = choose|d2: int|
        #[trigger] pre.board.is_drop_distance(p, d2) && GameState::lock_rel(
            GameState { active: Some(p.shifted(0, d2)), score: (pre.score + 2 * d2) as u32, ..pre },
            now,
            post,
            ev,
        );
    crate::render::board_view::lemma_drop_unique(pre.board, p, d, d2);
}

/// When a line clear finishes, no full row is left on the board.
pub proof fn lemma_finish_leaves_no_full_row(
    pre: GameState,
    a: LineClearAnim,
    now: u64,
    post: GameState,
    ev: Seq<Event>,
)
    requires
        GameState::finish_rel(pre, a, now, post, ev),
    ensures
        forall|r: int| 0 <= r < 40 ==> !row_full(#[trigger] post.board.row(r)),
{
    a.board_snapshot.lemma_len();
    crate::game::board::lemma_cleared_has_no_full_row(a.board_snapshot@);
    assert forall|r: int| 0 <= r < 40 implies !row_full(#[trigger] post.board.row(r)) by {
        assert(post.board.row(r) == row_of(cleared_cells(a.board_snapshot@), r));
    }
}

impl GameState {
    /// Whether `p` rests on the stack or the floor.
    fn is_grounded(&self, p: &Piece) -> (g: bool)
        requires
            p.near_board(),
        ensures
            g == self.board.grounded(*p),
    {
        let below = p.shift(0, 1);
        self.board.collides(&below)
    }

    /// Make `c` the active piece; a grounded move restarts the lock timer.
    fn move_to(&mut self, c: Piece)
        requires
            c.near_board(),
        ensures
            *final(self) == Self::moved_to(*old(self), c),
    {
        self.active = Some(c);
        if self.is_grounded(&c) {
            if let Some(ls) = &mut self.lock_state {
                ls.reset_timer();
            }
        }
    }

    fn try_shift(&mut self, delta_col: i32)
        requires
            -1 <= delta_col <= 1,
            old(self).active matches Some(p) ==> p.near_board(),
        ensures
            old(self).consistent() && old(self).phase == Phase::Playing ==> final(self).consistent(),
            *final(self) == Self::shift_result(*old(self), delta_col as int),
    {
        let piece = match &self.active {
            Some(p) => *p,
            None => return ,
        };
        let candidate = piece.shift(delta_col, 0);
        if !self.board.collides(&candidate) {
            proof {
                self.board.lemma_fits_near(candidate);
            }
            self.move_to(candidate);
        }
    }

    fn try_rotate(&mut self, dir: RotationDir)
        requires
            old(self).active matches Some(p) ==> p.near_board(),
        ensures
            old(self).consistent() && old(self).phase == Phase::Playing ==> final(self).consistent(),
            *final(self) == Self::rotate_result(*old(self), dir),
    {
        let piece = match &self.active {
            Some(p) => *p,
            None => return ,
        };
        if let Ok(rotated) = rotate(&piece, dir, &self.board) {
            proof {
                crate::game::srs::lemma_rotation_fits(piece, dir, self.board);
                self.board.lemma_fits_near(rotated);
            }
            self.move_to(rotated);
        }
    }
}

/// `after` is `before` with more events appended.
pub open spec fn extends(before: Seq<Event>, after: Seq<Event>) -> bool {
    before.len() <= after.len() && after.subrange(0, before.len() as int) == before
}

/// The events appended to `before` to give `after`.
pub open spec fn added(before: Seq<Event>, after: Seq<Event>) -> Seq<Event> {
    after.subrange(before.len() as int, after.len() as int)
}

/// Appending in two steps appends the concatenation.
pub proof fn lemma_added_concat(a: Seq<Event>, b: Seq<Event>, c: Seq<Event>)
    requires
        extends(a, b),
        extends(b, c),
    ensures
        extends(a, c),
        added(a, c) == added(a, b) + added(b, c),
{
    assert(c.subrange(0, a.len() as int) =~= b.subrange(0, a.len() as int));
    assert(added(a, c) =~= added(a, b) + added(b, c));
}

impl GameState {
    fn lock_piece(&mut self, now: u64, events: &mut Vec<Event>)
        requires
            old(self).internal_ok(),
            old(self).active matches Some(p) ==> p.near_board(),
        ensures
            old(self).consistent() && old(self).phase == Phase::Playing ==> final(self).consistent(),
            final(self).internal_ok(),
            extends(old(events)@, final(events)@),
            Self::lock_rel(*old(self), now, *final(self), added(old(events)@, final(events)@)),
            final(self).active matches Some(p) ==> p.near_board(),
            final(self).score == old(self).score,
            final(self).lock_state is None || final(self).lock_state == old(self).lock_state,
    {
        let ghost ev0 = events@;
        let ghost pre = *self;
        let piece = match self.active {
            Some(p) => p,
            None => {
                assert(added(ev0, events@) =~= Seq::<Event>::empty());
                assert(events@.subrange(0, ev0.len() as int) =~= ev0);
                return ;
            },
        };
        self.active = None;
        // Check lock-out: piece entirely above visible playfield (row < 20).
        let cells = piece.cells();
        let mut all_above = true;
        let mut i: usize = 0;
        while i < 4
            invariant
                i <= 4,
                cells@.len() == 4,
                forall|j: int|
                    0 <= j < 4 ==> (#[trigger] cells@[j].0 as int, cells@[j].1 as int)
                        == piece.cell_seq()[j],
                all_above == (forall|j: int| 0 <= j < i ==> #[trigger] piece.cell_seq()[j].1 < 20),
            decreases 4 - i,
        {
            assert((cells@[i as int].0 as int, cells@[i as int].1 as int) == piece.cell_seq()[i as int]);
            if cells[i].1 >= 20 {
                all_above = false;
            }
            i = i + 1;
        }
        if all_above {
            self.enter_game_over(GameOverReason::LockOut, now, events);
            assert(added(ev0, events@) =~= seq![Event::GameOver(GameOverReason::LockOut)]);
            assert(events@.subrange(0, ev0.len() as int) =~= ev0);
            return ;
        }
        // Place piece on the board.
        self.board.place(&piece);
        events.push(Event::PieceLocked);
        // Detect full rows before clearing them.
        let full_rows = self.board.full_rows();
        self.lock_state = None;
        self.gravity_acc = 0;
        // A piece has locked — allow hold again next cycle.
        self.hold_used_this_cycle = false;
        let ghost ev1 = events@;
        if full_rows.len() == 0 {
            self.spawn_next(now, events);
            proof {
                assert(ev1.subrange(0, ev0.len() as int) =~= ev0);
                lemma_added_concat(ev0, ev1, events@);
                assert(added(ev0, ev1) =~= seq![Event::PieceLocked]);
                assert(added(ev0, events@).drop_first() =~= added(ev1, events@));
            }
            return ;
        }
        // Start the line-clear animation; scoring and spawn wait for it.
        self.line_clear_anim = Some(
            LineClearAnim {
                rows: full_rows,
                started_at: now,
                phase: LineClearPhase::Flash,
                board_snapshot: self.board,
                pending_count: 0,
                pending_level_before: self.level,
                pending_b2b_active: self.b2b_active,
            },
        );
        assert(added(ev0, events@) =~= seq![Event::PieceLocked]);
        assert(events@.subrange(0, ev0.len() as int) =~= ev0);
    }

    fn hard_drop(&mut self, now: u64, events: &mut Vec<Event>)
        requires
            old(self).internal_ok(),
            old(self).active matches Some(p) ==> p.near_board(),
            old(self).score + 2 * 1040 <= u32::MAX,
        ensures
            old(self).consistent() && old(self).phase == Phase::Playing ==> final(self).consistent(),
            final(self).internal_ok(),
            extends(old(events)@, final(events)@),
            Self::hard_drop_rel(*old(self), now, *final(self), added(old(events)@, final(events)@)),
            Self::steady(*old(self), *final(self), 2080),
    {
        let ghost ev0 = events@;
        let piece = match self.active {
            Some(p) => p,
            None => {
                assert(added(ev0, events@) =~= Seq::<Event>::empty());
                assert(events@.subrange(0, ev0.len() as int) =~= ev0);
                return ;
            },
        };
        let ghost pre = *self;
        let d = self.board.drop_distance(&piece);
        let current = piece.shift(0, d);
        proof {
            if d > 0 {
                assert(self.board.fits(piece.shifted(0, d as int)));
                self.board.lemma_fits_near(current);
            }
        }
        // Hard-drop scoring: +2 per cell.
        self.score = self.score + 2 * (d as u32);
        self.active = Some(current);
        let ghost mid = *self;
        assert(mid == GameState {
            active: Some(piece.shifted(0, d as int)),
            score: (pre.score + 2 * d) as u32,
            ..pre
        });
        self.lock_piece(now, events);
        assert(pre.board.is_drop_distance(piece, d as int));
        assert(Self::lock_rel(mid, now, *self, added(ev0, events@)));
    }

    /// Attempt to hold the active piece.
    ///
    /// No-op if a hold was already used in this piece cycle or there is no
    /// active piece.  Otherwise the active kind goes to the hold slot and
    /// the held kind (or the next queued kind the first time) spawns at its
    /// spawn position; a taken spawn position ends the game (block-out).
    fn try_hold(&mut self, now: u64, events: &mut Vec<Event>)
        requires
            old(self).internal_ok(),
        ensures
            old(self).consistent() && old(self).phase == Phase::Playing ==> final(self).consistent(),
            final(self).internal_ok(),
            extends(old(events)@, final(events)@),
            Self::hold_rel(*old(self), now, *final(self), added(old(events)@, final(events)@)),
            (old(self).active matches Some(p) && p.near_board()) ==> Self::steady(
                *old(self),
                *final(self),
                0,
            ),
    {
        let ghost ev0 = events@;
        let ghost pre = *self;
        if self.hold_used_this_cycle || self.active.is_none() || (self.hold.is_none()
            && self.next_queue.len() == 0) {
            assert(added(ev0, events@) =~= Seq::<Event>::empty());
            assert(events@.subrange(0, ev0.len() as int) =~= ev0);
            return ;
        }
        let active = self.active.unwrap();
        let incoming_kind = match self.hold {
            Some(prev_kind) => prev_kind,
            None => {
                let k = self.next_queue.pop_front().unwrap();
                let k2 = self.bag.next().unwrap();
                self.next_queue.push_back(k2);
                assert(self.next_queue@ =~= pre.next_queue@.drop_first().push(
                    self.bag.drawn().last(),
                ));
                assert(self.bag.drawn().drop_last() =~= pre.bag.drawn());
                k
            },
        };
        self.active = None;
        // Stash the current active piece kind in the hold slot.
        self.hold = Some(active.kind);
        let new_piece = spawn(incoming_kind);
        // Clear lock counters — new piece gets a fresh start.
        self.lock_state = None;
        self.gravity_acc = 0;
        self.spawn_anim = Some(SpawnAnim { started_at: now, kind: incoming_kind });
        self.hold_used_this_cycle = true;
        if self.board.collides(&new_piece) {
            self.enter_game_over(GameOverReason::BlockOut, now, events);
            assert(added(ev0, events@) =~= seq![Event::GameOver(GameOverReason::BlockOut)]);
            assert(events@.subrange(0, ev0.len() as int) =~= ev0);
            return ;
        }
        self.active = Some(new_piece);
        assert(added(ev0, events@) =~= Seq::<Event>::empty());
        assert(events@.subrange(0, ev0.len() as int) =~= ev0);
    }
}

/// Whole time elapsed from `start` to `now`, zero if `now` is earlier.
pub open spec fn since(now: u64, start: u64) -> int {
    if now >= start {
        now - start
    } else {
        0
    }
}

/// The piece's fall under gravity: while a full cell time is accumulated,
/// spend it and move down a row; on touching the stack the accumulator is
/// emptied.  Soft drop scores a point per row.  Returns the piece, the
/// remaining accumulator and the score.
pub open spec fn fall(board: Board, p: Piece, acc: int, cell: int, soft: bool, score: int) -> (
    Piece,
    int,
    int,
)
    decreases acc,
{
    if cell <= 0 || acc < cell {
        (p, acc, score)
    } else if !board.fits(p.shifted(0, 1)) {
        (p, 0, score)
    } else {
        fall(
            board,
            p.shifted(0, 1),
            acc - cell,
            cell,
            soft,
            if soft {
                score + 1
            } else {
                score
            },
        )
    }
}

/// Falling under gravity keeps the piece's column, kind and rotation and
/// only moves it down; with soft drop held each row fallen adds exactly
/// one point, and without it the score stays.
pub proof fn lemma_fall_scores(board: Board, p: Piece, acc: int, cell: int, soft: bool, score: int)
    requires
        p.near_board(),
    ensures
        ({
            let r = fall(board, p, acc, cell, soft, score);
            &&& r.0.kind == p.kind
            &&& r.0.rotation == p.rotation
            &&& r.0.origin.0 == p.origin.0
            &&& r.0.origin.1 >= p.origin.1
            &&& r.0.origin.1 > p.origin.1 ==> board.fits(r.0)
            &&& r.2 == score + if soft {
                r.0.origin.1 - p.origin.1
            } else {
                0
            }
        }),
    decreases acc,
{
    if cell > 0 && acc >= cell && board.fits(p.shifted(0, 1)) {
        board.lemma_fits_near(p.shifted(0, 1));
        lemma_fall_scores(
            board,
            p.shifted(0, 1),
            acc - cell,
            cell,
            soft,
            if soft {
                score + 1
            } else {
                score
            },
        );
    }
}

/// The line-clear animation's effect on the display: `current` moves
/// toward `target` when it lags behind.
pub open spec fn ticked_display(d: ScoreDisplay, dt: u64) -> ScoreDisplay {
    if d.current < d.target {
        ScoreDisplay { current: (d.current + rollup_advance(d.current, d.target, dt)) as u32, ..d }
    } else {
        d
    }
}

/// The displayed score never passes its target, moves by at least one
/// point per tick while behind, and catches up within one tick of the
/// whole rollup time (250 ms).
pub proof fn lemma_rollup(d: ScoreDisplay, dt: u64)
    requires
        d.current < d.target,
    ensures
        d.current < ticked_display(d, dt).current <= d.target,
        dt / 1_000_000 >= SCORE_ROLLUP_MS ==> ticked_display(d, dt).current == d.target,
{
    let remaining = d.target - d.current;
    let ms = dt / 1_000_000;
    if ms >= SCORE_ROLLUP_MS {
        assert(remaining * ms / 250 >= remaining) by (nonlinear_arith)
            requires
                ms >= 250,
                remaining > 0,
        ;
    }
}

/// Inputs that leave the title screen for a new round.
pub open spec fn starts_round(i: Input) -> bool {
    match i {
        Input::StartGame | Input::MoveLeft | Input::MoveRight | Input::RotateCw
        | Input::RotateCcw | Input::HardDrop | Input::SoftDropOn => true,
        _ => false,
    }
}

/// Inputs that answer the reset-scores dialog.
pub open spec fn answers_dialog(i: Input) -> bool {
    i == Input::ConfirmYes || i == Input::ConfirmNo
}

/// Inputs the title screen acts on: an action key starts a round, and
/// Restart opens the reset-scores dialog.
pub open spec fn title_action(i: Input) -> bool {
    starts_round(i) || i == Input::Restart
}

/// The first input of `inputs` that the title screen acts on, if any.
pub open spec fn first_title_action(inputs: Seq<Input>) -> Option<Input>
    decreases inputs.len(),
{
    if inputs.len() == 0 {
        None
    } else if title_action(inputs[0]) {
        Some(inputs[0])
    } else {
        first_title_action(inputs.drop_first())
    }
}

/// One `Resumed` event per `Pause` input.
pub open spec fn resumed_events(inputs: Seq<Input>) -> Seq<Event>
    decreases inputs.len(),
{
    if inputs.len() == 0 {
        Seq::empty()
    } else {
        resumed_events(inputs.drop_last()) + if inputs.last() == Input::Pause {
            seq![Event::Resumed]
        } else {
            Seq::<Event>::empty()
        }
    }
}

impl GameState {
    /// The time for one cell of fall at the current level and drop mode.
    pub open spec fn cell_time(s: GameState) -> int {
        if s.soft_drop_held {
            soft_drop_nanos(s.level)
        } else {
            gravity_nanos(s.level)
        }
    }

    /// The state after gravity has acted for `dt`.
    pub open spec fn gravity_result(pre: GameState, dt: u64) -> GameState {
        match pre.active {
            None => pre,
            Some(p) => {
                let r = fall(
                    pre.board,
                    p,
                    pre.gravity_acc + dt,
                    Self::cell_time(pre),
                    pre.soft_drop_held,
                    pre.score as int,
                );
                GameState { active: Some(r.0), gravity_acc: r.1 as u64, score: r.2 as u32, ..pre }
            },
        }
    }

    /// Gravity over `dt` moves the active piece straight down; while soft
    /// drop is held every row it descends adds exactly one point, and
    /// otherwise the score is unchanged.
    pub proof fn lemma_gravity_scores(pre: GameState, dt: u64)
        requires
            pre.active matches Some(p) ==> p.near_board(),
            pre.score + 1040 <= u32::MAX,
        ensures
            pre.active is None ==> Self::gravity_result(pre, dt) == pre,
            pre.active is Some ==> {
                let p = pre.active->0;
                let post = Self::gravity_result(pre, dt);
                &&& post.active is Some
                &&& post.active->0.kind == p.kind
                &&& post.active->0.rotation == p.rotation
                &&& post.active->0.origin.0 == p.origin.0
                &&& post.active->0.origin.1 >= p.origin.1
                &&& post.score == if pre.soft_drop_held {
                    pre.score + (post.active->0.origin.1 - p.origin.1)
                } else {
                    pre.score as int
                }
            },
    {
        if let Some(p) = pre.active {
            lemma_fall_scores(
                pre.board,
                p,
                pre.gravity_acc + dt,
                Self::cell_time(pre),
                pre.soft_drop_held,
                pre.score as int,
            );
            let r = fall(
                pre.board,
                p,
                pre.gravity_acc + dt,
                Self::cell_time(pre),
                pre.soft_drop_held,
                pre.score as int,
            );
            if r.0.origin.1 - p.origin.1 > 0 {
                pre.board.lemma_fits_near(r.0);
            }
        }
    }

    /// `post` is `pre` after the lock-delay check for `dt` at `now`.
    pub open spec fn check_lock_rel(
        pre: GameState,
        dt: u64,
        now: u64,
        post: GameState,
        ev: Seq<Event>,
    ) -> bool {
        match pre.active {
            None => post == pre && ev == Seq::<Event>::empty(),
            Some(p) => if pre.board.grounded(p) {
                let ls0 = match pre.lock_state {
                    Some(ls) => ls,
                    None => LockState { elapsed: 0, resets_used: 0, airborne: false },
                };
                // Re-grounding after being airborne counts as a reset.
                let ls1 = if ls0.airborne {
                    after_reset(LockState { airborne: false, ..ls0 })
                } else {
                    ls0
                };
                if ls1.resets_used >= RESET_CAP {
                    Self::lock_rel(GameState { lock_state: Some(ls1), ..pre }, now, post, ev)
                } else {
                    let ls2 = LockState { elapsed: (ls1.elapsed + dt) as u64, ..ls1 };
                    if ls2.elapsed >= LOCK_DELAY {
                        Self::lock_rel(GameState { lock_state: Some(ls2), ..pre }, now, post, ev)
                    } else {
                        post == GameState { lock_state: Some(ls2), ..pre } && ev == Seq::<
                            Event,
                        >::empty()
                    }
                }
            } else {
                &&& post == GameState {
                    lock_state: match pre.lock_state {
                        Some(ls) => Some(LockState { airborne: true, elapsed: 0, ..ls }),
                        None => None,
                    },
                    ..pre
                }
                &&& ev == Seq::<Event>::empty()
            },
        }
    }

    /// `post` is `pre` (whose animation has been taken out) after the
    /// line-clear animation `a` finished at `now`: the full rows of the
    /// snapshot are cleared, lines, level, score and back-to-back state are
    /// updated, and the next piece comes into play.
    pub open spec fn finish_rel(
        pre: GameState,
        a: LineClearAnim,
        now: u64,
        post: GameState,
        ev: Seq<Event>,
    ) -> bool {
        let cleared = full_rows_from(a.board_snapshot@, 0);
        let lines = pre.lines_cleared + cleared;
        let level = level_for_lines(lines as u32);
        let r = line_clear_result(cleared as u8, a.pending_level_before, a.pending_b2b_active);
        let display = if r.0 > 0 {
            ScoreDisplay {
                target: if pre.score_display.target + r.0 > u32::MAX {
                    u32::MAX
                } else {
                    (pre.score_display.target + r.0) as u32
                },
                last_tick: now,
                ..pre.score_display
            }
        } else {
            pre.score_display
        };
        let mid = GameState {
            board: post.board,
            lines_cleared: lines as u32,
            level: level as u8,
            score: (pre.score + r.0) as u32,
            b2b_active: r.1,
            score_display: display,
            ..pre
        };
        let ev1 = if cleared > 0 {
            seq![
                Event::LinesCleared {
                    count: cleared as u8,
                    b2b: cleared == 4 && a.pending_b2b_active,
                    level_before: a.pending_level_before,
                    level_after: level as u8,
                    score_delta: r.0 as u32,
                },
            ]
        } else {
            Seq::<Event>::empty()
        };
        &&& post.board@ == cleared_cells(a.board_snapshot@)
        &&& ev.len() >= ev1.len()
        &&& ev.subrange(0, ev1.len() as int) == ev1
        &&& Self::spawn_rel(mid, now, post, ev.subrange(ev1.len() as int, ev.len() as int))
    }

    /// `post` is `pre` after the running line-clear animation was advanced
    /// to `now`: flash until 100 ms, dim until 200 ms, then finished.
    pub open spec fn anim_rel(pre: GameState, now: u64, post: GameState, ev: Seq<Event>) -> bool {
        match pre.line_clear_anim {
            None => post == pre && ev == Seq::<Event>::empty(),
            Some(a) => {
                let elapsed = since(now, a.started_at);
                if elapsed >= ANIM_TOTAL_MS * 1_000_000 {
                    Self::finish_rel(GameState { line_clear_anim: None, ..pre }, a, now, post, ev)
                } else if elapsed >= ANIM_FLASH_MS * 1_000_000 {
                    &&& post == GameState {
                        line_clear_anim: Some(LineClearAnim { phase: LineClearPhase::Dim, ..a }),
                        ..pre
                    }
                    &&& ev == Seq::<Event>::empty()
                } else {
                    post == pre && ev == Seq::<Event>::empty()
                }
            },
        }
    }

    /// `post` is `pre` after the single input `inp` at `now`, while playing.
    pub open spec fn input_rel(
        pre: GameState,
        inp: Input,
        now: u64,
        post: GameState,
        ev: Seq<Event>,
    ) -> bool {
        match inp {
            Input::Pause => post == GameState { phase: Phase::Paused, ..pre } && ev == seq![
                Event::Paused,
            ],
            Input::Restart => Self::title_rel(pre, now, post) && ev == Seq::<Event>::empty(),
            Input::SoftDropOn => post == GameState { soft_drop_held: true, ..pre } && ev == Seq::<
                Event,
            >::empty(),
            Input::SoftDropOff => post == GameState { soft_drop_held: false, ..pre } && ev
                == Seq::<Event>::empty(),
            Input::HardDrop => Self::hard_drop_rel(pre, now, post, ev),
            Input::MoveLeft => post == Self::shift_result(pre, -1) && ev == Seq::<Event>::empty(),
            Input::MoveRight => post == Self::shift_result(pre, 1) && ev == Seq::<Event>::empty(),
            Input::RotateCw => post == Self::rotate_result(pre, RotationDir::Cw) && ev == Seq::<
                Event,
            >::empty(),
            Input::RotateCcw => post == Self::rotate_result(pre, RotationDir::Ccw) && ev
                == Seq::<Event>::empty(),
            Input::Hold => Self::hold_rel(pre, now, post, ev),
            _ => post == pre && ev == Seq::<Event>::empty(),
        }
    }

    /// Input `j` of a run: the state before it is playing, and the state
    /// and events after it are what handling it makes of that state.
    pub open spec fn trace_step(
        inputs: Seq<Input>,
        now: u64,
        states: Seq<GameState>,
        evs: Seq<Seq<Event>>,
        j: int,
    ) -> bool {
        &&& states[j].phase == Phase::Playing
        &&& extends(evs[j], evs[j + 1])
        &&& Self::input_rel(states[j], inputs[j], now, states[j + 1], added(evs[j], evs[j + 1]))
    }

    /// `states` and `evs` record a run of the first `states.len() - 1`
    /// inputs from `pre`: the state before each input, and the events
    /// reported so far.
    pub open spec fn input_trace(
        pre: GameState,
        inputs: Seq<Input>,
        now: u64,
        states: Seq<GameState>,
        evs: Seq<Seq<Event>>,
    ) -> bool {
        &&& 1 <= states.len() <= inputs.len() + 1
        &&& evs.len() == states.len()
        &&& states[0] == pre
        &&& evs[0] == Seq::<Event>::empty()
        &&& forall|j: int|
            0 <= j < states.len() - 1 ==> #[trigger] Self::trace_step(inputs, now, states, evs, j)
    }

    /// `post` is `pre` after the inputs `inputs` were handled in order at
    /// `now`, with the events `ev`; once the phase leaves `Playing` the
    /// remaining inputs are ignored.
    pub open spec fn inputs_rel(
        pre: GameState,
        inputs: Seq<Input>,
        now: u64,
        post: GameState,
        ev: Seq<Event>,
    ) -> bool {
        exists|states: Seq<GameState>, evs: Seq<Seq<Event>>|
            {
                &&& #[trigger] Self::input_trace(pre, inputs, now, states, evs)
                &&& states.len() - 1 < inputs.len() ==> states.last().phase != Phase::Playing
                &&& post == states.last()
                &&& ev == evs.last()
            }
    }

    /// The playing state at the start of a step: the spawn fade ends after
    /// 80 ms and the displayed score rolls toward its target.
    pub open spec fn step_prelude(pre: GameState, dt: u64, now: u64) -> GameState {
        GameState {
            spawn_anim: match pre.spawn_anim {
                Some(sa) => if since(now, sa.started_at) >= SPAWN_FADE_TOTAL_MS * 1_000_000 {
                    None
                } else {
                    Some(sa)
                },
                None => None,
            },
            score_display: ticked_display(pre.score_display, dt),
            ..pre
        }
    }

    /// `post` and the events `ev` are what one `step(dt, now, inputs)` makes
    /// of `pre`.
    pub open spec fn step_rel(
        pre: GameState,
        dt: u64,
        now: u64,
        inputs: Seq<Input>,
        post: GameState,
        ev: Seq<Event>,
    ) -> bool {
        match pre.phase {
            Phase::Title => {
                &&& ev == Seq::<Event>::empty()
                &&& match first_title_action(inputs) {
                    None => post == pre,
                    Some(Input::Restart) => post == (GameState {
                        phase: Phase::ConfirmResetScores,
                        ..pre
                    }),
                    Some(_) => Self::round_rel(GameState { phase: Phase::Playing, ..pre }, now, post),
                }
            },
            Phase::ConfirmResetScores => {
                &&& ev == Seq::<Event>::empty()
                &&& if exists|i: int| 0 <= i < inputs.len() && #[trigger] answers_dialog(inputs[i]) {
                    post == GameState { phase: Phase::Title, ..pre }
                } else {
                    post == pre
                }
            },
            Phase::GameOver { .. } => {
                &&& ev == Seq::<Event>::empty()
                &&& if exists|i: int| 0 <= i < inputs.len() && #[trigger] inputs[i] == Input::Restart {
                    Self::title_rel(pre, now, post)
                } else {
                    post == pre
                }
            },
            Phase::Paused => {
                &&& ev == resumed_events(inputs)
                &&& if exists|i: int| 0 <= i < inputs.len() && #[trigger] inputs[i] == Input::Pause {
                    post == GameState { phase: Phase::Playing, ..pre }
                } else {
                    post == pre
                }
            },
            Phase::Playing => {
                let s2 = Self::step_prelude(pre, dt, now);
                if s2.line_clear_anim is Some {
                    Self::anim_rel(s2, now, post, ev)
                } else {
                    exists|s3: GameState, ev1: Seq<Event>|
                        #[trigger] Self::inputs_rel(s2, inputs, now, s3, ev1) && if s3.phase
                            != Phase::Playing {
                            post == s3 && ev == ev1
                        } else {
                            ev.len() >= ev1.len() && ev.subrange(0, ev1.len() as int) == ev1
                                && Self::check_lock_rel(
                                Self::gravity_result(s3, dt),
                                dt,
                                now,
                                post,
                                ev.subrange(ev1.len() as int, ev.len() as int),
                            )
                        }
                }
            },
        }
    }
}

impl GameState {
    /// What every mutation keeps, seen from `pre` to `post`: the private
    /// parts stay consistent, the active piece stays near the board, the
    /// score grows by at most `extra`, and a lock timer is either gone,
    /// restarted, or untouched.
    pub open spec fn steady(pre: GameState, post: GameState, extra: int) -> bool {
        &&& post.internal_ok()
        &&& post.active matches Some(p) ==> p.near_board()
        &&& pre.score <= post.score <= pre.score + extra
        &&& post.lock_state is None || post.lock_state == pre.lock_state || (post.lock_state matches Some(
            ls,
        ) && ls.elapsed == 0)
    }
}

impl GameState {
    fn apply_gravity(&mut self, dt: u64)
        requires
            old(self).internal_ok(),
            old(self).active matches Some(p) ==> p.near_board(),
            dt <= u64::MAX - 1_239_157_372,
            old(self).score + 1040 <= u32::MAX,
        ensures
            old(self).consistent() && old(self).phase == Phase::Playing ==> final(self).consistent(),
            *final(self) == Self::gravity_result(*old(self), dt),
            Self::steady(*old(self), *final(self), 1040),
            final(self).lock_state == old(self).lock_state,
    {
        let ghost pre = *self;
        let piece = match self.active {
            Some(p) => p,
            None => return ,
        };
        let cell_dt = if self.soft_drop_held {
            soft_drop_effective_dt(self.level)
        } else {
            gravity_duration(self.level)
        };
        proof {
            lemma_gravity_range(self.level);
        }
        self.gravity_acc = self.gravity_acc + dt;
        let ghost acc0 = self.gravity_acc as int;
        let ghost cell = cell_dt as int;
        let mut cur = piece;
        let mut falling = true;
        while falling && self.gravity_acc >= cell_dt
            invariant
                cell == Self::cell_time(pre),
                cell == cell_dt,
                0 < cell <= 1_239_157_372,
                cur.near_board(),
                cur == piece || self.board.fits(cur),
                piece.near_board(),
                self.board == pre.board,
                self.soft_drop_held == pre.soft_drop_held,
                self.active == Some(cur),
                pre.score <= self.score,
                self.score - pre.score <= cur.origin.1 - piece.origin.1,
                cur.origin.1 <= 40 || cur == piece,
                piece.origin.1 <= cur.origin.1,
                pre.score + 1040 <= u32::MAX,
                !falling ==> self.gravity_acc == 0,
                fall(pre.board, piece, acc0, cell, pre.soft_drop_held, pre.score as int) == (if falling {
                    fall(
                        pre.board,
                        cur,
                        self.gravity_acc as int,
                        cell,
                        pre.soft_drop_held,
                        self.score as int,
                    )
                } else {
                    (cur, 0, self.score as int)
                }),
                *self == (GameState {
                    active: self.active,
                    gravity_acc: self.gravity_acc,
                    score: self.score,
                    ..pre
                }),
            decreases self.gravity_acc,
        {
            self.gravity_acc = self.gravity_acc - cell_dt;
            let below = cur.shift(0, 1);
            if self.board.collides(&below) {
                // Cannot descend further — grounded.
                self.gravity_acc = 0;
                falling = false;
            } else {
                proof {
                    self.board.lemma_fits_near(below);
                }
                if self.soft_drop_held {
                    self.score = self.score + 1;  // +1/cell for soft-drop
                }
                cur = below;
                self.active = Some(below);
            }
        }
        proof {
            if falling {
                assert(self.gravity_acc < cell);
            }
        }
    }

    fn check_lock(&mut self, dt: u64, now: u64, events: &mut Vec<Event>)
        requires
            old(self).internal_ok(),
            old(self).active matches Some(p) ==> p.near_board(),
            old(self).lock_state matches Some(ls) ==> ls.elapsed + dt <= u64::MAX,
        ensures
            old(self).consistent() && old(self).phase == Phase::Playing ==> final(self).consistent(),
            extends(old(events)@, final(events)@),
            Self::check_lock_rel(*old(self), dt, now, *final(self), added(old(events)@, final(events)@)),
            final(self).internal_ok(),
            final(self).score == old(self).score,
    {
        let ghost ev0 = events@;
        let ghost pre = *self;
        let piece = match self.active {
            Some(p) => p,
            None => {
                assert(added(ev0, events@) =~= Seq::<Event>::empty());
                assert(events@.subrange(0, ev0.len() as int) =~= ev0);
                return ;
            },
        };
        let grounded = self.is_grounded(&piece);
        if grounded {
            let mut ls = match self.lock_state {
                Some(l) => l,
                None => LockState::new(),
            };
            // Re-grounding after being airborne counts as a reset.
            if ls.airborne {
                ls.airborne = false;
                ls.reset_timer();
            }
            if ls.is_capped() {
                // The cap was already reached: lock now.
                self.lock_state = Some(ls);
                self.lock_piece(now, events);
                return ;
            }
            let expired = ls.advance(dt);
            self.lock_state = Some(ls);
            if expired {
                self.lock_piece(now, events);
            } else {
                assert(added(ev0, events@) =~= Seq::<Event>::empty());
                assert(events@.subrange(0, ev0.len() as int) =~= ev0);
            }
        } else {
            // Airborne: mark as lifted, pause the timer (preserve resets_used).
            if let Some(ls) = &mut self.lock_state {
                ls.airborne = true;
                ls.elapsed = 0;
            }
            assert(added(ev0, events@) =~= Seq::<Event>::empty());
            assert(events@.subrange(0, ev0.len() as int) =~= ev0);
        }
    }

    /// Finalize the animation: apply scoring, clear the board rows, and spawn
    /// the next piece.
    fn finish_anim(&mut self, anim: LineClearAnim, now: u64, events: &mut Vec<Event>)
        requires
            old(self).internal_ok(),
            old(self).lines_cleared + 40 <= u32::MAX,
            old(self).score + 306_000 <= u32::MAX,
        ensures
            ({
                &&& old(self).active is None
                &&& old(self).line_clear_anim is None
                &&& old(self).phase == Phase::Playing
                &&& old(self).next_queue@.len() == NEXT_QUEUE_LEN
                &&& old(self).hold_used_this_cycle ==> old(self).hold is Some
            }) ==> final(self).consistent(),
            extends(old(events)@, final(events)@),
            Self::finish_rel(*old(self), anim, now, *final(self), added(old(events)@, final(events)@)),
            final(self).internal_ok(),
    {
        let ghost ev0 = events@;
        let ghost pre = *self;
        // Restore the snapshot (which still has the full rows), then clear
        // them.
        self.board = anim.board_snapshot;
        let cleared = self.board.clear_full_rows();
        proof {
            crate::game::board::lemma_kept_len(anim.board_snapshot@, 0);
        }
        let level_before = anim.pending_level_before;
        self.lines_cleared = self.lines_cleared + cleared as u32;
        let new_level = level_after_lines(self.lines_cleared);
        self.level = new_level;
        let (delta, new_b2b) = score_line_clear(cleared, level_before, anim.pending_b2b_active);
        self.score = self.score + delta;
        let b2b_was = anim.pending_b2b_active;
        self.b2b_active = new_b2b;
        // Trigger the score rollup animation.
        if delta > 0 {
            self.score_display.add_target(delta, now);
        }
        if cleared > 0 {
            events.push(
                Event::LinesCleared {
                    count: cleared,
                    b2b: cleared == 4 && b2b_was,
                    level_before,
                    level_after: new_level,
                    score_delta: delta,
                },
            );
        }
        let ghost ev1 = events@;
        let ghost mid = *self;
        proof {
            let c = full_rows_from(anim.board_snapshot@, 0);
            assert(cleared as int == c);
            let lines = pre.lines_cleared + c;
            let r = line_clear_result(c as u8, anim.pending_level_before, anim.pending_b2b_active);
            assert(self.lines_cleared == lines);
            assert(self.level == level_for_lines(lines as u32));
            assert(delta == r.0);
            assert(new_b2b == r.1);
            assert(self.board@ == cleared_cells(anim.board_snapshot@));
            let ev1s = if c > 0 {
                seq![
                    Event::LinesCleared {
                        count: c as u8,
                        b2b: c == 4 && anim.pending_b2b_active,
                        level_before: anim.pending_level_before,
                        level_after: level_for_lines(lines as u32) as u8,
                        score_delta: r.0 as u32,
                    },
                ]
            } else {
                Seq::<Event>::empty()
            };
            assert(added(ev0, ev1) =~= ev1s);
        }
        self.spawn_next(now, events);
        proof {
            assert(ev1.subrange(0, ev0.len() as int) =~= ev0);
            lemma_added_concat(ev0, ev1, events@);
            let first = added(ev0, ev1);
            assert(added(ev0, events@).subrange(0, first.len() as int) =~= first);
            assert(added(ev0, events@).subrange(first.len() as int, added(ev0, events@).len() as int)
                =~= added(ev1, events@));
        }
    }

    /// Advance the line-clear animation by the clock: Flash → Dim →
    /// finished.  On finish, applies the board mutation and spawns the next
    /// piece.
    fn tick_anim(&mut self, now: u64, events: &mut Vec<Event>)
        requires
            old(self).internal_ok(),
            old(self).line_clear_anim is Some,
            since(now, old(self).line_clear_anim->0.started_at) >= ANIM_TOTAL_MS * 1_000_000 ==> {
                &&& old(self).lines_cleared + 40 <= u32::MAX
                &&& old(self).score + 306_000 <= u32::MAX
            },
        ensures
            old(self).consistent() && old(self).phase == Phase::Playing ==> final(self).consistent(),
            extends(old(events)@, final(events)@),
            Self::anim_rel(*old(self), now, *final(self), added(old(events)@, final(events)@)),
            final(self).internal_ok(),
    {
        let ghost ev0 = events@;
        let started = match &self.line_clear_anim {
            Some(a) => a.started_at,
            None => 0,
        };
        let elapsed = now.saturating_sub(started);
        let flash_dur = ANIM_FLASH_MS * NANOS_PER_MILLI;
        let total_dur = ANIM_TOTAL_MS * NANOS_PER_MILLI;
        if elapsed >= total_dur {
            // Phase 3: animation complete — finalize.
            let anim = self.line_clear_anim.take().unwrap();
            self.finish_anim(anim, now, events);
        } else {
            if elapsed >= flash_dur {
                // Phase 2: dim.
                if let Some(anim) = &mut self.line_clear_anim {
                    anim.phase = LineClearPhase::Dim;
                }
            }
            assert(added(ev0, events@) =~= Seq::<Event>::empty());
            assert(events@.subrange(0, ev0.len() as int) =~= ev0);
        }
    }
}

impl GameState {
    fn handle_input(&mut self, inp: Input, now: u64, events: &mut Vec<Event>)
        requires
            old(self).internal_ok(),
            old(self).active matches Some(p) ==> p.near_board(),
            old(self).score + 2080 <= u32::MAX,
        ensures
            old(self).consistent() && old(self).phase == Phase::Playing ==> final(self).consistent(),
            extends(old(events)@, final(events)@),
            Self::input_rel(*old(self), inp, now, *final(self), added(old(events)@, final(events)@)),
            final(self).internal_ok(),
            final(self).phase == Phase::Playing ==> Self::steady(*old(self), *final(self), 2080),
            final(self).phase != Phase::Title ==> old(self).score <= final(self).score,
    {
        let ghost ev0 = events@;
        let ghost pre = *self;
        match inp {
            Input::Pause => {
                self.phase = Phase::Paused;
                events.push(Event::Paused);
                assert(added(ev0, events@) =~= seq![Event::Paused]);
            },
            Input::Restart => self.reset_to_title(now),
            Input::SoftDropOn => self.soft_drop_held = true,
            Input::SoftDropOff => self.soft_drop_held = false,
            Input::HardDrop => self.hard_drop(now, events),
            Input::MoveLeft => self.try_shift(-1),
            Input::MoveRight => self.try_shift(1),
            Input::RotateCw => self.try_rotate(RotationDir::Cw),
            Input::RotateCcw => self.try_rotate(RotationDir::Ccw),
            Input::Hold => self.try_hold(now, events),
            // Already handled at the phase level; ignore while playing.
            Input::StartGame | Input::ConfirmYes | Input::ConfirmNo => {},
        }
        proof {
            if events@.len() == ev0.len() {
                assert(added(ev0, events@) =~= Seq::<Event>::empty());
                assert(events@.subrange(0, ev0.len() as int) =~= ev0);
            }
            if inp == Input::Pause {
                assert(events@.subrange(0, ev0.len() as int) =~= ev0);
            }
            if let Some(p) = self.active {
                if self.active != pre.active {
                    match inp {
                        Input::MoveLeft | Input::MoveRight | Input::RotateCw
                        | Input::RotateCcw => {
                            crate::game::srs::lemma_rotation_fits(
                                pre.active->0,
                                RotationDir::Cw,
                                pre.board,
                            );
                            crate::game::srs::lemma_rotation_fits(
                                pre.active->0,
                                RotationDir::Ccw,
                                pre.board,
                            );
                            self.board.lemma_fits_near(p);
                        },
                        _ => {},
                    }
                }
            }
        }
    }

    /// Advance the game by `dt` nanoseconds at clock reading `now`,
    /// processing `inputs` in order.
    ///
    /// Returns events that occurred during this step.  On the title screen
    /// the first action input starts a round and Restart opens the
    /// reset-scores dialog; in the dialog either
    /// answer returns to the title; after game over, Restart returns to
    /// the title; while paused only Pause (resume) is heeded.  While
    /// playing: the spawn fade and score rollup advance, a running
    /// line-clear animation suspends everything else, then the inputs are
    /// applied, gravity acts and the lock delay is checked.
    ///
    /// A step keeps the game's standing invariant (`consistent`), and the
    /// score never drops except on the way back to the title screen.
    pub fn step(&mut self, dt: u64, now: u64, inputs: &[Input]) -> (events: Vec<Event>)
        requires
            old(self).internal_ok(),
            old(self).phase == Phase::Playing ==> old(self).score_display.tick_fits(dt),
            old(self).phase == Phase::Playing && old(self).line_clear_anim is None ==> {
                &&& old(self).active matches Some(p) ==> p.near_board()
                &&& old(self).score + 2080 * inputs@.len() + 1040 <= u32::MAX
                &&& dt <= u64::MAX - 1_239_157_372
                &&& old(self).lock_state matches Some(ls) ==> ls.elapsed + dt <= u64::MAX
            },
            old(self).phase == Phase::Playing && old(self).line_clear_anim is Some && since(
                now,
                old(self).line_clear_anim->0.started_at,
            ) >= ANIM_TOTAL_MS * 1_000_000 ==> {
                &&& old(self).score + 306_000 <= u32::MAX
                &&& old(self).lines_cleared + 40 <= u32::MAX
            },
        ensures
            final(self).internal_ok(),
            Self::step_rel(*old(self), dt, now, inputs@, *final(self), events@),
            old(self).consistent() ==> final(self).consistent(),
            old(self).consistent() && final(self).phase != Phase::Title ==> old(self).score
                <= final(self).score,
    {
        let mut events: Vec<Event> = Vec::new();
        let ghost pre = *self;
        let n = inputs.len();
        match self.phase {
            Phase::Title => {
                // The first action key starts a round; `r` opens the
                // reset-scores dialog.
                let mut i: usize = 0;
                assert(inputs@.subrange(0, n as int) =~= inputs@);
                while i < n
                    invariant
                        i <= n == inputs@.len(),
                        events@ == Seq::<Event>::empty(),
                        pre.phase == Phase::Title,
                        pre == *old(self),
                        pre.internal_ok(),
                        *self == pre,
                        first_title_action(inputs@) == first_title_action(
                            inputs@.subrange(i as int, n as int),
                        ),
                    decreases n - i,
                {
                    let inp = inputs[i];
                    assert(inputs@.subrange(i as int, n as int).drop_first() =~= inputs@.subrange(
                        i + 1,
                        n as int,
                    ));
                    assert(inputs@.subrange(i as int, n as int)[0] == inp);
                    match inp {
                        Input::StartGame | Input::MoveLeft | Input::MoveRight | Input::RotateCw
                        | Input::RotateCcw | Input::HardDrop | Input::SoftDropOn => {
                            assert(title_action(inp));
                            assert(first_title_action(inputs@) == Some(inp));
                            self.phase = Phase::Playing;
                            self.init_round(now);
                            return events;
                        },
                        Input::Restart => {
                            assert(title_action(inp));
                            assert(first_title_action(inputs@) == Some(Input::Restart));
                            self.phase = Phase::ConfirmResetScores;
                            return events;
                        },
                        _ => {},
                    }
                    i = i + 1;
                }
                assert(inputs@.subrange(n as int, n as int) =~= Seq::<Input>::empty());
                return events;
            },
            Phase::ConfirmResetScores => {
                let mut i: usize = 0;
                while i < n
                    invariant
                        i <= n == inputs@.len(),
                        events@ == Seq::<Event>::empty(),
                        pre.phase == Phase::ConfirmResetScores,
                        pre.internal_ok(),
                        (exists|j: int| 0 <= j < i && #[trigger] answers_dialog(inputs@[j])) ==> *self
                            == (GameState { phase: Phase::Title, ..pre }),
                        !(exists|j: int| 0 <= j < i && #[trigger] answers_dialog(inputs@[j]))
                            ==> *self == pre,
                    decreases n - i,
                {
                    let inp = inputs[i];
                    match inp {
                        // Both choices return to Title; the caller clears
                        // the store when ConfirmYes was pressed.
                        Input::ConfirmYes | Input::ConfirmNo => {
                            self.phase = Phase::Title;
                            assert(answers_dialog(inputs@[i as int]));
                        },
                        _ => {},
                    }
                    i = i + 1;
                }
                return events;
            },
            Phase::GameOver { .. } => {
                // Restart goes back to Title (not directly into Playing).
                let mut i: usize = 0;
                while i < n
                    invariant
                        i <= n == inputs@.len(),
                        events@ == Seq::<Event>::empty(),
                        pre.phase is GameOver,
                        pre.internal_ok(),
                        self.internal_ok(),
                        (exists|j: int| 0 <= j < i && #[trigger] inputs@[j] == Input::Restart)
                            ==> Self::title_rel(pre, now, *self),
                        !(exists|j: int| 0 <= j < i && #[trigger] inputs@[j] == Input::Restart)
                            ==> *self == pre,
                    decreases n - i,
                {
                    let inp = inputs[i];
                    match inp {
                        Input::Restart => {
                            self.reset_to_title(now);
                            assert(inputs@[i as int] == Input::Restart);
                        },
                        _ => {},
                    }
                    i = i + 1;
                }
                return events;
            },
            Phase::Paused => {
                let mut i: usize = 0;
                while i < n
                    invariant
                        i <= n == inputs@.len(),
                        events@ == resumed_events(inputs@.subrange(0, i as int)),
                        pre.phase == Phase::Paused,
                        pre.internal_ok(),
                        (exists|j: int| 0 <= j < i && #[trigger] inputs@[j] == Input::Pause) ==> *self
                            == (GameState { phase: Phase::Playing, ..pre }),
                        !(exists|j: int| 0 <= j < i && #[trigger] inputs@[j] == Input::Pause)
                            ==> *self == pre,
                    decreases n - i,
                {
                    let inp = inputs[i];
                    assert(inputs@.subrange(0, i + 1).drop_last() =~= inputs@.subrange(0, i as int));
                    match inp {
                        Input::Pause => {
                            self.phase = Phase::Playing;
                            events.push(Event::Resumed);
                            assert(inputs@[i as int] == Input::Pause);
                        },
                        _ => {},
                    }
                    i = i + 1;
                }
                assert(inputs@.subrange(0, n as int) =~= inputs@);
                return events;
            },
            Phase::Playing => {},
        }
        // ── Tick spawn-fade animation ────────────────────────────────────────
        let fade_over = match &self.spawn_anim {
            Some(sa) => now.saturating_sub(sa.started_at) >= SPAWN_FADE_TOTAL_MS * NANOS_PER_MILLI,
            None => false,
        };
        if fade_over {
            self.spawn_anim = None;
        }
        // ── Advance score rollup ─────────────────────────────────────────────
        if self.score_display.current < self.score_display.target {
            self.score_display.tick(dt);
        }
        let ghost s2 = *self;
        assert(s2 == Self::step_prelude(pre, dt, now));
        // ── Tick line-clear animation ────────────────────────────────────────
        // While animating, inputs, gravity and lock are suspended.
        if self.line_clear_anim.is_some() {
            self.tick_anim(now, &mut events);
            assert(added(Seq::<Event>::empty(), events@) =~= events@);
            return events;
        }
        // ── Handle inputs ────────────────────────────────────────────────────
        let ghost mut states: Seq<GameState> = seq![s2];
        let ghost mut evs: Seq<Seq<Event>> = seq![Seq::<Event>::empty()];
        let mut i: usize = 0;
        while i < n
            invariant
                i <= n == inputs@.len(),
                self.phase == Phase::Playing,
                Self::input_trace(s2, inputs@, now, states, evs),
                states.len() == i + 1,
                states.last() == *self,
                pre == *old(self),
                pre.phase == Phase::Playing,
                pre.consistent() ==> self.consistent(),
                s2 == Self::step_prelude(pre, dt, now),
                s2.line_clear_anim is None,
                evs.last() == events@,
                Self::steady(s2, *self, 2080 * i),
                s2.internal_ok(),
                s2.active matches Some(p) ==> p.near_board(),
                s2.score + 2080 * n + 1040 <= u32::MAX,
                s2.lock_state == pre.lock_state,
                pre.lock_state matches Some(ls) ==> ls.elapsed + dt <= u64::MAX,
                s2.lines_cleared == pre.lines_cleared,
            decreases n - i,
        {
            let ghost cur = *self;
            let ghost ev_cur = events@;
            let inp = inputs[i];
            proof {
                assert(2080 * i + 2080 <= 2080 * n) by (nonlinear_arith)
                    requires
                        i < n,
                ;
            }
            self.handle_input(inp, now, &mut events);
            proof {
                let states1 = states.push(*self);
                let evs1 = evs.push(events@);
                assert forall|j: int| 0 <= j < states1.len() - 1 implies #[trigger] Self::trace_step(
                    inputs@,
                    now,
                    states1,
                    evs1,
                    j,
                ) by {
                    if j < i {
                        assert(Self::trace_step(inputs@, now, states, evs, j));
                        assert(states1[j] == states[j] && states1[j + 1] == states[j + 1]);
                        assert(evs1[j] == evs[j] && evs1[j + 1] == evs[j + 1]);
                    } else {
                        assert(states1[j] == cur && states1[j + 1] == *self);
                        assert(evs1[j] == ev_cur && evs1[j + 1] == events@);
                    }
                }
                states = states1;
                evs = evs1;
            }
            // If an input ended play, stop processing.
            if self.phase != Phase::Playing {
                proof {
                    assert(Self::input_trace(s2, inputs@, now, states, evs));
                    assert(Self::inputs_rel(s2, inputs@, now, *self, events@));
                }
                return events;
            }
            i = i + 1;
        }
        let ghost s3 = *self;
        let ghost ev1 = events@;
        proof {
            assert(Self::input_trace(s2, inputs@, now, states, evs));
            assert(Self::inputs_rel(s2, inputs@, now, s3, ev1));
        }
        // ── Apply gravity ────────────────────────────────────────────────────
        self.apply_gravity(dt);
        // ── Check lock ───────────────────────────────────────────────────────
        self.check_lock(dt, now, &mut events);
        proof {
            assert(ev1.len() <= events@.len());
        }
        events
    }
}

} // verus!
