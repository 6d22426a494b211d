//! Pure game-logic helpers (no I/O).
//!
//! Formulas:
//!
//! - **Gravity:** `gravity_seconds_per_cell = (0.8 − (level−1) × 0.007)
//!   ^ (level−1)`, clamped at level 20.
//! - **Soft-drop cap:** `effective_dt = max(natural_gravity / 20, 30 ms/cell)`.
//! - **Scoring:** 1→100×L, 2→300×L, 3→500×L, 4→800×L (×1.5 if B2B chain).
//! - **B2B:** 4-line clear starts/continues the chain; non-4-line clears
//!   break it; 0-line locks do NOT change B2B state.
//! - **Level:** every 10 lines → +1 level; max level 20 for gravity.
//! - **Lock delay:** 500 ms timer, up to 15 grounded-move resets per piece.
//!
//! All durations are counted in nanoseconds.

use vstd::prelude::*;

verus! {

/// Nanoseconds in one millisecond.
pub const NANOS_PER_MILLI: u64 = 1_000_000;

/// `base` raised to the power `exp`.
pub open spec fn power(base: int, exp: nat) -> int
    decreases exp,
{
    if exp == 0 {
        1
    } else {
        base * power(base, (exp - 1) as nat)
    }
}

/// The gravity level actually used: levels above 20 behave like level 20.
pub open spec fn gravity_level(level: u8) -> int {
    if level > 20 {
        20
    } else {
        level as int
    }
}

/// Natural fall time per cell, in nanoseconds, rounded down:
/// `(0.8 − (l−1) × 0.007)^(l−1)` seconds with `l` the clamped level.
/// The base is written in thousandths: `0.8 − (l−1) × 0.007 = (807 − 7l) / 1000`.
pub open spec fn gravity_nanos(level: u8) -> int {
    let l = gravity_level(level);
    if l == 0 {
        // exponent −1: one second divided by 0.807
        1_000_000_000_000int / 807
    } else {
        1_000_000_000 * power(807 - 7 * l, (l - 1) as nat) / power(1000, (l - 1) as nat)
    }
}

// ── Gravity ───────────────────────────────────────────────────────────────────

/// Return the natural fall duration per cell for the given level, in
/// nanoseconds.
///
/// Formula (Guideline-inspired): `(0.8 − (level−1) × 0.007)^(level−1)` seconds.
/// Clamped so that levels above 20 use the level-20 value.
pub fn gravity_duration(level: u8) -> (d: u64)
    ensures
        d == gravity_nanos(level),
{
    proof {
        lemma_gravity_table();
    }
    match level {
        0 => 1239157372,
        1 => 1000000000,
        2 => 793000000,
        3 => 617796000,
        4 => 472729139,
        5 => 355196928,
        6 => 262003549,
        7 => 189677245,
        8 => 134734730,
        9 => 93882248,
        10 => 64151584,
        11 => 42976258,
        12 => 28217677,
        13 => 18153328,
        14 => 11439342,
        15 => 7058616,
        16 => 4263556,
        17 => 2520083,
        18 => 1457138,
        19 => 823906,
        _ => 455397,
    }
}


/// Effective fall time per cell while soft drop is held:
/// `max(natural / 20, 30 ms)`.
pub open spec fn soft_drop_nanos(level: u8) -> int {
    let divided = gravity_nanos(level) / 20;
    if divided > 30_000_000 {
        divided
    } else {
        30_000_000
    }
}

/// Return the effective fall duration per cell while soft-drop is held,
/// in nanoseconds: `max(natural_gravity / 20, 30 ms/cell)`.
pub fn soft_drop_effective_dt(level: u8) -> (d: u64)
    ensures
        d == soft_drop_nanos(level),
{
    let natural = gravity_duration(level);
    let divided = natural / 20;
    let floor: u64 = 30 * NANOS_PER_MILLI;
    if divided > floor {
        divided
    } else {
        floor
    }
}

/// Gravity gets strictly faster with every level from 1 to 20, and every
/// level from 20 up falls at the level-20 rate.
pub proof fn lemma_gravity_monotone(a: u8, b: u8)
    requires
        1 <= a < b,
    ensures
        b <= 20 ==> gravity_nanos(b) < gravity_nanos(a),
        a < 20 ==> gravity_nanos(b) < gravity_nanos(a),
        a >= 20 ==> gravity_nanos(b) == gravity_nanos(a),
        gravity_nanos(b) <= gravity_nanos(a),
{
    lemma_gravity_table();
}

/// Every gravity rate lies between the level-20 and the level-0 value.
pub proof fn lemma_gravity_range(level: u8)
    ensures
        455397 <= gravity_nanos(level) <= 1239157372,
        30_000_000 <= soft_drop_nanos(level) <= 1239157372,
{
    lemma_gravity_table();
}

/// The soft-drop rate is never slower than natural gravity divided by 20
/// and never faster than 30 ms per cell.
pub proof fn lemma_soft_drop_bounds(level: u8)
    ensures
        soft_drop_nanos(level) >= 30_000_000,
        soft_drop_nanos(level) >= gravity_nanos(level) / 20,
{
}

// ── Scoring ───────────────────────────────────────────────────────────────────

/// Score delta and new back-to-back state for a lock that cleared `lines`.
pub open spec fn line_clear_result(lines: u8, level: u8, b2b_going_in: bool) -> (int, bool) {
    let lv = level as int;
    if lines == 1 {
        (100 * lv, false)
    } else if lines == 2 {
        (300 * lv, false)
    } else if lines == 3 {
        (500 * lv, false)
    } else if lines == 4 {
        (if b2b_going_in { 1200 * lv } else { 800 * lv }, true)
    } else {
        (0, b2b_going_in)
    }
}

/// Scoring table per line-clear count (Guideline-style, no T-spin).
///
/// Returns `(score_delta, new_b2b_active)`.
///
/// - 0 lines locked: 0 pts, B2B state **unchanged**.
/// - 1 line: 100×level, **breaks** B2B (b2b_active → false).
/// - 2 lines: 300×level, **breaks** B2B.
/// - 3 lines: 500×level, **breaks** B2B.
/// - 4-line clear: 800×level; if B2B was already active → ×1.5 = 1200×level.
///   Sets b2b_active → true regardless.
/// - Any other count (not reachable in play): 0 pts, B2B unchanged.
pub fn score_line_clear(lines: u8, level: u8, b2b_going_in: bool) -> (r: (u32, bool))
    ensures
        (r.0 as int, r.1) == line_clear_result(lines, level, b2b_going_in),
{
    let lv = level as u32;
    match lines {
        0 => (0, b2b_going_in),
        1 => (100 * lv, false),
        2 => (300 * lv, false),
        3 => (500 * lv, false),
        4 => {
            let base = 800 * lv;
            let delta = if b2b_going_in {
                // 800 × level × 1.5, in integer arithmetic.
                base * 3 / 2
            } else {
                base
            };
            (delta, true)
        },
        _ => (0, b2b_going_in),
    }
}

/// A back-to-back 4-line clear scores one and a half times a plain one,
/// and every 4-line clear starts or continues the chain.
pub proof fn lemma_b2b_bonus(level: u8)
    ensures
        line_clear_result(4, level, true).0 * 2 == line_clear_result(4, level, false).0 * 3,
        line_clear_result(4, level, true).1,
        line_clear_result(4, level, false).1,
{
}

/// Clearing one to three lines breaks the chain; a lock that clears
/// nothing scores nothing and leaves the chain as it was.
pub proof fn lemma_b2b_chain(lines: u8, level: u8, b2b: bool)
    ensures
        1 <= lines <= 3 ==> !line_clear_result(lines, level, b2b).1,
        lines == 0 ==> line_clear_result(lines, level, b2b) == (0int, b2b),
{
}

/// A line clear scores its level-1 value times the level, and at every
/// level more lines score strictly more: single 100, double 300, triple
/// 500 and four lines 800 points per level.
pub proof fn lemma_clear_score_by_level(lines: u8, level: u8, b2b: bool)
    ensures
        line_clear_result(lines, level, b2b).0 == level * line_clear_result(lines, 1, b2b).0,
        line_clear_result(1, 1, b2b).0 == 100,
        line_clear_result(2, 1, b2b).0 == 300,
        line_clear_result(3, 1, b2b).0 == 500,
        line_clear_result(4, 1, false).0 == 800,
        level >= 1 ==> line_clear_result(1, level, b2b).0 < line_clear_result(2, level, b2b).0
            < line_clear_result(3, level, b2b).0 < line_clear_result(4, level, false).0,
{
    let lv = level as int;
    assert(lv * 100 == 100 * lv && lv * 300 == 300 * lv && lv * 500 == 500 * lv && lv * 800
        == 800 * lv && lv * 1200 == 1200 * lv && lv * 0 == 0) by (nonlinear_arith);
}

// ── Level progression ─────────────────────────────────────────────────────────

/// Level reached after `total_lines` cleared lines: one more every ten,
/// saturating at 255.
pub open spec fn level_for_lines(total_lines: u32) -> int {
    let level = 1 + total_lines / 10;
    if level > 255 {
        255
    } else {
        level
    }
}

/// Level after clearing `total_lines` total lines.
///
/// Starts at level 1; +1 every 10 lines cleared. No cap on score level
/// (gravity clamps internally at 20).
pub fn level_after_lines(total_lines: u32) -> (l: u8)
    ensures
        l == level_for_lines(total_lines),
{
    let level = 1 + total_lines / 10;
    if level > 255 {
        255
    } else {
        level as u8
    }
}

/// More cleared lines never lower the level.
pub proof fn lemma_level_monotone(a: u32, b: u32)
    requires
        a <= b,
    ensures
        level_for_lines(a) <= level_for_lines(b),
        1 <= level_for_lines(a),
{
    assert(a / 10 <= b / 10) by (nonlinear_arith)
        requires
            a <= b,
    ;
}

// ── Lock state ────────────────────────────────────────────────────────────────

/// Lock delay: a grounded piece locks after 500 ms.
pub const LOCK_DELAY: u64 = 500_000_000;

/// Number of grounded move/rotation resets allowed per piece.
pub const RESET_CAP: u8 = 15;

/// Per-piece lock-delay state.
///
/// - Timer starts when a piece first touches the floor/stack.
/// - Each successful grounded move/rotation resets the timer, up to
///   `RESET_CAP` total resets.
/// - Airborne: timer pauses, reset counter preserved.
/// - At cap: piece locks on the next ground-touch.
/// - Timer expiry while airborne: no-op.
#[derive(Debug, Clone, Copy, PartialEq, Eq)]
pub struct LockState {
    /// How long (ns) the piece has been continuously grounded this touch.
    pub elapsed: u64,
    /// How many grounded resets have been consumed so far.
    pub resets_used: u8,
    /// Whether the piece has left the ground since the timer started.
    pub airborne: bool,
}

/// The lock state after a reset request: accepted under the cap (timer
/// back to zero, one more reset used), refused at the cap (no change).
pub open spec fn after_reset(ls: LockState) -> LockState {
    if ls.resets_used < RESET_CAP {
        LockState { elapsed: 0, resets_used: (ls.resets_used + 1) as u8, airborne: ls.airborne }
    } else {
        ls
    }
}

impl LockState {
    pub fn new() -> (s: Self)
        ensures
            s.elapsed == 0,
            s.resets_used == 0,
            !s.airborne,
    {
        LockState { elapsed: 0, resets_used: 0, airborne: false }
    }

    /// Reset the 500 ms timer (called on a successful grounded move/rotation).
    /// Returns true if the reset was accepted (under cap); false if capped.
    pub fn reset_timer(&mut self) -> (accepted: bool)
        ensures
            accepted == (old(self).resets_used < RESET_CAP),
            *final(self) == after_reset(*old(self)),
    {
        if self.resets_used < RESET_CAP {
            self.elapsed = 0;
            self.resets_used = self.resets_used + 1;
            true
        } else {
            false
        }
    }

    /// Advance the elapsed timer by `dt` while grounded.
    /// Returns true if the piece should now lock (elapsed ≥ LOCK_DELAY).
    pub fn advance(&mut self, dt: u64) -> (expired: bool)
        requires
            old(self).elapsed + dt <= u64::MAX,
        ensures
            final(self).elapsed == old(self).elapsed + dt,
            final(self).resets_used == old(self).resets_used,
            final(self).airborne == old(self).airborne,
            expired == (final(self).elapsed >= LOCK_DELAY),
    {
        self.elapsed = self.elapsed + dt;
        self.elapsed >= LOCK_DELAY
    }

    /// Returns true if the reset cap has been reached, meaning the piece
    /// must lock on the next ground-touch regardless of the timer.
    pub fn is_capped(&self) -> (capped: bool)
        ensures
            capped == (self.resets_used >= RESET_CAP),
    {
        self.resets_used >= RESET_CAP
    }
}

impl Default for LockState {
    fn default() -> (s: Self)
        ensures
            s.elapsed == 0,
            s.resets_used == 0,
            !s.airborne,
    {
        Self::new()
    }
}


/// The per-level gravity values, evaluated.
proof fn lemma_gravity_table()
    ensures
        gravity_nanos(0) == 1239157372,
        gravity_nanos(1) == 1000000000,
        gravity_nanos(2) == 793000000,
        gravity_nanos(3) == 617796000,
        gravity_nanos(4) == 472729139,
        gravity_nanos(5) == 355196928,
        gravity_nanos(6) == 262003549,
        gravity_nanos(7) == 189677245,
        gravity_nanos(8) == 134734730,
        gravity_nanos(9) == 93882248,
        gravity_nanos(10) == 64151584,
        gravity_nanos(11) == 42976258,
        gravity_nanos(12) == 28217677,
        gravity_nanos(13) == 18153328,
        gravity_nanos(14) == 11439342,
        gravity_nanos(15) == 7058616,
        gravity_nanos(16) == 4263556,
        gravity_nanos(17) == 2520083,
        gravity_nanos(18) == 1457138,
        gravity_nanos(19) == 823906,
        gravity_nanos(20) == 455397,
{
    reveal_with_fuel(power, 21);
    assert(power(800, 0) == 1);
    assert(power(1000, 0) == 1);
    assert(1000000000int / 1int == 1000000000);
    assert(power(793, 1) == 793);
    assert(power(1000, 1) == 1000);
    assert(793000000000int / 1000int == 793000000);
    assert(power(786, 2) == 617796);
    assert(power(1000, 2) == 1000000);
    assert(617796000000000int / 1000000int == 617796000);
    assert(power(779, 3) == 472729139);
    assert(power(1000, 3) == 1000000000);
    assert(472729139000000000int / 1000000000int == 472729139);
    assert(power(772, 4) == 355196928256);
    assert(power(1000, 4) == 1000000000000);
    assert(355196928256000000000int / 1000000000000int == 355196928);
    assert(power(765, 5) == 262003549978125);
    assert(power(1000, 5) == 1000000000000000);
    assert(262003549978125000000000int / 1000000000000000int == 262003549);
    assert(power(758, 6) == 189677245332718144);
    assert(power(1000, 6) == 1000000000000000000);
    assert(189677245332718144000000000int / 1000000000000000000int == 189677245);
    assert(power(751, 7) == 134734730815558692751);
    assert(power(1000, 7) == 1000000000000000000000);
    assert(134734730815558692751000000000int / 1000000000000000000000int == 134734730);
    assert(power(744, 8) == 93882248904212654063616);
    assert(power(1000, 8) == 1000000000000000000000000);
    assert(93882248904212654063616000000000int / 1000000000000000000000000int == 93882248);
    assert(power(737, 9) == 64151584959855749233617377);
    assert(power(1000, 9) == 1000000000000000000000000000);
    assert(64151584959855749233617377000000000int / 1000000000000000000000000000int == 64151584);
    assert(power(730, 10) == 42976258297035576490000000000);
    assert(power(1000, 10) == 1000000000000000000000000000000);
    assert(42976258297035576490000000000000000000int / 1000000000000000000000000000000int == 42976258);
    assert(power(723, 11) == 28217677801211610563561725861227);
    assert(power(1000, 11) == 1000000000000000000000000000000000);
    assert(28217677801211610563561725861227000000000int / 1000000000000000000000000000000000int == 28217677);
    assert(power(716, 12) == 18153328543517712024454970585645056);
    assert(power(1000, 12) == 1000000000000000000000000000000000000);
    assert(18153328543517712024454970585645056000000000int / 1000000000000000000000000000000000000int == 18153328);
    assert(power(709, 13) == 11439342346807364131408437171701785429);
    assert(power(1000, 13) == 1000000000000000000000000000000000000000);
    assert(11439342346807364131408437171701785429000000000int / 1000000000000000000000000000000000000000int == 11439342);
    assert(power(702, 14) == 7058616220934208192117801379822016937984);
    assert(power(1000, 14) == 1000000000000000000000000000000000000000000);
    assert(7058616220934208192117801379822016937984000000000int / 1000000000000000000000000000000000000000000int == 7058616);
    assert(power(695, 15) == 4263556954438942762992679909182708740234375);
    assert(power(1000, 15) == 1000000000000000000000000000000000000000000000);
    assert(4263556954438942762992679909182708740234375000000000int / 1000000000000000000000000000000000000000000000int == 4263556);
    assert(power(688, 16) == 2520083969507792065167683957389082458970914816);
    assert(power(1000, 16) == 1000000000000000000000000000000000000000000000000);
    assert(2520083969507792065167683957389082458970914816000000000int / 1000000000000000000000000000000000000000000000000int == 2520083);
    assert(power(681, 17) == 1457138732840775887775309791865162818648487857961);
    assert(power(1000, 17) == 1000000000000000000000000000000000000000000000000000);
    assert(1457138732840775887775309791865162818648487857961000000000int / 1000000000000000000000000000000000000000000000000000int == 1457138);
    assert(power(674, 18) == 823906895565807704012838059168467507064696400510976);
    assert(power(1000, 18) == 1000000000000000000000000000000000000000000000000000000);
    assert(823906895565807704012838059168467507064696400510976000000000int / 1000000000000000000000000000000000000000000000000000000int == 823906);
    assert(power(667, 19) == 455397712108426548760295547661298222703102674708240803);
    assert(power(1000, 19) == 1000000000000000000000000000000000000000000000000000000000);
    assert(455397712108426548760295547661298222703102674708240803000000000int / 1000000000000000000000000000000000000000000000000000000000int == 455397);
}

/// The reset counter never passes the cap: a reset under the cap counts
/// one more, a reset at the cap changes nothing.
pub proof fn lemma_reset_cap(ls: LockState)
    requires
        ls.resets_used <= RESET_CAP,
    ensures
        after_reset(ls).resets_used <= RESET_CAP,
        ls.resets_used < RESET_CAP ==> after_reset(ls).elapsed == 0 && after_reset(ls).resets_used
            == ls.resets_used + 1,
        ls.resets_used == RESET_CAP ==> after_reset(ls) == ls,
{
}

} // verus!
