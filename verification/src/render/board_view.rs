//! The board as the renderer shows it: what each of the 10×20 visible
//! cells holds, and how far the spawn fade-in has come.
//!
//! Layers, from the bottom: locked cells (rows 20..40), highlighted while
//! a line clear plays out — flashed, then dimmed; the ghost piece at the
//! drop position, when it differs from the active piece's; the active
//! piece on top.

use vstd::prelude::*;

use crate::game::board::Board;
use crate::game::piece::{Piece, PieceKind};
use crate::game::state::{since, GameState, LineClearPhase, SPAWN_FADE1_MS, SPAWN_FADE_TOTAL_MS};
use crate::render::helpers::ghost_y;

verus! {

/// Number of visible rows (rows 20..40 of the 40-row playfield).
pub const VISIBLE_ROWS: usize = 20;

/// Number of columns.
pub const COLS: usize = 10;

/// What one visible cell shows.
#[derive(Debug, Clone, Copy, PartialEq, Eq, Structural)]
pub enum CellView {
    /// Background.
    Empty,
    /// A locked cell of the given kind.
    Locked(PieceKind),
    /// A locked cell of a row being cleared, in the flash phase.
    Flash,
    /// A locked cell of a row being cleared, in the dim phase.
    Dim,
    /// A cell of the ghost piece (where the active piece would land).
    Shadow,
    /// A cell of the active piece of the given kind.
    Active(PieceKind),
}

/// Whether `(col, row)` is one of the cells of `p`.
pub open spec fn piece_at(p: Piece, col: int, row: int) -> bool {
    exists|j: int| 0 <= j < 4 && #[trigger] p.cell_seq()[j] == (col, row)
}

/// The drop distance of `p` on `board`.
pub open spec fn drop_of(board: Board, p: Piece) -> int {
    choose|d: int| board.is_drop_distance(p, d)
}

/// A piece has one drop distance.
pub proof fn lemma_drop_unique(board: Board, p: Piece, d1: int, d2: int)
    requires
        board.is_drop_distance(p, d1),
        board.is_drop_distance(p, d2),
    ensures
        d1 == d2,
{
    if d1 < d2 {
        assert(board.fits(p.shifted(0, d1 + 1)));
    } else if d2 < d1 {
        assert(board.fits(p.shifted(0, d2 + 1)));
    }
}

/// The ghost piece: the active piece at its drop position, shown only when
/// that differs from where the piece is.
pub open spec fn ghost_of(state: GameState) -> Option<Piece> {
    match state.active {
        Some(p) => if drop_of(state.board, p) != 0 {
            Some(p.shifted(0, drop_of(state.board, p)))
        } else {
            None
        },
        None => None,
    }
}

/// Whether board row `row` is being cleared by the running animation.
pub open spec fn row_animated(state: GameState, row: int) -> bool {
    state.line_clear_anim matches Some(a) && a.rows@.contains(row as usize)
}

/// What the visible cell at `(col, vis_row)` shows; it is board cell
/// `(col, vis_row + 20)`.
pub open spec fn cell_view(state: GameState, col: int, vis_row: int) -> CellView {
    let row = vis_row + 20;
    if state.active matches Some(p) && piece_at(p, col, row) {
        CellView::Active(state.active->0.kind)
    } else if ghost_of(state) matches Some(g) && piece_at(g, col, row) {
        CellView::Shadow
    } else {
        match state.board.cell(col, row) {
            Some(k) => if row_animated(state, row) {
                match state.line_clear_anim->0.phase {
                    LineClearPhase::Flash => CellView::Flash,
                    LineClearPhase::Dim => CellView::Dim,
                }
            } else {
                CellView::Locked(k)
            },
            None => CellView::Empty,
        }
    }
}

/// Whether `cells` holds the coordinates of `p`'s cells.
spec fn cells_of(cells: Seq<(i32, i32)>, p: Piece) -> bool {
    &&& cells.len() == 4
    &&& forall|i: int| 0 <= i < 4 ==> (#[trigger] cells[i].0 as int, cells[i].1 as int) == p.cell_seq()[i]
}

/// Whether `(col, row)` is among `cells`.
fn hits(cells: &Vec<(i32, i32)>, col: i32, row: i32, Ghost(p): Ghost<Piece>) -> (h: bool)
    requires
        cells_of(cells@, p),
    ensures
        h == piece_at(p, col as int, row as int),
{
    let mut i: usize = 0;
    while i < 4
        invariant
            i <= 4,
            cells_of(cells@, p),
            forall|j: int| 0 <= j < i ==> p.cell_seq()[j] != (col as int, row as int),
        decreases 4 - i,
    {
        if cells[i].0 == col && cells[i].1 == row {
            assert(p.cell_seq()[i as int] == (col as int, row as int));
            return true;
        }
        i = i + 1;
    }
    false
}

/// Whether `row` is one of `rows`.
fn contains_row(rows: &Vec<usize>, row: usize) -> (c: bool)
    ensures
        c == rows@.contains(row),
{
    let mut i: usize = 0;
    while i < rows.len()
        invariant
            i <= rows@.len(),
            forall|j: int| 0 <= j < i ==> rows@[j] != row,
        decreases rows@.len() - i,
    {
        if rows[i] == row {
            return true;
        }
        i = i + 1;
    }
    false
}

/// The 200 visible cells, row by row from the top: entry `vis_row * 10 +
/// col` is what cell `(col, vis_row + 20)` shows.
pub fn visible_cells(state: &GameState) -> (v: Vec<CellView>)
    requires
        state.active matches Some(p) ==> p.near_board(),
    ensures
        v@.len() == VISIBLE_ROWS * COLS,
        forall|r: int, c: int|
            0 <= r < 20 && 0 <= c < 10 ==> #[trigger] v@[r * 10 + c] == cell_view(*state, c, r),
{
    // Cells of the active piece and of its ghost, if any.
    let mut active_cells: Vec<(i32, i32)> = Vec::new();
    let mut ghost_cells: Vec<(i32, i32)> = Vec::new();
    let mut has_active = false;
    let mut has_ghost = false;
    let mut active_kind = PieceKind::I;
    let ghost mut p_ghost: Piece = Piece { kind: PieceKind::I, rotation: crate::game::piece::Rotation::Zero, origin: (0, 0) };
    if let Some(active) = &state.active {
        has_active = true;
        active_kind = active.kind;
        active_cells = active.cells();
        let gy = ghost_y(&state.board, active);
        proof {
            let d = drop_of(state.board, *active);
            lemma_drop_unique(state.board, *active, d, gy - active.origin.1);
        }
        // Only draw the ghost where it differs from the active position.
        if gy != active.origin.1 {
            let shadow = Piece { origin: (active.origin.0, gy), ..*active };
            assert(shadow == active.shifted(0, gy - active.origin.1));
            proof {
                p_ghost = shadow;
            }
            has_ghost = true;
            ghost_cells = shadow.cells();
        }
    }
    let mut out: Vec<CellView> = Vec::new();
    let mut vis_row: usize = 0;
    while vis_row < VISIBLE_ROWS
        invariant
            vis_row <= VISIBLE_ROWS,
            out@.len() == vis_row * 10,
            has_active == state.active is Some,
            has_active ==> cells_of(active_cells@, state.active->0),
            has_active ==> active_kind == state.active->0.kind,
            has_ghost == ghost_of(*state) is Some,
            has_ghost ==> ghost_of(*state) == Some(p_ghost) && cells_of(ghost_cells@, p_ghost),
            forall|r: int, c: int|
                0 <= r < vis_row && 0 <= c < 10 ==> #[trigger] out@[r * 10 + c] == cell_view(*state, c, r),
        decreases VISIBLE_ROWS - vis_row,
    {
        let row = vis_row + 20;
        let mut col: usize = 0;
        while col < COLS
            invariant
                vis_row < VISIBLE_ROWS,
                row == vis_row + 20,
                col <= COLS,
                out@.len() == vis_row * 10 + col,
                has_active == state.active is Some,
                has_active ==> cells_of(active_cells@, state.active->0),
                has_active ==> active_kind == state.active->0.kind,
                has_ghost == ghost_of(*state) is Some,
                has_ghost ==> ghost_of(*state) == Some(p_ghost) && cells_of(ghost_cells@, p_ghost),
                forall|r: int, c: int|
                    0 <= r < vis_row && 0 <= c < 10 ==> #[trigger] out@[r * 10 + c] == cell_view(*state, c, r),
                forall|c: int|
                    0 <= c < col ==> #[trigger] out@[vis_row * 10 + c] == cell_view(*state, c, vis_row as int),
            decreases COLS - col,
        {
            let on_active = has_active && hits(&active_cells, col as i32, row as i32, Ghost(state.active->0));
            let on_ghost = has_ghost && hits(&ghost_cells, col as i32, row as i32, Ghost(p_ghost));
            let view = if on_active {
                CellView::Active(active_kind)
            } else if on_ghost {
                CellView::Shadow
            } else {
                match state.board.cell_kind(col, row) {
                    Some(k) => {
                        let animated = match &state.line_clear_anim {
                            Some(a) => contains_row(&a.rows, row),
                            None => false,
                        };
                        if animated {
                            match &state.line_clear_anim {
                                Some(a) => match a.phase {
                                    LineClearPhase::Flash => CellView::Flash,
                                    LineClearPhase::Dim => CellView::Dim,
                                },
                                None => CellView::Locked(k),
                            }
                        } else {
                            CellView::Locked(k)
                        }
                    },
                    None => CellView::Empty,
                }
            };
            assert(view == cell_view(*state, col as int, vis_row as int));
            out.push(view);
            proof {
                assert forall|r: int, c: int|
                    0 <= r < vis_row && 0 <= c < 10 implies #[trigger] out@[r * 10 + c] == cell_view(*state, c, r) by {
                    assert(r * 10 + c < vis_row * 10);
                }
                assert forall|c: int|
                    0 <= c < col + 1 implies #[trigger] out@[vis_row * 10 + c] == cell_view(*state, c, vis_row as int) by {
                    if c == col {
                        assert(out@[vis_row * 10 + c] == view);
                    }
                }
            }
            col = col + 1;
        }
        proof {
            assert forall|r: int, c: int|
                0 <= r < vis_row + 1 && 0 <= c < 10 implies #[trigger] out@[r * 10 + c] == cell_view(*state, c, r) by {
                if r == vis_row {
                    assert(out@[vis_row * 10 + c] == cell_view(*state, c, vis_row as int));
                }
            }
        }
        vis_row = vis_row + 1;
    }
    out
}

/// How bright the spawning piece is drawn, in percent, at clock reading
/// `now`: 60 for the first 40 ms, 80 until 80 ms, then 100 (and 100 when
/// no piece is fading in).
pub fn spawn_fade_percent(state: &GameState, now: u64) -> (pct: u8)
    ensures
        pct == match state.spawn_anim {
            None => 100u8,
            Some(sa) => if since(now, sa.started_at) >= SPAWN_FADE_TOTAL_MS * 1_000_000 {
                100u8
            } else if since(now, sa.started_at) >= SPAWN_FADE1_MS * 1_000_000 {
                80u8
            } else {
                60u8
            },
        },
{
    match &state.spawn_anim {
        None => 100,
        Some(sa) => {
            let elapsed = now.saturating_sub(sa.started_at);
            if elapsed >= SPAWN_FADE_TOTAL_MS * 1_000_000 {
                100
            } else if elapsed >= SPAWN_FADE1_MS * 1_000_000 {
                80
            } else {
                60
            }
        },
    }
}

/// One color channel dimmed to `pct` percent, rounded down.
pub fn dim_channel(c: u8, pct: u8) -> (d: u8)
    requires
        pct <= 100,
    ensures
        d == c * pct / 100,
{
    assert(c * pct <= 255 * 100) by (nonlinear_arith)
        requires
            c <= 255,
            pct <= 100,
    ;
    assert(c * pct / 100 <= 255) by (nonlinear_arith)
        requires
            c * pct <= 255 * 100,
            c * pct >= 0,
    ;
    ((c as u32 * pct as u32) / 100) as u8
}

} // verus!
