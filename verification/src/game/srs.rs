//! Rotation with the Super Rotation System (SRS) wall-kick tables.

use vstd::prelude::*;

use crate::game::board::Board;
use crate::game::piece::{Piece, PieceKind, Rotation};

verus! {

/// Rotation direction.
#[derive(Debug, Clone, Copy, PartialEq, Eq, Structural)]
pub enum RotationDir {
    Cw,
    Ccw,
}

/// Errors returned by `rotate`.
#[derive(Debug, Clone, Copy, PartialEq, Eq, Structural)]
pub enum SrsError {
    /// All SRS kick offsets were blocked; rotation rejected.
    Blocked,
}

/// The rotation state reached from `from` by turning in direction `dir`.
pub open spec fn next_rotation(from: Rotation, dir: RotationDir) -> Rotation {
    match dir {
        RotationDir::Cw => match from {
            Rotation::Zero => Rotation::R,
            Rotation::R => Rotation::Two,
            Rotation::Two => Rotation::L,
            Rotation::L => Rotation::Zero,
        },
        RotationDir::Ccw => match from {
            Rotation::Zero => Rotation::L,
            Rotation::R => Rotation::Zero,
            Rotation::Two => Rotation::R,
            Rotation::L => Rotation::Two,
        },
    }
}

/// The five kick offsets (col, row) tried, in order, when a piece of
/// `kind` turns from `from` in direction `dir`.  Rows grow downward.
/// J, L, S, T, Z share one table, I has its own, and O turns in place.
pub open spec fn kicks(kind: PieceKind, from: Rotation, dir: RotationDir) -> Seq<(int, int)> {
    match kind {
        PieceKind::O => seq![(0, 0), (0, 0), (0, 0), (0, 0), (0, 0)],
        PieceKind::I => match from {
            Rotation::Zero => match dir {
                RotationDir::Cw => seq![(0, 0), (-2, 0), (1, 0), (-2, 1), (1, -2)],
                RotationDir::Ccw => seq![(0, 0), (-1, 0), (2, 0), (-1, -2), (2, 1)],
            },
            Rotation::R => match dir {
                RotationDir::Cw => seq![(0, 0), (-1, 0), (2, 0), (-1, -2), (2, 1)],
                RotationDir::Ccw => seq![(0, 0), (2, 0), (-1, 0), (2, -1), (-1, 2)],
            },
            Rotation::Two => match dir {
                RotationDir::Cw => seq![(0, 0), (2, 0), (-1, 0), (2, -1), (-1, 2)],
                RotationDir::Ccw => seq![(0, 0), (1, 0), (-2, 0), (1, 2), (-2, -1)],
            },
            Rotation::L => match dir {
                RotationDir::Cw => seq![(0, 0), (1, 0), (-2, 0), (1, 2), (-2, -1)],
                RotationDir::Ccw => seq![(0, 0), (-2, 0), (1, 0), (-2, 1), (1, -2)],
            },
        },
        _ => match from {
            Rotation::Zero => match dir {
                RotationDir::Cw => seq![(0, 0), (-1, 0), (-1, -1), (0, 2), (-1, 2)],
                RotationDir::Ccw => seq![(0, 0), (1, 0), (1, -1), (0, 2), (1, 2)],
            },
            Rotation::R => match dir {
                RotationDir::Cw => seq![(0, 0), (1, 0), (1, 1), (0, -2), (1, -2)],
                RotationDir::Ccw => seq![(0, 0), (1, 0), (1, 1), (0, -2), (1, -2)],
            },
            Rotation::Two => match dir {
                RotationDir::Cw => seq![(0, 0), (1, 0), (1, -1), (0, 2), (1, 2)],
                RotationDir::Ccw => seq![(0, 0), (-1, 0), (-1, -1), (0, 2), (-1, 2)],
            },
            Rotation::L => match dir {
                RotationDir::Cw => seq![(0, 0), (-1, 0), (-1, 1), (0, -2), (-1, -2)],
                RotationDir::Ccw => seq![(0, 0), (-1, 0), (-1, 1), (0, -2), (-1, -2)],
            },
        },
    }
}

/// The piece obtained by turning `p` in direction `dir` and shifting it by
/// kick number `k`.
pub open spec fn kicked(p: Piece, dir: RotationDir, k: int) -> Piece {
    let off = kicks(p.kind, p.rotation, dir)[k];
    Piece {
        kind: p.kind,
        rotation: next_rotation(p.rotation, dir),
        origin: ((p.origin.0 + off.0) as i32, (p.origin.1 + off.1) as i32),
    }
}

/// The first kicked position, trying kicks `k..5` in order, that fits on
/// the board.
pub open spec fn first_fit(p: Piece, dir: RotationDir, board: Board, k: int) -> Option<Piece>
    decreases 5 - k,
{
    if k >= 5 || k < 0 {
        None
    } else if board.fits(kicked(p, dir, k)) {
        Some(kicked(p, dir, k))
    } else {
        first_fit(p, dir, board, k + 1)
    }
}

/// The outcome of a rotation: the first kick that fits, or `Blocked`.
pub open spec fn rotation_result(p: Piece, dir: RotationDir, board: Board) -> Result<Piece, SrsError> {
    match first_fit(p, dir, board, 0) {
        Some(q) => Ok(q),
        None => Err(SrsError::Blocked),
    }
}

/// A successful rotation yields a piece that fits on the board.
pub proof fn lemma_rotation_fits(p: Piece, dir: RotationDir, board: Board)
    ensures
        rotation_result(p, dir, board) matches Ok(q) ==> board.fits(q),
{
    lemma_first_fit_fits(p, dir, board, 0);
}

proof fn lemma_first_fit_fits(p: Piece, dir: RotationDir, board: Board, k: int)
    ensures
        first_fit(p, dir, board, k) matches Some(q) ==> board.fits(q),
    decreases 5 - k,
{
    if 0 <= k < 5 && !board.fits(kicked(p, dir, k)) {
        lemma_first_fit_fits(p, dir, board, k + 1);
    }
}

/// Every kick shifts by at most two cells on each axis.
pub proof fn lemma_kick_bounds(kind: PieceKind, from: Rotation, dir: RotationDir)
    ensures
        kicks(kind, from, dir).len() == 5,
        forall|k: int|
            0 <= k < 5 ==> -2 <= #[trigger] kicks(kind, from, dir)[k].0 <= 2 && -2
                <= kicks(kind, from, dir)[k].1 <= 2,
{
}

/// The direction that undoes a turn in direction `dir`.
pub open spec fn opposite(dir: RotationDir) -> RotationDir {
    match dir {
        RotationDir::Cw => RotationDir::Ccw,
        RotationDir::Ccw => RotationDir::Cw,
    }
}

/// Every offset of `offsets` pointing the other way.
pub open spec fn negated(offsets: Seq<(int, int)>) -> Seq<(int, int)> {
    Seq::new(offsets.len(), |k: int| (-offsets[k].0, -offsets[k].1))
}

/// The kick tables are reversible: turning back undoes the turn, and the
/// kicks tried on the way back are those of the way there, negated, in
/// the same order.  The first kick of every turn is no shift at all.
pub proof fn lemma_kicks_reversible(kind: PieceKind, from: Rotation, dir: RotationDir)
    ensures
        next_rotation(next_rotation(from, dir), opposite(dir)) == from,
        kicks(kind, next_rotation(from, dir), opposite(dir)) == negated(kicks(kind, from, dir)),
        kicks(kind, from, dir)[0] == (0int, 0int),
{
    assert(kicks(kind, next_rotation(from, dir), opposite(dir)) =~= negated(
        kicks(kind, from, dir),
    ));
}

fn kick_table(kind: PieceKind, from: Rotation, dir: RotationDir) -> (res: [(i32, i32); 5])
    ensures
        forall|k: int| 0 <= k < 5 ==> (#[trigger] res[k].0 as int, res[k].1 as int)
            == kicks(kind, from, dir)[k],
{
    match kind {
        PieceKind::O => [(0, 0), (0, 0), (0, 0), (0, 0), (0, 0)],
        PieceKind::I => match from {
            Rotation::Zero => match dir {
                RotationDir::Cw => [(0, 0), (-2, 0), (1, 0), (-2, 1), (1, -2)],
                RotationDir::Ccw => [(0, 0), (-1, 0), (2, 0), (-1, -2), (2, 1)],
            },
            Rotation::R => match dir {
                RotationDir::Cw => [(0, 0), (-1, 0), (2, 0), (-1, -2), (2, 1)],
                RotationDir::Ccw => [(0, 0), (2, 0), (-1, 0), (2, -1), (-1, 2)],
            },
            Rotation::Two => match dir {
                RotationDir::Cw => [(0, 0), (2, 0), (-1, 0), (2, -1), (-1, 2)],
                RotationDir::Ccw => [(0, 0), (1, 0), (-2, 0), (1, 2), (-2, -1)],
            },
            Rotation::L => match dir {
                RotationDir::Cw => [(0, 0), (1, 0), (-2, 0), (1, 2), (-2, -1)],
                RotationDir::Ccw => [(0, 0), (-2, 0), (1, 0), (-2, 1), (1, -2)],
            },
        },
        _ => match from {
            Rotation::Zero => match dir {
                RotationDir::Cw => [(0, 0), (-1, 0), (-1, -1), (0, 2), (-1, 2)],
                RotationDir::Ccw => [(0, 0), (1, 0), (1, -1), (0, 2), (1, 2)],
            },
            Rotation::R => match dir {
                RotationDir::Cw => [(0, 0), (1, 0), (1, 1), (0, -2), (1, -2)],
                RotationDir::Ccw => [(0, 0), (1, 0), (1, 1), (0, -2), (1, -2)],
            },
            Rotation::Two => match dir {
                RotationDir::Cw => [(0, 0), (1, 0), (1, -1), (0, 2), (1, 2)],
                RotationDir::Ccw => [(0, 0), (-1, 0), (-1, -1), (0, 2), (-1, 2)],
            },
            Rotation::L => match dir {
                RotationDir::Cw => [(0, 0), (-1, 0), (-1, 1), (0, -2), (-1, -2)],
                RotationDir::Ccw => [(0, 0), (-1, 0), (-1, 1), (0, -2), (-1, -2)],
            },
        },
    }
}

fn turn(from: Rotation, dir: RotationDir) -> (r: Rotation)
    ensures
        r == next_rotation(from, dir),
{
    match dir {
        RotationDir::Cw => match from {
            Rotation::Zero => Rotation::R,
            Rotation::R => Rotation::Two,
            Rotation::Two => Rotation::L,
            Rotation::L => Rotation::Zero,
        },
        RotationDir::Ccw => match from {
            Rotation::Zero => Rotation::L,
            Rotation::R => Rotation::Zero,
            Rotation::Two => Rotation::R,
            Rotation::L => Rotation::Two,
        },
    }
}

/// Rotate `piece` in direction `dir` using the SRS kick tables.
///
/// The kick offsets for the turn are tried in order; the first position
/// in which the turned piece fits on `board` is returned.  When none fits
/// the rotation is rejected with `SrsError::Blocked`.
pub fn rotate(piece: &Piece, dir: RotationDir, board: &Board) -> (r: Result<Piece, SrsError>)
    requires
        piece.in_range(),
    ensures
        r == rotation_result(*piece, dir, *board),
{
    let table = kick_table(piece.kind, piece.rotation, dir);
    let to = turn(piece.rotation, dir);
    proof {
        lemma_kick_bounds(piece.kind, piece.rotation, dir);
    }
    let mut k: usize = 0;
    while k < 5
        invariant
            k <= 5,
            piece.in_range(),
            to == next_rotation(piece.rotation, dir),
            kicks(piece.kind, piece.rotation, dir).len() == 5,
            forall|j: int| 0 <= j < 5 ==> (#[trigger] table[j].0 as int, table[j].1 as int)
                == kicks(piece.kind, piece.rotation, dir)[j],
            forall|j: int|
                0 <= j < 5 ==> -2 <= #[trigger] kicks(piece.kind, piece.rotation, dir)[j].0 <= 2
                    && -2 <= kicks(piece.kind, piece.rotation, dir)[j].1 <= 2,
            first_fit(*piece, dir, *board, 0) == first_fit(*piece, dir, *board, k as int),
        decreases 5 - k,
    {
        let (dc, dr) = table[k];
        assert(table[k as int].0 == kicks(piece.kind, piece.rotation, dir)[k as int].0);
        assert(table[k as int].1 == kicks(piece.kind, piece.rotation, dir)[k as int].1);
        let candidate = Piece {
            kind: piece.kind,
            rotation: to,
            origin: (piece.origin.0 + dc, piece.origin.1 + dr),
        };
        assert(candidate == kicked(*piece, dir, k as int));
        if !board.collides(&candidate) {
            return Ok(candidate);
        }
        k = k + 1;
    }
    Err(SrsError::Blocked)
}

} // verus!
