//! Piece kinds, rotation states, shapes and spawn positions.

use vstd::prelude::*;

verus! {

/// The seven piece kinds.
#[derive(Debug, Clone, Copy, PartialEq, Eq, Structural)]
pub enum PieceKind {
    I,
    O,
    T,
    S,
    Z,
    J,
    L,
}

/// The four rotation states.
#[derive(Debug, Clone, Copy, PartialEq, Eq, Structural)]
pub enum Rotation {
    Zero,
    R,
    Two,
    L,
}

/// A piece on the board: kind, rotation state, and grid origin.
///
/// `origin` is the top-left corner of the piece's bounding box in
/// board coordinates (col, row).  Cell offsets in the shape tables are
/// relative to this origin.
#[derive(Debug, Clone, Copy, PartialEq, Eq)]
pub struct Piece {
    pub kind: PieceKind,
    pub rotation: Rotation,
    pub origin: (i32, i32),
}

/// Cell offsets (col_delta, row_delta) of a piece kind in a rotation state,
/// relative to the top-left of its bounding box (rows grow downward).
///
/// I uses a 4x4 box, O a 2x2 box, and J, L, S, T, Z a 3x3 box; the
/// rotation states are those of the Super Rotation System.
pub open spec fn shape(kind: PieceKind, rotation: Rotation) -> Seq<(int, int)> {
    match kind {
        PieceKind::I => match rotation {
            Rotation::Zero => seq![(0, 1), (1, 1), (2, 1), (3, 1)],
            Rotation::R => seq![(2, 0), (2, 1), (2, 2), (2, 3)],
            Rotation::Two => seq![(0, 2), (1, 2), (2, 2), (3, 2)],
            Rotation::L => seq![(1, 0), (1, 1), (1, 2), (1, 3)],
        },
        PieceKind::O => seq![(0, 0), (1, 0), (0, 1), (1, 1)],
        PieceKind::T => match rotation {
            Rotation::Zero => seq![(1, 0), (0, 1), (1, 1), (2, 1)],
            Rotation::R => seq![(1, 0), (1, 1), (2, 1), (1, 2)],
            Rotation::Two => seq![(0, 1), (1, 1), (2, 1), (1, 2)],
            Rotation::L => seq![(1, 0), (0, 1), (1, 1), (1, 2)],
        },
        PieceKind::S => match rotation {
            Rotation::Zero => seq![(1, 0), (2, 0), (0, 1), (1, 1)],
            Rotation::R => seq![(1, 0), (1, 1), (2, 1), (2, 2)],
            Rotation::Two => seq![(1, 1), (2, 1), (0, 2), (1, 2)],
            Rotation::L => seq![(0, 0), (0, 1), (1, 1), (1, 2)],
        },
        PieceKind::Z => match rotation {
            Rotation::Zero => seq![(0, 0), (1, 0), (1, 1), (2, 1)],
            Rotation::R => seq![(2, 0), (1, 1), (2, 1), (1, 2)],
            Rotation::Two => seq![(0, 1), (1, 1), (1, 2), (2, 2)],
            Rotation::L => seq![(1, 0), (0, 1), (1, 1), (0, 2)],
        },
        PieceKind::J => match rotation {
            Rotation::Zero => seq![(0, 0), (0, 1), (1, 1), (2, 1)],
            Rotation::R => seq![(1, 0), (2, 0), (1, 1), (1, 2)],
            Rotation::Two => seq![(0, 1), (1, 1), (2, 1), (2, 2)],
            Rotation::L => seq![(1, 0), (1, 1), (0, 2), (1, 2)],
        },
        PieceKind::L => match rotation {
            Rotation::Zero => seq![(2, 0), (0, 1), (1, 1), (2, 1)],
            Rotation::R => seq![(1, 0), (1, 1), (1, 2), (2, 2)],
            Rotation::Two => seq![(0, 1), (1, 1), (2, 1), (0, 2)],
            Rotation::L => seq![(0, 0), (1, 0), (1, 1), (1, 2)],
        },
    }
}

/// Every shape offset lies in 0..=3 on both axes.
pub proof fn lemma_shape_bounds(kind: PieceKind, rotation: Rotation)
    ensures
        shape(kind, rotation).len() == 4,
        forall|i: int|
            0 <= i < 4 ==> 0 <= #[trigger] shape(kind, rotation)[i].0 <= 3 && 0
                <= shape(kind, rotation)[i].1 <= 3,
{
}

impl Piece {
    /// The origin is far enough from the `i32` limits that every cell of
    /// the piece, and of the piece moved by up to two cells in any
    /// direction, has representable coordinates.
    pub open spec fn in_range(self) -> bool {
        &&& i32::MIN + 2 <= self.origin.0 <= i32::MAX - 5
        &&& i32::MIN + 2 <= self.origin.1 <= i32::MAX - 5
    }

    /// The origin lies within 1000 cells of the board on both axes, which
    /// keeps every move and drop of the piece inside the `i32` range.
    pub open spec fn near_board(self) -> bool {
        &&& -1000 <= self.origin.0 <= 1000
        &&& -1000 <= self.origin.1 <= 1000
    }

    /// This piece moved by `dc` columns and `dr` rows.
    pub open spec fn shifted(self, dc: int, dr: int) -> Piece {
        Piece {
            kind: self.kind,
            rotation: self.rotation,
            origin: ((self.origin.0 + dc) as i32, (self.origin.1 + dr) as i32),
        }
    }

    /// Return this piece moved by `dc` columns and `dr` rows.
    pub fn shift(&self, dc: i32, dr: i32) -> (p: Piece)
        requires
            i32::MIN <= self.origin.0 + dc <= i32::MAX,
            i32::MIN <= self.origin.1 + dr <= i32::MAX,
        ensures
            p == self.shifted(dc as int, dr as int),
    {
        Piece {
            kind: self.kind,
            rotation: self.rotation,
            origin: (self.origin.0 + dc, self.origin.1 + dr),
        }
    }

    /// Absolute board coordinates of the cells of this piece.
    pub open spec fn cell_seq(self) -> Seq<(int, int)> {
        shape(self.kind, self.rotation).map_values(
            |d: (int, int)| (self.origin.0 + d.0, self.origin.1 + d.1),
        )
    }

    /// Return absolute board coordinates of this piece's occupied cells.
    pub fn cells(&self) -> (res: Vec<(i32, i32)>)
        requires
            self.origin.0 <= i32::MAX - 3,
            self.origin.1 <= i32::MAX - 3,
        ensures
            res@.len() == 4,
            forall|i: int|
                0 <= i < 4 ==> (#[trigger] res@[i].0 as int, res@[i].1 as int)
                    == self.cell_seq()[i],
    {
        let offsets = shape_offsets(self.kind, self.rotation);
        proof {
            lemma_shape_bounds(self.kind, self.rotation);
        }
        let mut out: Vec<(i32, i32)> = Vec::new();
        let mut i: usize = 0;
        while i < 4
            invariant
                i <= 4,
                out@.len() == i,
                self.origin.0 <= i32::MAX - 3,
                self.origin.1 <= i32::MAX - 3,
                forall|j: int| 0 <= j < 4 ==> (#[trigger] offsets[j].0 as int, offsets[j].1 as int)
                    == shape(self.kind, self.rotation)[j],
                forall|j: int|
                    0 <= j < 4 ==> 0 <= #[trigger] shape(self.kind, self.rotation)[j].0 <= 3 && 0
                        <= shape(self.kind, self.rotation)[j].1 <= 3,
                forall|j: int|
                    0 <= j < i ==> (#[trigger] out@[j].0 as int, out@[j].1 as int)
                        == self.cell_seq()[j],
            decreases 4 - i,
        {
            let (dc, dr) = offsets[i];
            assert(offsets[i as int].0 == shape(self.kind, self.rotation)[i as int].0);
            out.push((self.origin.0 + dc, self.origin.1 + dr));
            i = i + 1;
        }
        out
    }
}

/// Cell offsets (col_delta, row_delta) relative to the piece origin.
fn shape_offsets(kind: PieceKind, rotation: Rotation) -> (res: [(i32, i32); 4])
    ensures
        forall|j: int| 0 <= j < 4 ==> (#[trigger] res[j].0 as int, res[j].1 as int)
            == shape(kind, rotation)[j],
{
    match kind {
        PieceKind::I => match rotation {
            Rotation::Zero => [(0, 1), (1, 1), (2, 1), (3, 1)],
            Rotation::R => [(2, 0), (2, 1), (2, 2), (2, 3)],
            Rotation::Two => [(0, 2), (1, 2), (2, 2), (3, 2)],
            Rotation::L => [(1, 0), (1, 1), (1, 2), (1, 3)],
        },
        PieceKind::O => [(0, 0), (1, 0), (0, 1), (1, 1)],
        PieceKind::T => match rotation {
            Rotation::Zero => [(1, 0), (0, 1), (1, 1), (2, 1)],
            Rotation::R => [(1, 0), (1, 1), (2, 1), (1, 2)],
            Rotation::Two => [(0, 1), (1, 1), (2, 1), (1, 2)],
            Rotation::L => [(1, 0), (0, 1), (1, 1), (1, 2)],
        },
        PieceKind::S => match rotation {
            Rotation::Zero => [(1, 0), (2, 0), (0, 1), (1, 1)],
            Rotation::R => [(1, 0), (1, 1), (2, 1), (2, 2)],
            Rotation::Two => [(1, 1), (2, 1), (0, 2), (1, 2)],
            Rotation::L => [(0, 0), (0, 1), (1, 1), (1, 2)],
        },
        PieceKind::Z => match rotation {
            Rotation::Zero => [(0, 0), (1, 0), (1, 1), (2, 1)],
            Rotation::R => [(2, 0), (1, 1), (2, 1), (1, 2)],
            Rotation::Two => [(0, 1), (1, 1), (1, 2), (2, 2)],
            Rotation::L => [(1, 0), (0, 1), (1, 1), (0, 2)],
        },
        PieceKind::J => match rotation {
            Rotation::Zero => [(0, 0), (0, 1), (1, 1), (2, 1)],
            Rotation::R => [(1, 0), (2, 0), (1, 1), (1, 2)],
            Rotation::Two => [(0, 1), (1, 1), (2, 1), (2, 2)],
            Rotation::L => [(1, 0), (1, 1), (0, 2), (1, 2)],
        },
        PieceKind::L => match rotation {
            Rotation::Zero => [(2, 0), (0, 1), (1, 1), (2, 1)],
            Rotation::R => [(1, 0), (1, 1), (1, 2), (2, 2)],
            Rotation::Two => [(0, 1), (1, 1), (2, 1), (0, 2)],
            Rotation::L => [(0, 0), (1, 0), (1, 1), (1, 2)],
        },
    }
}

/// Where a freshly spawned piece of `kind` is placed.
pub open spec fn spawn_origin(kind: PieceKind) -> (i32, i32) {
    match kind {
        PieceKind::O => (4, 18),
        _ => (3, 18),
    }
}

/// Spawn a piece at the Guideline-inspired spawn position.
///
/// - O: 2-wide bbox top-left at (col=4, row=18) → cells at cols 4..=5.
/// - I, J, L, S, T, Z: bbox top-left at (col=3, row=18).
pub fn spawn(kind: PieceKind) -> (p: Piece)
    ensures
        p == (Piece { kind, rotation: Rotation::Zero, origin: spawn_origin(kind) }),
{
    let origin = match kind {
        PieceKind::O => (4, 18),
        _ => (3, 18),
    };
    Piece { kind, rotation: Rotation::Zero, origin }
}

} // verus!
