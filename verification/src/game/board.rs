use vstd::prelude::*;

use crate::game::piece::{Piece, PieceKind};

verus! {

/// Number of columns of the playfield.
pub const WIDTH: usize = 10;

/// Number of rows of the playfield (hidden buffer included).
pub const HEIGHT: usize = 40;

/// One board row, as a sequence of `WIDTH` cells.
pub type Row = Seq<Option<PieceKind>>;

/// A row in which every one of the ten cells is occupied.
pub open spec fn row_full(row: Row) -> bool {
    forall|c: int| 0 <= c < 10 ==> (#[trigger] row[c]) is Some
}

/// Row `r` of a cell sequence laid out row by row.
pub open spec fn row_of(cells: Seq<Option<PieceKind>>, r: int) -> Row {
    cells.subrange(r * 10, r * 10 + 10)
}

/// The rows `r..40` that are not full, from top to bottom.
pub open spec fn kept_from(cells: Seq<Option<PieceKind>>, r: int) -> Seq<Row>
    decreases 40 - r,
{
    if r >= 40 || r < 0 {
        Seq::empty()
    } else if row_full(row_of(cells, r)) {
        kept_from(cells, r + 1)
    } else {
        seq![row_of(cells, r)] + kept_from(cells, r + 1)
    }
}

/// How many of the rows `r..40` are full.
pub open spec fn full_rows_from(cells: Seq<Option<PieceKind>>, r: int) -> int {
    (40 - r) - kept_from(cells, r).len()
}


/// Indices of the full rows among rows `0..n`, in increasing order.
pub open spec fn full_row_indices(cells: Seq<Option<PieceKind>>, n: int) -> Seq<usize>
    decreases n,
{
    if n <= 0 {
        Seq::empty()
    } else if row_full(row_of(cells, n - 1)) {
        full_row_indices(cells, n - 1).push((n - 1) as usize)
    } else {
        full_row_indices(cells, n - 1)
    }
}

/// Whether the in-bounds cell with index `i` is one of the cells of `p`.
pub open spec fn covers(p: Piece, i: int) -> bool {
    exists|j: int|
        0 <= j < 4 && #[trigger] Board::in_bounds(p.cell_seq()[j].0, p.cell_seq()[j].1)
            && p.cell_seq()[j].1 * 10 + p.cell_seq()[j].0 == i
}

/// The cells after clearing the full rows: the rows that were not full,
/// in order, at the bottom, and empty rows above them.
pub open spec fn cleared_cells(cells: Seq<Option<PieceKind>>) -> Seq<Option<PieceKind>> {
    let n = full_rows_from(cells, 0);
    Seq::new(
        400,
        |i: int|
            if i / 10 < n {
                None
            } else {
                kept_from(cells, 0)[i / 10 - n][i % 10]
            },
    )
}

/// The cells after writing the kind of `p` into its on-board cells.
pub open spec fn placed_cells(cells: Seq<Option<PieceKind>>, p: Piece) -> Seq<Option<PieceKind>> {
    Seq::new(400, |i: int| if covers(p, i) { Some(p.kind) } else { cells[i] })
}

/// 10-column × 40-row playfield.
///
/// Rows 0..20 are the hidden buffer (spawn area).
/// Rows 20..40 are the visible playfield.
/// Origin (0, 0) is top-left; x increases rightward, y increases downward.
/// Cells are stored row by row: cell (col, row) is at index `row * 10 + col`.
#[derive(Debug, Clone, Copy, PartialEq, Eq)]
pub struct Board {
    cells: [Option<PieceKind>; 400],
}

impl View for Board {
    type V = Seq<Option<PieceKind>>;

    closed spec fn view(&self) -> Seq<Option<PieceKind>> {
        self.cells@
    }
}

impl Board {
    /// The content of the cell at (col, row), which must be in bounds.
    pub open spec fn cell(self, col: int, row: int) -> Option<PieceKind> {
        self@[row * 10 + col]
    }

    /// Whether (col, row) lies on the board.
    pub open spec fn in_bounds(col: int, row: int) -> bool {
        0 <= col < 10 && 0 <= row < 40
    }

    /// Out-of-bounds coordinates count as occupied (walls and floor).
    pub open spec fn occupied(self, col: int, row: int) -> bool {
        !Self::in_bounds(col, row) || self.cell(col, row) is Some
    }

    /// Row `r` of the board.
    pub open spec fn row(self, r: int) -> Row {
        row_of(self@, r)
    }

    /// A board has 40 rows of 10 cells.
    pub proof fn lemma_len(self)
        ensures
            self@.len() == 400,
    {
    }

    /// No cell of `p` is occupied or outside the board.
    pub open spec fn fits(self, p: Piece) -> bool {
        forall|i: int|
            0 <= i < 4 ==> !self.occupied(
                #[trigger] p.cell_seq()[i].0,
                p.cell_seq()[i].1,
            )
    }

    /// The piece rests on the stack or the floor: one row lower it would
    /// not fit.
    pub open spec fn grounded(self, p: Piece) -> bool {
        !self.fits(p.shifted(0, 1))
    }

    /// `d` is how far `p` falls straight down: it fits one, two, …, `d`
    /// rows lower, and does not fit `d + 1` rows lower.
    pub open spec fn is_drop_distance(self, p: Piece, d: int) -> bool {
        &&& d >= 0
        &&& forall|j: int| 0 < j <= d ==> #[trigger] self.fits(p.shifted(0, j))
        &&& !self.fits(p.shifted(0, d + 1))
    }

    /// A piece whose every cell is at row 40 or below does not fit.
    pub proof fn lemma_below_floor(self, p: Piece)
        requires
            p.origin.1 >= 40,
        ensures
            !self.fits(p),
    {
        crate::game::piece::lemma_shape_bounds(p.kind, p.rotation);
        assert(!Self::in_bounds(p.cell_seq()[0].0, p.cell_seq()[0].1));
    }

    /// How many rows `p` can fall straight down before it would collide.
    pub fn drop_distance(&self, p: &Piece) -> (d: i32)
        requires
            p.near_board(),
        ensures
            self.is_drop_distance(*p, d as int),
            0 <= d <= 1040,
    {
        let mut offset: i32 = 0;
        loop
            invariant
                p.near_board(),
                0 <= offset,
                p.origin.1 + offset <= 40 || offset == 0,
                forall|j: int| 0 < j <= offset ==> #[trigger] self.fits(p.shifted(0, j)),
            decreases 1040 - offset,
        {
            let below = p.shift(0, offset + 1);
            if self.collides(&below) {
                return offset;
            }
            proof {
                if p.origin.1 + offset + 1 >= 40 {
                    self.lemma_below_floor(below);
                }
            }
            offset = offset + 1;
        }
    }

    /// A piece that fits lies on the board, so its origin is near it.
    pub proof fn lemma_fits_near(self, p: Piece)
        requires
            self.fits(p),
        ensures
            p.near_board(),
            -3 <= p.origin.0 <= 9,
            -3 <= p.origin.1 <= 39,
    {
        crate::game::piece::lemma_shape_bounds(p.kind, p.rotation);
        assert(!self.occupied(p.cell_seq()[0].0, p.cell_seq()[0].1));
    }

    /// Whether some cell of `p` is occupied or outside the board.
    pub fn collides(&self, p: &Piece) -> (hit: bool)
        requires
            p.origin.0 <= i32::MAX - 3,
            p.origin.1 <= i32::MAX - 3,
        ensures
            hit == !self.fits(*p),
    {
        let cells = p.cells();
        let mut i: usize = 0;
        while i < 4
            invariant
                i <= 4,
                cells@.len() == 4,
                forall|j: int|
                    0 <= j < 4 ==> (#[trigger] cells@[j].0 as int, cells@[j].1 as int)
                        == p.cell_seq()[j],
                forall|j: int|
                    0 <= j < i ==> !self.occupied(
                        #[trigger] p.cell_seq()[j].0,
                        p.cell_seq()[j].1,
                    ),
            decreases 4 - i,
        {
            let (c, r) = cells[i];
            assert((cells@[i as int].0 as int, cells@[i as int].1 as int) == p.cell_seq()[i as int]);
            if self.is_occupied(c, r) {
                return true;
            }
            i = i + 1;
        }
        false
    }

    /// The cells of an empty board.
    pub open spec fn empty_cells() -> Seq<Option<PieceKind>> {
        Seq::new(400, |i: int| None::<PieceKind>)
    }

    /// Return an empty board with no occupied cells.
    pub fn empty() -> (b: Self)
        ensures
            b@ == Self::empty_cells(),
    {
        let b = Board { cells: [None; 400] };
        assert(b@ =~= Self::empty_cells());
        b
    }

    /// Return true if the cell at (col, row) is occupied or out-of-bounds.
    ///
    /// Out-of-bounds coordinates always return true so that collision
    /// checks treat walls and floor as solid.
    pub fn is_occupied(&self, col: i32, row: i32) -> (r: bool)
        ensures
            r == self.occupied(col as int, row as int),
    {
        if col < 0 || col >= 10 || row < 0 || row >= 40 {
            return true;
        }
        let idx = (row as usize) * 10 + (col as usize);
        self.cells[idx].is_some()
    }

    /// The content of the cell at (col, row); `None` when out of bounds.
    pub fn cell_kind(&self, col: usize, row: usize) -> (r: Option<PieceKind>)
        ensures
            r == (if Self::in_bounds(col as int, row as int) {
                self.cell(col as int, row as int)
            } else {
                None
            }),
    {
        if col >= 10 || row >= 40 {
            return None;
        }
        self.cells[row * 10 + col]
    }

    /// Place a piece kind at (col, row).
    pub fn set(&mut self, col: usize, row: usize, piece: PieceKind)
        requires
            col < 10,
            row < 40,
        ensures
            final(self)@ == old(self)@.update(row * 10 + col, Some(piece)),
    {
        self.cells[row * 10 + col] = Some(piece);
    }

    /// Writes the kind of `p` into every cell of `p` that lies on the board;
    /// cells outside the board are dropped.
    pub fn place(&mut self, p: &Piece)
        requires
            p.origin.0 <= i32::MAX - 3,
            p.origin.1 <= i32::MAX - 3,
        ensures
            final(self)@ == placed_cells(old(self)@, *p),
    {
        let cells = p.cells();
        let mut j: usize = 0;
        while j < 4
            invariant
                j <= 4,
                cells@.len() == 4,
                self@.len() == 400,
                forall|k: int|
                    0 <= k < 4 ==> (#[trigger] cells@[k].0 as int, cells@[k].1 as int)
                        == p.cell_seq()[k],
                forall|i: int|
                    0 <= i < 400 ==> #[trigger] self@[i] == (if exists|k: int|
                        0 <= k < j && #[trigger] Board::in_bounds(
                            p.cell_seq()[k].0,
                            p.cell_seq()[k].1,
                        ) && p.cell_seq()[k].1 * 10 + p.cell_seq()[k].0 == i {
                        Some(p.kind)
                    } else {
                        old(self)@[i]
                    }),
            decreases 4 - j,
        {
            let (c, r) = cells[j];
            assert((cells@[j as int].0 as int, cells@[j as int].1 as int) == p.cell_seq()[j as int]);
            let ghost prev = self@;
            if c >= 0 && r >= 0 && c < 10 && r < 40 {
                self.set(c as usize, r as usize, p.kind);
            }
            proof {
                assert forall|i: int|
                    0 <= i < 400 implies #[trigger] self@[i] == (if exists|k: int|
                    0 <= k < j + 1 && #[trigger] Board::in_bounds(
                        p.cell_seq()[k].0,
                        p.cell_seq()[k].1,
                    ) && p.cell_seq()[k].1 * 10 + p.cell_seq()[k].0 == i {
                    Some(p.kind)
                } else {
                    old(self)@[i]
                }) by {
                    if Board::in_bounds(p.cell_seq()[j as int].0, p.cell_seq()[j as int].1)
                        && p.cell_seq()[j as int].1 * 10 + p.cell_seq()[j as int].0 == i {
                        assert(self@[i] == Some(p.kind));
                    } else {
                        assert(self@[i] == prev[i]);
                        if exists|k: int|
                            0 <= k < j + 1 && #[trigger] Board::in_bounds(
                                p.cell_seq()[k].0,
                                p.cell_seq()[k].1,
                            ) && p.cell_seq()[k].1 * 10 + p.cell_seq()[k].0 == i {
                            let k = choose|k: int|
                                0 <= k < j + 1 && #[trigger] Board::in_bounds(
                                    p.cell_seq()[k].0,
                                    p.cell_seq()[k].1,
                                ) && p.cell_seq()[k].1 * 10 + p.cell_seq()[k].0 == i;
                            assert(k < j);
                        }
                    }
                }
            }
            j = j + 1;
        }
        assert(self@ =~= placed_cells(old(self)@, *p));
    }

    /// The indices of the full rows, top to bottom.
    pub fn full_rows(&self) -> (rows: Vec<usize>)
        ensures
            rows@ == full_row_indices(self@, 40),
    {
        let mut rows: Vec<usize> = Vec::new();
        let mut r: usize = 0;
        while r < 40
            invariant
                r <= 40,
                rows@ == full_row_indices(self@, r as int),
            decreases 40 - r,
        {
            if self.row_is_full(r) {
                rows.push(r);
            }
            r = r + 1;
        }
        rows
    }

    /// Whether row `r` (in bounds) is completely occupied.
    pub fn row_is_full(&self, r: usize) -> (full: bool)
        requires
            r < 40,
        ensures
            full == row_full(self.row(r as int)),
    {
        let mut c: usize = 0;
        while c < 10
            invariant
                c <= 10,
                r < 40,
                self@.len() == 400,
                forall|k: int| 0 <= k < c ==> (#[trigger] self.row(r as int)[k]) is Some,
            decreases 10 - c,
        {
            if self.cells[r * 10 + c].is_none() {
                assert(self.row(r as int)[c as int] is None);
                return false;
            }
            c = c + 1;
        }
        true
    }

    /// Clear all fully-occupied rows, shift everything above down,
    /// and return the number of rows cleared.
    ///
    /// The rows that were not full keep their order and end up at the
    /// bottom of the board; the cleared count of rows on top is empty.
    pub fn clear_full_rows(&mut self) -> (cleared: u8)
        ensures
            cleared as int == full_rows_from(old(self)@, 0),
            final(self)@ == cleared_cells(old(self)@),
            final(self)@.len() == 400,
            forall|r: int, c: int|
                0 <= r < 40 && 0 <= c < 10 ==> #[trigger] final(self).cell(c, r) == (if r
                    < cleared {
                    None
                } else {
                    kept_from(old(self)@, 0)[r - cleared][c]
                }),
    {
        let ghost orig = self@;
        let mut cleared: u8 = 0;
        let mut write_row: i64 = 39;
        let mut read_row: i64 = 39;
        proof {
            lemma_kept_len(orig, 40);
        }
        while read_row >= 0
            invariant
                -1 <= read_row <= write_row <= 39,
                orig.len() == 400,
                self@.len() == 400,
                write_row - read_row == cleared,
                kept_from(orig, read_row + 1).len() == 39 - write_row,
                cleared as int == full_rows_from(orig, read_row + 1),
                forall|i: int| 0 <= i < (read_row + 1) * 10 ==> #[trigger] self@[i] == orig[i],
                forall|r: int, c: int|
                    write_row < r < 40 && 0 <= c < 10 ==> #[trigger] self@[r * 10 + c]
                        == kept_from(orig, read_row + 1)[r - write_row - 1][c],
            decreases read_row + 1,
        {
            let r = read_row as usize;
            let ghost prev = self@;
            let ghost kept_prev = kept_from(orig, read_row + 1);
            proof {
                lemma_kept_len(orig, read_row as int);
                assert(self.row(r as int) =~= row_of(orig, r as int));
            }
            if self.row_is_full(r) {
                cleared = cleared + 1;
                proof {
                    assert(kept_from(orig, r as int) == kept_prev);
                }
            } else {
                let w = write_row as usize;
                let mut c: usize = 0;
                while c < 10
                    invariant
                        c <= 10,
                        r <= w < 40,
                        self@.len() == 400,
                        prev.len() == 400,
                        forall|i: int|
                            0 <= i < 400 && !(w * 10 <= i < w * 10 + c) ==> #[trigger] self@[i]
                                == prev[i],
                        forall|k: int| 0 <= k < c ==> #[trigger] self@[w * 10 + k] == prev[r * 10 + k],
                    decreases 10 - c,
                {
                    let v = self.cells[r * 10 + c];
                    self.cells[w * 10 + c] = v;
                    c = c + 1;
                }
                proof {
                    let kept_now = kept_from(orig, r as int);
                    assert(kept_now == seq![row_of(orig, r as int)] + kept_prev);
                    assert forall|rr: int, cc: int|
                        w - 1 < rr < 40 && 0 <= cc < 10 implies #[trigger] self@[rr * 10 + cc]
                        == kept_now[rr - (w - 1) - 1][cc] by {
                        if rr == w {
                            assert(self@[w * 10 + cc] == prev[r * 10 + cc]);
                            assert(prev[r * 10 + cc] == orig[r * 10 + cc]);
                            assert(kept_now[0] == row_of(orig, r as int));
                        } else {
                            assert(self@[rr * 10 + cc] == prev[rr * 10 + cc]);
                            assert(kept_now[rr - (w - 1) - 1] == kept_prev[rr - w - 1]);
                        }
                    }
                    assert forall|i: int| 0 <= i < r * 10 implies #[trigger] self@[i] == orig[i] by {
                        assert(self@[i] == prev[i]);
                    }
                }
                write_row = write_row - 1;
            }
            read_row = read_row - 1;
        }
        let top = (write_row + 1) as usize;
        let ghost compacted = self@;
        let mut r: usize = 0;
        while r < top
            invariant
                r <= top <= 40,
                top == cleared,
                self@.len() == 400,
                compacted.len() == 400,
                forall|i: int| 0 <= i < r * 10 ==> #[trigger] self@[i] is None,
                forall|i: int| top * 10 <= i < 400 ==> #[trigger] self@[i] == compacted[i],
            decreases top - r,
        {
            let mut c: usize = 0;
            while c < 10
                invariant
                    c <= 10,
                    r < top <= 40,
                    self@.len() == 400,
                    compacted.len() == 400,
                    forall|i: int| 0 <= i < r * 10 + c ==> #[trigger] self@[i] is None,
                    forall|i: int| top * 10 <= i < 400 ==> #[trigger] self@[i] == compacted[i],
                decreases 10 - c,
            {
                self.cells[r * 10 + c] = None;
                c = c + 1;
            }
            r = r + 1;
        }
        proof {
            assert forall|rr: int, cc: int|
                0 <= rr < 40 && 0 <= cc < 10 implies #[trigger] self.cell(cc, rr) == (if rr
                < cleared {
                None
            } else {
                kept_from(orig, 0)[rr - cleared][cc]
            }) by {
                if rr < cleared {
                    assert(self@[rr * 10 + cc] is None);
                } else {
                    assert(self@[rr * 10 + cc] == compacted[rr * 10 + cc]);
                }
            }
            assert forall|i: int| 0 <= i < 400 implies #[trigger] self@[i] == cleared_cells(orig)[i] by {
                let rr = i / 10;
                let cc = i % 10;
                assert(i == rr * 10 + cc);
                assert(self.cell(cc, rr) == self@[i]);
            }
            assert(self@ =~= cleared_cells(orig));
        }
        cleared
    }
}

/// The kept rows never outnumber the rows they are taken from.
pub proof fn lemma_kept_len(cells: Seq<Option<PieceKind>>, r: int)
    requires
        0 <= r <= 40,
    ensures
        kept_from(cells, r).len() <= 40 - r,
    decreases 40 - r,
{
    if r < 40 {
        lemma_kept_len(cells, r + 1);
    }
}

/// Every kept row is a ten-cell row that is not full.
proof fn lemma_kept_rows(cells: Seq<Option<PieceKind>>, r: int)
    requires
        0 <= r <= 40,
        cells.len() == 400,
    ensures
        forall|k: int|
            0 <= k < kept_from(cells, r).len() ==> !row_full(#[trigger] kept_from(cells, r)[k])
                && kept_from(cells, r)[k].len() == 10,
    decreases 40 - r,
{
    if r < 40 {
        lemma_kept_rows(cells, r + 1);
        if !row_full(row_of(cells, r)) {
            let rest = kept_from(cells, r + 1);
            assert forall|k: int| 0 <= k < kept_from(cells, r).len() implies !row_full(
                #[trigger] kept_from(cells, r)[k],
            ) && kept_from(cells, r)[k].len() == 10 by {
                if k > 0 {
                    assert(kept_from(cells, r)[k] == rest[k - 1]);
                }
            }
        }
    }
}

/// Clearing leaves no full row behind.
pub proof fn lemma_cleared_has_no_full_row(cells: Seq<Option<PieceKind>>)
    requires
        cells.len() == 400,
    ensures
        forall|r: int| 0 <= r < 40 ==> !row_full(#[trigger] row_of(cleared_cells(cells), r)),
{
    lemma_kept_len(cells, 0);
    lemma_kept_rows(cells, 0);
    let n = full_rows_from(cells, 0);
    let kept = kept_from(cells, 0);
    let out = cleared_cells(cells);
    assert forall|r: int| 0 <= r < 40 implies !row_full(#[trigger] row_of(out, r)) by {
        if r < n {
            assert(row_of(out, r)[0] is None);
        } else {
            let row = kept[r - n];
            assert forall|c: int| 0 <= c < 10 implies #[trigger] row_of(out, r)[c] == row[c] by {
                assert((r * 10 + c) / 10 == r);
                assert((r * 10 + c) % 10 == c);
            }
            let c0 = choose|c: int| 0 <= c < 10 && !(row[c] is Some);
            assert(row_of(out, r)[c0] == row[c0]);
        }
    }
}

/// The cells after writing, in order, each `(col, row, kind)` of `writes`
/// as `Board::set` does: the cell at `(col, row)` becomes `Some(kind)`.
pub open spec fn after_sets(
    cells: Seq<Option<PieceKind>>,
    writes: Seq<(int, int, PieceKind)>,
) -> Seq<Option<PieceKind>>
    decreases writes.len(),
{
    if writes.len() == 0 {
        cells
    } else {
        let w = writes.last();
        after_sets(cells, writes.drop_last()).update(w.1 * 10 + w.0, Some(w.2))
    }
}

/// The kind of the last write in `writes` to `(col, row)`, if any.
pub open spec fn last_write(writes: Seq<(int, int, PieceKind)>, col: int, row: int) -> Option<
    PieceKind,
>
    decreases writes.len(),
{
    if writes.len() == 0 {
        None
    } else if writes.last().0 == col && writes.last().1 == row {
        Some(writes.last().2)
    } else {
        last_write(writes.drop_last(), col, row)
    }
}

/// After a sequence of `set` calls, each cell holds the kind of the last
/// write to it, or what it held before when nothing was written there; so
/// a cell is occupied exactly when it was before or some write hit it.
pub proof fn lemma_sets_occupancy(
    cells: Seq<Option<PieceKind>>,
    writes: Seq<(int, int, PieceKind)>,
    col: int,
    row: int,
)
    requires
        cells.len() == 400,
        forall|j: int| 0 <= j < writes.len() ==> Board::in_bounds(#[trigger] writes[j].0, writes[j].1),
        Board::in_bounds(col, row),
    ensures
        after_sets(cells, writes).len() == 400,
        after_sets(cells, writes)[row * 10 + col] == match last_write(writes, col, row) {
            Some(k) => Some(k),
            None => cells[row * 10 + col],
        },
        after_sets(cells, writes)[row * 10 + col] is Some <==> (cells[row * 10 + col] is Some
            || exists|j: int| 0 <= j < writes.len() && #[trigger] writes[j].0 == col && writes[j].1 == row),
    decreases writes.len(),
{
    if writes.len() > 0 {
        let w = writes.last();
        let rest = writes.drop_last();
        assert forall|j: int| 0 <= j < rest.len() implies Board::in_bounds(
            #[trigger] rest[j].0,
            rest[j].1,
        ) by {
            assert(rest[j] == writes[j]);
        }
        lemma_sets_occupancy(cells, rest, col, row);
        assert(Board::in_bounds(writes[writes.len() - 1].0, writes[writes.len() - 1].1));
        if w.0 == col && w.1 == row {
            assert(writes[writes.len() - 1].0 == col);
        } else {
            assert(w.1 * 10 + w.0 != row * 10 + col);
            if exists|j: int| 0 <= j < writes.len() && #[trigger] writes[j].0 == col && writes[j].1
                == row {
                let j = choose|j: int|
                    0 <= j < writes.len() && #[trigger] writes[j].0 == col && writes[j].1 == row;
                assert(j < rest.len());
                assert(rest[j] == writes[j]);
            }
            if exists|j: int| 0 <= j < rest.len() && #[trigger] rest[j].0 == col && rest[j].1
                == row {
                let j = choose|j: int|
                    0 <= j < rest.len() && #[trigger] rest[j].0 == col && rest[j].1 == row;
                assert(rest[j] == writes[j]);
            }
        }
    }
}

} // verus!
