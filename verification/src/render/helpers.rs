//! Pure helper functions for the renderer — no I/O, no terminal state.

use std::collections::VecDeque;

use vstd::prelude::*;

use crate::game::board::Board;
use crate::game::piece::{Piece, PieceKind};
use crate::render::theme::{kind_index, Theme};
use crate::text::{
    decimal, grouped, lemma_padded_grouped_without_spaces, pad_left, push_decimal, push_grouped,
    push_spaces, push_str, without_spaces,
};

verus! {

/// The row at which `piece` would land if dropped straight down: its
/// origin row plus the distance it can fall.
pub fn ghost_y(board: &Board, piece: &Piece) -> (y: i32)
    requires
        piece.near_board(),
    ensures
        board.is_drop_distance(*piece, y - piece.origin.1),
        piece.origin.1 <= y <= piece.origin.1 + 1040,
{
    let d = board.drop_distance(piece);
    piece.origin.1 + d
}

/// `body` right-aligned in a field of `width` characters; `k` is its length.
fn pad_to(body: String, k: usize, width: usize) -> (out: String)
    requires
        k == body@.len(),
    ensures
        out@ == pad_left(body@, width as nat),
{
    let mut out = String::new();
    if k < width {
        push_spaces(&mut out, width - k);
    }
    push_str(&mut out, body.as_str());
    assert(out@ =~= pad_left(body@, width as nat));
    out
}

/// Format a score with a space between groups of three digits,
/// right-aligned to 9 characters.
///
/// `format_score(0)` is `"        0"` and `format_score(1234567)` is
/// `"1 234 567"`.
pub fn format_score(score: u32) -> (s: String)
    ensures
        s@ == pad_left(grouped(score as nat), 9),
{
    let mut body = String::new();
    let k = push_grouped(&mut body, score as u64);
    assert(body@ =~= grouped(score as nat));
    pad_to(body, k, 9)
}

/// Taking the spaces out of a formatted score gives the score's plain
/// decimal digits back: the grouping and the padding add nothing else.
pub proof fn lemma_format_score_digits(score: u32)
    ensures
        without_spaces(pad_left(grouped(score as nat), 9)) == decimal(score as nat),
{
    lemma_padded_grouped_without_spaces(score as nat, 9);
}

/// Format a line count, right-aligned to 6 characters.
pub fn format_lines(n: u32) -> (s: String)
    ensures
        s@ == pad_left(decimal(n as nat), 6),
{
    let mut body = String::new();
    let k = push_decimal(&mut body, n as u64);
    assert(body@ =~= decimal(n as nat));
    pad_to(body, k, 6)
}

/// Format a level number, right-aligned to 3 characters.
pub fn format_level(level: u8) -> (s: String)
    ensures
        s@ == pad_left(decimal(level as nat), 3),
{
    let mut body = String::new();
    let k = push_decimal(&mut body, level as u64);
    assert(body@ =~= decimal(level as nat));
    pad_to(body, k, 3)
}

/// The queued kinds, each with its glyph in `theme`.
pub fn next_preview_glyphs(next_queue: &VecDeque<PieceKind>, theme: &Theme) -> (g: Vec<(PieceKind, char)>)
    ensures
        g@.len() == next_queue@.len(),
        forall|i: int|
            0 <= i < g@.len() ==> #[trigger] g@[i] == (next_queue@[i], theme.glyphs@[kind_index(
                next_queue@[i],
            )]),
{
    let mut out: Vec<(PieceKind, char)> = Vec::new();
    let mut i: usize = 0;
    while i < next_queue.len()
        invariant
            i <= next_queue@.len(),
            out@.len() == i,
            forall|j: int|
                0 <= j < i ==> #[trigger] out@[j] == (next_queue@[j], theme.glyphs@[kind_index(
                    next_queue@[j],
                )]),
        decreases next_queue@.len() - i,
    {
        let k = next_queue[i];
        out.push((k, theme.glyph(k)));
        i = i + 1;
    }
    out
}

} // verus!
