//! Tests for the per-cell board view, the spawn fade and overlay geometry.

use blocktxt::game::piece::PieceKind;
use blocktxt::render::board_view::{dim_channel, spawn_fade_percent, visible_cells, CellView};
use blocktxt::render::hud::{centered, game_over_height, pause_overlay, Area};
use blocktxt::render::theme::{Color, Palette, Theme};
use blocktxt::{GameState, Input, LineClearAnim, LineClearPhase};

const T0: u64 = 1_000_000_000_000;

fn ms(n: u64) -> u64 {
    n * 1_000_000
}

fn started(seed: u64) -> GameState {
    let mut gs = GameState::new(seed, T0);
    gs.step(0, T0, &[Input::StartGame]);
    gs
}

fn count(cells: &[CellView], want: CellView) -> usize {
    cells.iter().filter(|c| **c == want).count()
}

#[test]
fn fresh_round_shows_only_the_ghost() {
    let gs = started(42);
    let cells = visible_cells(&gs);
    assert_eq!(cells.len(), 200);
    // The new piece sits in the hidden rows; its ghost lies on the floor.
    assert_eq!(count(&cells, CellView::Shadow), 4);
    assert_eq!(cells.iter().filter(|c| matches!(c, CellView::Active(_))).count(), 0);
    // The ghost rests on the bottom row.
    assert!((0..10).any(|c| cells[19 * 10 + c] == CellView::Shadow));
}

#[test]
fn active_piece_hides_its_ghost_when_resting() {
    let mut gs = started(42);
    let kind = gs.active.unwrap().kind;
    gs.step(0, T0, &[Input::SoftDropOn]);
    for _ in 0..40 {
        gs.step(ms(50), T0, &[]);
    }
    if let Some(p) = gs.active {
        if p.kind == kind {
            let cells = visible_cells(&gs);
            assert_eq!(count(&cells, CellView::Active(kind)), 4);
            assert_eq!(count(&cells, CellView::Shadow), 0);
        }
    }
}

#[test]
fn locked_and_animated_rows() {
    let mut gs = started(42);
    gs.active = None;
    for col in 0..10usize {
        gs.board.set(col, 39, PieceKind::I);
    }
    gs.board.set(0, 38, PieceKind::T);
    let cells = visible_cells(&gs);
    assert_eq!(cells[18 * 10], CellView::Locked(PieceKind::T));
    assert_eq!(cells[19 * 10 + 5], CellView::Locked(PieceKind::I));
    assert_eq!(cells[18 * 10 + 1], CellView::Empty);

    gs.line_clear_anim = Some(LineClearAnim {
        rows: vec![39],
        started_at: T0,
        phase: LineClearPhase::Flash,
        board_snapshot: gs.board,
        pending_count: 1,
        pending_level_before: 1,
        pending_b2b_active: false,
    });
    let cells = visible_cells(&gs);
    assert_eq!(count(&cells, CellView::Flash), 10);
    assert_eq!(cells[18 * 10], CellView::Locked(PieceKind::T));
    if let Some(a) = gs.line_clear_anim.as_mut() {
        a.phase = LineClearPhase::Dim;
    }
    let cells = visible_cells(&gs);
    assert_eq!(count(&cells, CellView::Dim), 10);
}

#[test]
fn spawn_fade_steps_60_80_100() {
    let gs = started(42);
    assert_eq!(spawn_fade_percent(&gs, T0), 60);
    assert_eq!(spawn_fade_percent(&gs, T0 + ms(39)), 60);
    assert_eq!(spawn_fade_percent(&gs, T0 + ms(40)), 80);
    assert_eq!(spawn_fade_percent(&gs, T0 + ms(79)), 80);
    assert_eq!(spawn_fade_percent(&gs, T0 + ms(80)), 100);
    let title = GameState::new(1, T0);
    assert_eq!(spawn_fade_percent(&title, T0), 100);
}

#[test]
fn dim_channel_rounds_down() {
    assert_eq!(dim_channel(255, 60), 153);
    assert_eq!(dim_channel(255, 80), 204);
    assert_eq!(dim_channel(137, 60), 82);
    assert_eq!(dim_channel(200, 100), 200);
    assert_eq!(dim_channel(9, 0), 0);
}

#[test]
fn overlays_are_centered_and_clipped() {
    let area = Area { x: 22, y: 0, width: 58, height: 24 };
    assert_eq!(pause_overlay(area), Area { x: 42, y: 8, width: 18, height: 7 });
    let small = Area { x: 0, y: 0, width: 10, height: 5 };
    assert_eq!(centered(small, 20, 11), Area { x: 0, y: 0, width: 10, height: 5 });
    assert_eq!(game_over_height(true), 13);
    assert_eq!(game_over_height(false), 11);
}

/// A fresh title-screen game with its bottom three rows filled with S,
/// viewed with the full-color theme of `palette`: the three rows show as
/// locked S cells, the rest as background, and S cells take the palette's
/// S color.
fn check_palette_board(palette: Palette, s_color: Color) {
    let mut state = GameState::new(42, T0);
    for row in 37..40usize {
        for col in 0..10usize {
            state.board.set(col, row, PieceKind::S);
        }
    }
    let theme = Theme::truecolor(palette);
    let cells = visible_cells(&state);
    assert_eq!(cells.len(), 200);
    for r in 0..20 {
        for c in 0..10 {
            let want = if r >= 17 { CellView::Locked(PieceKind::S) } else { CellView::Empty };
            assert_eq!(cells[r * 10 + c], want, "cell ({c}, {r})");
        }
    }
    assert_eq!(theme.color(PieceKind::S), s_color);
    assert_eq!(theme.glyph(PieceKind::S), '\u{2588}');
}

#[test]
fn board_view_catppuccin_via_arg() {
    check_palette_board(Palette::CatppuccinMocha, Color::Rgb(0xa6, 0xe3, 0xa1));
}

#[test]
fn board_view_gruvbox() {
    check_palette_board(Palette::GruvboxDark, Color::Rgb(0xb8, 0xbb, 0x26));
}

#[test]
fn board_view_nord() {
    check_palette_board(Palette::Nord, Color::Rgb(0xa3, 0xbe, 0x8c));
}

#[test]
fn board_view_dracula() {
    check_palette_board(Palette::Dracula, Color::Rgb(0x50, 0xfa, 0x7b));
}
