//! Falling-block puzzle game logic: board, pieces, rotation, scoring,
//! the game state machine, input timing and the high-score table.

pub mod cli;
pub mod game;
pub mod input;
pub mod persistence;
pub mod render;
pub mod session;
pub mod terminal;
pub mod text;

pub use game::piece::{Piece, PieceKind, Rotation};
pub use game::state::{
    Event, GameOverReason, GameOverZoom, GameState, Input, LineClearAnim, LineClearPhase, Phase,
    ScoreDisplay, SpawnAnim, GAMEOVER_ZOOM_MS, SCORE_ROLLUP_MS, SPAWN_FADE1_MS, SPAWN_FADE2_MS,
    SPAWN_FADE_TOTAL_MS,
};
