//! What the renderer shows, computed without a terminal: the HUD text,
//! the ghost row, the theme tables and the per-cell view of the board.

pub mod board_view;
pub mod helpers;
pub mod hud;
pub mod theme;


pub use hud::{too_small, MIN_HEIGHT, MIN_WIDTH};
pub use theme::Theme;
