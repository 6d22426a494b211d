pub mod board;
pub mod piece;
pub mod rules;
pub mod srs;
pub mod bag;
pub mod state;
