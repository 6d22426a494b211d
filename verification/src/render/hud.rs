//! HUD decisions: whether a finished game set a new best, and where the
//! overlays go.

use vstd::prelude::*;

use crate::persistence::HighScoreStore;

verus! {

/// The narrowest terminal the game is drawn in, in columns.
pub const MIN_WIDTH: u16 = 44;

/// The shortest terminal the game is drawn in, in rows.
pub const MIN_HEIGHT: u16 = 24;

/// Whether a `width` × `height` terminal is too small for the game, so
/// that a "too small" notice is shown in its place.
pub fn too_small(width: u16, height: u16) -> (b: bool)
    ensures
        b == (width < MIN_WIDTH || height < MIN_HEIGHT),
{
    width < MIN_WIDTH || height < MIN_HEIGHT
}

/// Returns `true` if `score` beats the current top score in `store`.
///
/// - If `store` is `None` → `false` (no comparison available).
/// - If the store is empty (no previous scores) → `true` (any score is a
///   new best).
pub fn is_new_best(score: u32, store: Option<&HighScoreStore>) -> (b: bool)
    ensures
        b == match store {
            None => false,
            Some(hs) => hs@.len() == 0 || score > hs@[0].score,
        },
{
    match store {
        None => false,
        Some(hs) => {
            let top = hs.top(1);
            if top.len() == 0 {
                // No previous scores — every score is a personal best.
                true
            } else {
                score > top[0].score
            }
        },
    }
}

/// A rectangle of terminal cells.
#[derive(Debug, Clone, Copy, PartialEq, Eq, Structural)]
pub struct Area {
    pub x: u16,
    pub y: u16,
    pub width: u16,
    pub height: u16,
}

/// A `w` × `h` rectangle centered in `area`, shrunk to fit it.
pub fn centered(area: Area, w: u16, h: u16) -> (r: Area)
    requires
        area.x + area.width <= u16::MAX,
        area.y + area.height <= u16::MAX,
    ensures
        r.width == (if w < area.width { w } else { area.width }),
        r.height == (if h < area.height { h } else { area.height }),
        r.x == area.x + (area.width - r.width) / 2,
        r.y == area.y + (area.height - r.height) / 2,
        area.x <= r.x && r.x + r.width <= area.x + area.width,
        area.y <= r.y && r.y + r.height <= area.y + area.height,
{
    let width = if w < area.width {
        w
    } else {
        area.width
    };
    let height = if h < area.height {
        h
    } else {
        area.height
    };
    let x = area.x + (area.width - width) / 2;
    let y = area.y + (area.height - height) / 2;
    Area { x, y, width, height }
}

/// Where the pause overlay (18 × 7) goes.
pub fn pause_overlay(area: Area) -> (r: Area)
    requires
        area.x + area.width <= u16::MAX,
        area.y + area.height <= u16::MAX,
    ensures
        r == centered_spec(area, 18, 7),
{
    centered(area, 18, 7)
}

/// The centered rectangle, as `centered` computes it.
pub open spec fn centered_spec(area: Area, w: u16, h: u16) -> Area {
    let width = if w < area.width { w } else { area.width };
    let height = if h < area.height { h } else { area.height };
    Area {
        x: (area.x + (area.width - width) / 2) as u16,
        y: (area.y + (area.height - height) / 2) as u16,
        width,
        height,
    }
}

/// Height of the game-over overlay: nine lines of content and the border,
/// two more for the "NEW BEST!" banner.
pub fn game_over_height(new_best: bool) -> (h: u16)
    ensures
        h == (if new_best { 13u16 } else { 11u16 }),
{
    if new_best {
        13
    } else {
        11
    }
}

} // verus!
