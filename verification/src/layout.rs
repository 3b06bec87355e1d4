//! The pure mapping from grid coordinates to screen rectangles.
//!
//! All measures are in whole screen units.  The `(0, 0)` cell is centred on
//! the screen; every other cell is offset from it by one item extent plus
//! one margin per grid step.

use vstd::prelude::*;

use crate::grid::GridPosition;

verus! {

/// A position on the screen.
#[derive(Clone, Copy, PartialEq, Eq, Structural, Debug)]
pub struct ScreenPosition {
    pub x: i64,
    pub y: i64,
}

/// An extent on the screen.
#[derive(Clone, Copy, PartialEq, Eq, Structural, Debug)]
pub struct Space {
    pub width: i64,
    pub height: i64,
}

/// The largest screen measure the layout accepts; keeps the arithmetic
/// below within `i64` for every grid coordinate.
pub const MAX_SCREEN_UNIT: i64 = 0x7fff_ffff;

/// Take a grid position and return the space it occupies on the screen.
/// The margin affects spacing only: the returned size is always the item
/// size.
pub fn grid_position_to_screen(
    screen_space: &Space,
    grid_position: &GridPosition,
    width: i64,
    height: i64,
    margin: i64,
) -> (r: (ScreenPosition, Space))
    requires
        0 <= screen_space.width <= MAX_SCREEN_UNIT,
        0 <= screen_space.height <= MAX_SCREEN_UNIT,
        0 <= width <= MAX_SCREEN_UNIT,
        0 <= height <= MAX_SCREEN_UNIT,
        0 <= margin <= MAX_SCREEN_UNIT,
    ensures
        r.0.x == screen_space.width / 2 - width / 2 + (width + margin) * grid_position.x as int,
        r.0.y == screen_space.height / 2 - height / 2 + (height + margin) * grid_position.y as int,
        r.1.width == width,
        r.1.height == height,
{
    proof {
        lemma_step_product_bounded(width as int + margin as int, grid_position.x as int);
        lemma_step_product_bounded(height as int + margin as int, grid_position.y as int);
    }
    // the top left pixel of grid item 0,0
    let x_0 = screen_space.width / 2 - width / 2;
    let y_0 = screen_space.height / 2 - height / 2;

    let x = x_0 + (width + margin) * grid_position.x as i64;
    let y = y_0 + (height + margin) * grid_position.y as i64;

    (ScreenPosition { x, y }, Space { width, height })
}

/// The per-cell offset times a small grid coordinate stays far inside
/// `i64`.
proof fn lemma_step_product_bounded(step: int, coord: int)
    requires
        0 <= step <= 2 * MAX_SCREEN_UNIT,
        -128 <= coord <= 127,
    ensures
        -128 * 2 * MAX_SCREEN_UNIT <= step * coord <= 127 * 2 * MAX_SCREEN_UNIT,
{
    assert(-128 * (2 * 0x7fff_ffff) <= step * coord <= 127 * (2 * 0x7fff_ffff))
        by (nonlinear_arith)
        requires
            0 <= step <= 2 * 0x7fff_ffff,
            -128 <= coord <= 127,
    ;
}

} // verus!
