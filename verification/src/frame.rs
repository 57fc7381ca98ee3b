//! The picture of the board: how large it is drawn.

use crate::geometry::Board;
use vstd::prelude::*;

verus! {

/// The side of one tile of the picture, in pixels of the frame.
pub const PIXELS_PER_TILE: usize = 2;

/// The side of a frame that holds `tiles` tiles and a border of one tile on
/// either side.
pub open spec fn framed(tiles: int) -> int {
    PIXELS_PER_TILE * (tiles + 2)
}

/// The smaller of two numbers.
pub open spec fn smaller(a: int, b: int) -> int {
    if a <= b {
        a
    } else {
        b
    }
}

/// The width and height of the frame on which a board is drawn with its
/// border, or `None` when a side does not fit in `usize`.
pub fn frame_size(board: &Board) -> (size: Option<(usize, usize)>)
    ensures
        size is Some <==> framed(board.w()) <= usize::MAX && framed(board.h()) <= usize::MAX,
        size matches Some((width, height)) ==> width == framed(board.w()) && height == framed(
            board.h(),
        ),
{
    let width = match board.width().checked_add(2) {
        Some(tiles) => tiles.checked_mul(PIXELS_PER_TILE),
        None => None,
    };
    let height = match board.height().checked_add(2) {
        Some(tiles) => tiles.checked_mul(PIXELS_PER_TILE),
        None => None,
    };
    match (width, height) {
        (Some(w), Some(h)) => Some((w, h)),
        _ => None,
    }
}

/// The largest whole factor by which a frame of the given resolution can be
/// blown up and still fit on a canvas.
pub fn pixel_scale(canvas_width: u32, canvas_height: u32, resolution: (usize, usize)) -> (scale:
    usize)
    requires
        resolution.0 > 0,
        resolution.1 > 0,
    ensures
        scale == smaller(canvas_width as int / resolution.0 as int, canvas_height as int
            / resolution.1 as int),
{
    let across = canvas_width as usize / resolution.0;
    let down = canvas_height as usize / resolution.1;
    if across <= down {
        across
    } else {
        down
    }
}

} // verus!
