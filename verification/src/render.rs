//! From grid cells to rectangles on the drawing surface.

use crate::components::{Color, Position, MAP_HEIGHT, MAP_WIDTH};
use vstd::prelude::*;

verus! {

/// The size of the drawing surface in pixels.
#[derive(Clone, Copy, Debug, PartialEq, Eq)]
pub struct Surface {
    pub width: i32,
    pub height: i32,
}

/// A filled rectangle in surface pixels.
#[derive(Clone, Copy, Debug, PartialEq, Eq)]
pub struct Rect {
    pub x: i32,
    pub y: i32,
    pub width: i32,
    pub height: i32,
    pub color: Color,
}

impl Surface {
    /// A surface has no negative extent.
    pub open spec fn well_formed(self) -> bool {
        self.width >= 0 && self.height >= 0
    }

    /// The width of one grid cell in pixels.
    pub open spec fn cell_width(self) -> int {
        (self.width as int) / (MAP_WIDTH as int)
    }

    /// The height of one grid cell in pixels.
    pub open spec fn cell_height(self) -> int {
        (self.height as int) / (MAP_HEIGHT as int)
    }

    /// The rectangle that a cell of the given colour covers.
    pub open spec fn rect_at(self, at: Position, color: Color) -> Rect {
        Rect {
            x: (at.0 * self.cell_width()) as i32,
            y: (at.1 * self.cell_height()) as i32,
            width: self.cell_width() as i32,
            height: self.cell_height() as i32,
            color,
        }
    }
}

/// The rectangle that a cell of the given colour covers: one cell wide and
/// high, at the cell's column and row scaled by the cell's size.
pub fn cell_rect(surface: &Surface, at: &Position, color: Color) -> (rect: Rect)
    requires
        surface.well_formed(),
        at.on_grid(),
    ensures
        rect == surface.rect_at(*at, color),
        rect.x == at.0 * surface.cell_width(),
        rect.y == at.1 * surface.cell_height(),
        rect.width == surface.cell_width(),
        rect.height == surface.cell_height(),
        0 <= rect.x <= surface.width,
        0 <= rect.y <= surface.height,
{
    let w: i32 = surface.width / MAP_WIDTH;
    let h: i32 = surface.height / MAP_HEIGHT;
    assert(0 <= at.0 * w <= surface.width) by (nonlinear_arith)
        requires
            0 <= at.0 <= 30,
            0 <= w,
            30 * w <= surface.width,
    ;
    assert(0 <= at.1 * h <= surface.height) by (nonlinear_arith)
        requires
            0 <= at.1 <= 30,
            0 <= h,
            30 * h <= surface.height,
    ;
    Rect { x: at.0 * w, y: at.1 * h, width: w, height: h, color }
}

} // verus!
