//! Integer 2-D geometry: vectors and inclusive point-in-rectangle tests.

use vstd::prelude::*;

verus! {

/// An integer 2-D vector, used for positions, sizes and velocities.
#[derive(Clone, Copy, PartialEq, Eq, Structural, Debug)]
pub struct Vec2 {
    pub x: i32,
    pub y: i32,
}

impl Vec2 {
    /// Builds the vector (x, y).
    pub fn xy(x: i32, y: i32) -> (v: Vec2)
        ensures
            v.x == x,
            v.y == y,
    {
        Vec2 { x, y }
    }
}

/// Whether the point (px, py) lies inside the axis-aligned rectangle with
/// top-left corner (rx, ry) and size (w, h), inclusive on all four edges.
pub open spec fn in_rect(px: int, py: int, rx: int, ry: int, w: int, h: int) -> bool {
    rx <= px <= rx + w && ry <= py <= ry + h
}

/// Whether the point (px, py) lies in the half-open cell area of the same
/// rectangle: the right and bottom edges excluded. This is the sense in
/// which the cells of the brick grid are disjoint; the inclusive collision
/// rectangles of vertically adjacent bricks share their boundary row.
pub open spec fn in_cell(px: int, py: int, rx: int, ry: int, w: int, h: int) -> bool {
    rx <= px < rx + w && ry <= py < ry + h
}

} // verus!
