//! Exact planar points and the segments built from them.

use vstd::prelude::*;

verus! {

/// A point of the plane with rational coordinates `(x / den, y / den)`.
///
/// Raw anchors, border corners and the crossings of a correctly classified
/// cell all have `den > 0`. Given an id that does not match its samples,
/// `cell_segment` may place a crossing on an edge whose two samples are
/// equal: that point has `den == 0` and stands for no position.
#[derive(Debug, Clone, Copy, PartialEq, Eq, Structural)]
pub struct Point {
    pub x: i128,
    pub y: i128,
    pub den: i128,
}

/// A directed segment from `start` to `end`.
#[derive(Debug, Clone, Copy, PartialEq, Eq, Structural)]
pub struct Line {
    pub start: Point,
    pub end: Point,
}

/// One endpoint of a contour in its two representations: the exact
/// threshold crossing, used for drawing, and the fixed anchor at the
/// midpoint of the same cell edge, used to match endpoints.
#[derive(Debug, Clone, Copy, PartialEq, Eq, Structural)]
pub struct RichPoint {
    pub raw_point: Point,
    pub interpolated_point: Point,
}

/// A side of a rectangle: of one grid cell, or of the whole grid.
#[derive(Debug, Clone, Copy, PartialEq, Eq, Structural)]
pub enum Edge {
    Left,
    Top,
    Right,
    Bottom,
}

} // verus!
