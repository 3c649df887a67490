//! Closing open paths whose two ends lie on the border of the grid.

use vstd::prelude::*;

use crate::geometry::{Edge, Point, RichPoint};
use crate::path::{first_raw, last_raw, Path, PathView};

verus! {

/// Whether open paths are closed along the border of a grid, and if so the
/// grid's width and height in samples.
#[derive(Debug, Clone, Copy, PartialEq, Eq, Structural)]
pub enum CloseEdges {
    Off,
    ForExtent(u32, u32),
}

/// The side of a `width` by `height` grid that the point `p` lies on:
/// left when `x <= 1/2`, else top when `y <= 1/2`, else right when
/// `x >= width - 1`, else bottom when `y >= height - 1`. A point whose
/// denominator is not positive lies on none.
pub open spec fn edge_of(p: Point, width: u32, height: u32) -> Option<Edge> {
    if p.den <= 0 {
        None
    } else if 2 * p.x <= p.den {
        Some(Edge::Left)
    } else if 2 * p.y <= p.den {
        Some(Edge::Top)
    } else if p.x >= (width - 1) * p.den {
        Some(Edge::Right)
    } else if p.y >= (height - 1) * p.den {
        Some(Edge::Bottom)
    } else {
        None
    }
}

/// A corner of the border, in both representations, at `(x / 2, y / 2)`.
pub open spec fn border_corner(x: int, y: int) -> RichPoint {
    let p = Point { x: x as i128, y: y as i128, den: 2 };
    RichPoint { raw_point: p, interpolated_point: p }
}

/// The corners appended to a path that starts on side `begin` and ends on
/// side `end` of a `width` by `height` grid, walking the border from the end
/// back to the start. The top-left corner is `(0, 0)`, the top-right
/// `(width - 1/2, 0)`, the bottom-left `(0, height - 1/2)` and the
/// bottom-right `(width - 1/2, height - 1/2)`.
pub open spec fn closing_corners(begin: Edge, end: Edge, width: u32, height: u32) -> Seq<RichPoint> {
    let top_left = border_corner(0, 0);
    let top_right = border_corner(2 * width - 1, 0);
    let bottom_left = border_corner(0, 2 * height - 1);
    let bottom_right = border_corner(2 * width - 1, 2 * height - 1);
    match (begin, end) {
        (Edge::Left, Edge::Top) => seq![top_right, bottom_right, bottom_left],
        (Edge::Left, Edge::Right) => seq![bottom_right, bottom_left],
        (Edge::Left, Edge::Bottom) => seq![bottom_left],
        (Edge::Top, Edge::Left) => seq![top_left],
        (Edge::Top, Edge::Right) => seq![top_right],
        (Edge::Top, Edge::Bottom) => seq![bottom_left, top_left],
        (Edge::Right, Edge::Left) => seq![top_left, top_right],
        (Edge::Right, Edge::Top) => seq![top_right],
        (Edge::Right, Edge::Bottom) => seq![bottom_left, top_left, top_right],
        (Edge::Bottom, Edge::Left) => seq![bottom_left],
        (Edge::Bottom, Edge::Top) => seq![top_right, bottom_right],
        (Edge::Bottom, Edge::Right) => seq![bottom_right],
        _ => seq![],
    }
}

/// The path `p` after border closing: an open path whose first and last raw
/// points both lie on the border gets the corners between them and is
/// marked closed; any other path is left as it is.
pub open spec fn close_path(p: PathView, width: u32, height: u32) -> PathView {
    if p.closed {
        p
    } else {
        match (edge_of(first_raw(p), width, height), edge_of(last_raw(p), width, height)) {
            (Some(begin), Some(end)) => PathView {
                points: p.points + closing_corners(begin, end, width, height),
                closed: true,
            },
            _ => p,
        }
    }
}

/// The side of the grid of the given extent that the raw point of `point`
/// lies on, if any.
fn on_edge(point: &RichPoint, extents: (u32, u32)) -> (r: Option<Edge>)
    ensures
        r == edge_of(point.raw_point, extents.0, extents.1),
{
    let (width, height) = extents;
    let Point { x, y, den } = point.raw_point;
    if den <= 0 {
        return None;
    }
    if x <= 0 || x <= den - x {
        return Some(Edge::Left);
    }
    if y <= 0 || y <= den - y {
        return Some(Edge::Top);
    }
    assert((width - 1) * den >= -den) by (nonlinear_arith)
        requires
            width >= 0,
            den > 0,
    ;
    assert((height - 1) * den >= -den) by (nonlinear_arith)
        requires
            height >= 0,
            den > 0,
    ;
    let right = match (width as i128 - 1).checked_mul(den) {
        Some(limit) => x >= limit,
        None => false,
    };
    if right {
        return Some(Edge::Right);
    }
    let bottom = match (height as i128 - 1).checked_mul(den) {
        Some(limit) => y >= limit,
        None => false,
    };
    if bottom {
        return Some(Edge::Bottom);
    }
    None
}

/// The corner `(x / 2, y / 2)` of the border.
fn corner(x: i128, y: i128) -> (r: RichPoint)
    ensures
        r == border_corner(x as int, y as int),
{
    let p = Point { x, y, den: 2 };
    RichPoint { raw_point: p, interpolated_point: p }
}

/// The corners that close a path from side `begin` to side `end`.
fn closing_corner_points(begin: Edge, end: Edge, width: u32, height: u32) -> (r: Vec<RichPoint>)
    ensures
        r@ == closing_corners(begin, end, width, height),
{
    let right = 2 * width as i128 - 1;
    let bottom = 2 * height as i128 - 1;
    let top_left = corner(0, 0);
    let top_right = corner(right, 0);
    let bottom_left = corner(0, bottom);
    let bottom_right = corner(right, bottom);
    let r = match (begin, end) {
        (Edge::Left, Edge::Top) => vec![top_right, bottom_right, bottom_left],
        (Edge::Left, Edge::Right) => vec![bottom_right, bottom_left],
        (Edge::Left, Edge::Bottom) => vec![bottom_left],
        (Edge::Top, Edge::Left) => vec![top_left],
        (Edge::Top, Edge::Right) => vec![top_right],
        (Edge::Top, Edge::Bottom) => vec![bottom_left, top_left],
        (Edge::Right, Edge::Left) => vec![top_left, top_right],
        (Edge::Right, Edge::Top) => vec![top_right],
        (Edge::Right, Edge::Bottom) => vec![bottom_left, top_left, top_right],
        (Edge::Bottom, Edge::Left) => vec![bottom_left],
        (Edge::Bottom, Edge::Top) => vec![top_right, bottom_right],
        (Edge::Bottom, Edge::Right) => vec![bottom_right],
        _ => Vec::new(),
    };
    assert(r@ =~= closing_corners(begin, end, width, height));
    r
}

/// Closes `path` along the border of a `width` by `height` grid when it is
/// open and both its ends lie on the border.
pub(crate) fn close_at_border(path: &mut Path, width: u32, height: u32)
    requires
        old(path).points.len() > 0,
    ensures
        final(path)@ == close_path(old(path)@, width, height),
{
    if path.closed {
        return;
    }
    let begin_edge = on_edge(&path.start(), (width, height));
    let end_edge = on_edge(&path.end(), (width, height));
    match (begin_edge, end_edge) {
        (Some(begin), Some(end)) => {
            let mut corners = closing_corner_points(begin, end, width, height);
            path.points.append(&mut corners);
            path.closed = true;
        },
        _ => {},
    }
}

} // verus!
