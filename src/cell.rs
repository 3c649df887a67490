//! Classification of one grid cell and the contour segments it holds.

use vstd::prelude::*;

use crate::geometry::{Edge, Line, Point};

verus! {

/// The segment that one cell contributes, in both representations of its
/// endpoints.
#[derive(Debug, Clone, Copy, PartialEq, Eq, Structural)]
pub struct CellLine {
    pub interpolated_line: Line,
    pub raw_line: Line,
}

/// What one cell holds: no segment, one, or two (the saddle cases).
#[derive(Debug, Clone, Copy, PartialEq, Eq, Structural)]
pub enum CellSegment {
    Zero,
    One(CellLine),
    Two(CellLine, CellLine),
}

/// One classified cell: its top-left grid position, its id and its segments.
#[derive(Debug)]
pub struct Cell {
    pub pos: (u32, u32),
    pub id: u8,
    pub segment: CellSegment,
}

/// The lines of a cell's segments, in order.
pub open spec fn segment_lines(s: CellSegment) -> Seq<CellLine> {
    match s {
        CellSegment::Zero => seq![],
        CellSegment::One(l) => seq![l],
        CellSegment::Two(a, b) => seq![a, b],
    }
}

/// 1 when the sample lies strictly above the threshold, else 0.
pub open spec fn above(v: i64, threshold: i64) -> int {
    if v > threshold {
        1
    } else {
        0
    }
}

/// The classification id of a cell: one bit per corner, top-left,
/// top-right, bottom-left, bottom-right, most significant bit first.
pub open spec fn classify(threshold: i64, vals: Seq<i64>) -> int {
    8 * above(vals[0], threshold) + 4 * above(vals[1], threshold) + 2 * above(vals[2], threshold)
        + above(vals[3], threshold)
}

/// The two samples at the ends of a cell edge, in the order the edge is
/// walked (left to right, top to bottom). Corners are stored top-left,
/// top-right, bottom-left, bottom-right.
pub open spec fn edge_samples(vals: Seq<i64>, e: Edge) -> (i64, i64) {
    match e {
        Edge::Left => (vals[0], vals[2]),
        Edge::Top => (vals[0], vals[1]),
        Edge::Right => (vals[1], vals[3]),
        Edge::Bottom => (vals[2], vals[3]),
    }
}

/// The grid positions of the two ends of a cell edge, in the same order.
pub open spec fn edge_corners(pos: (u32, u32), e: Edge) -> ((int, int), (int, int)) {
    let x = pos.0 as int;
    let y = pos.1 as int;
    match e {
        Edge::Left => ((x, y), (x, y + 1)),
        Edge::Top => ((x, y), (x + 1, y)),
        Edge::Right => ((x + 1, y), (x + 1, y + 1)),
        Edge::Bottom => ((x, y + 1), (x + 1, y + 1)),
    }
}

/// The crossing parameter `(threshold - v0) / (v1 - v0)` as a fraction
/// `(num, den)` with `den >= 0`.
pub open spec fn crossing_ratio(threshold: i64, v0: i64, v1: i64) -> (int, int) {
    if v0 <= v1 {
        (threshold - v0, v1 - v0)
    } else {
        (v0 - threshold, v0 - v1)
    }
}

/// The interpolated point where the threshold crosses edge `e` of the cell
/// at `pos`: the first corner moved by the crossing parameter towards the
/// second.
pub open spec fn crossing_point(threshold: i64, pos: (u32, u32), vals: Seq<i64>, e: Edge) -> Point {
    let (v0, v1) = edge_samples(vals, e);
    let (n, d) = crossing_ratio(threshold, v0, v1);
    let (c0, c1) = edge_corners(pos, e);
    Point {
        x: (c0.0 * d + n * (c1.0 - c0.0)) as i128,
        y: (c0.1 * d + n * (c1.1 - c0.1)) as i128,
        den: d as i128,
    }
}

/// The raw anchor of edge `e` of the cell at `pos`: its midpoint.
pub open spec fn anchor_point(pos: (u32, u32), e: Edge) -> Point {
    let (c0, c1) = edge_corners(pos, e);
    Point { x: (c0.0 + c1.0) as i128, y: (c0.1 + c1.1) as i128, den: 2 }
}

/// The segment of the cell at `pos` that runs from edge `from` to edge `to`.
pub open spec fn edge_line(threshold: i64, pos: (u32, u32), vals: Seq<i64>, from: Edge, to: Edge) -> CellLine {
    CellLine {
        interpolated_line: Line {
            start: crossing_point(threshold, pos, vals, from),
            end: crossing_point(threshold, pos, vals, to),
        },
        raw_line: Line { start: anchor_point(pos, from), end: anchor_point(pos, to) },
    }
}

/// The ids whose cell holds exactly one segment.
pub open spec fn is_single(id: int) -> bool {
    0 < id < 15 && id != 6 && id != 9
}

/// For an id of a single segment, the edges it runs from and to. An id and
/// its complement `15 - id` share the edges in reversed order.
pub open spec fn single_edges(id: int) -> (Edge, Edge) {
    if id == 1 {
        (Edge::Bottom, Edge::Right)
    } else if id == 14 {
        (Edge::Right, Edge::Bottom)
    } else if id == 2 {
        (Edge::Left, Edge::Bottom)
    } else if id == 13 {
        (Edge::Bottom, Edge::Left)
    } else if id == 3 {
        (Edge::Left, Edge::Right)
    } else if id == 12 {
        (Edge::Right, Edge::Left)
    } else if id == 4 {
        (Edge::Right, Edge::Top)
    } else if id == 11 {
        (Edge::Top, Edge::Right)
    } else if id == 5 {
        (Edge::Bottom, Edge::Top)
    } else if id == 10 {
        (Edge::Top, Edge::Bottom)
    } else if id == 7 {
        (Edge::Left, Edge::Top)
    } else {
        (Edge::Top, Edge::Left)
    }
}

/// Whether the mean of the four corners lies strictly above the threshold.
pub open spec fn mean_above(threshold: i64, vals: Seq<i64>) -> bool {
    vals[0] + vals[1] + vals[2] + vals[3] > 4 * threshold
}

/// For a saddle id (6 or 9), the edges of its two segments. When the mean
/// lies above the threshold the two inside corners are joined through the
/// cell's centre; otherwise they are kept apart.
pub open spec fn saddle_edges(id: int, mean_is_above: bool) -> ((Edge, Edge), (Edge, Edge)) {
    if id == 6 {
        if mean_is_above {
            ((Edge::Left, Edge::Top), (Edge::Right, Edge::Bottom))
        } else {
            ((Edge::Right, Edge::Top), (Edge::Left, Edge::Bottom))
        }
    } else {
        if mean_is_above {
            ((Edge::Bottom, Edge::Left), (Edge::Top, Edge::Right))
        } else {
            ((Edge::Bottom, Edge::Right), (Edge::Top, Edge::Left))
        }
    }
}

/// The segments of the cell at `pos` with classification `id`.
pub open spec fn segment_of(threshold: i64, pos: (u32, u32), id: int, vals: Seq<i64>) -> CellSegment {
    if id == 0 || id == 15 {
        CellSegment::Zero
    } else if id == 6 || id == 9 {
        let (a, b) = saddle_edges(id, mean_above(threshold, vals));
        CellSegment::Two(
            edge_line(threshold, pos, vals, a.0, a.1),
            edge_line(threshold, pos, vals, b.0, b.1),
        )
    } else {
        let (from, to) = single_edges(id);
        CellSegment::One(edge_line(threshold, pos, vals, from, to))
    }
}

/// The number of segments a cell holds.
pub open spec fn segment_count(s: CellSegment) -> nat {
    match s {
        CellSegment::Zero => 0,
        CellSegment::One(_) => 1,
        CellSegment::Two(_, _) => 2,
    }
}

/// 1 when the sample lies strictly above the threshold, else 0.
fn corner_bit(v: i64, threshold: i64) -> (b: u8)
    ensures
        b as int == above(v, threshold),
{
    if v > threshold {
        1
    } else {
        0
    }
}

/// The classification id of a cell with corners `vals` (top-left,
/// top-right, bottom-left, bottom-right): a corner counts as inside when
/// its sample is strictly greater than the threshold.
pub fn id_from_vals(threshold: i64, vals: &[i64; 4]) -> (id: u8)
    ensures
        id as int == classify(threshold, vals@),
        id < 16,
{
    let top_left = corner_bit(vals[0], threshold);
    let top_right = corner_bit(vals[1], threshold);
    let bottom_left = corner_bit(vals[2], threshold);
    let bottom_right = corner_bit(vals[3], threshold);
    ((top_left * 2 + top_right) * 2 + bottom_left) * 2 + bottom_right
}

/// The samples at the ends of edge `e`, in the order the edge is walked.
fn edge_sample_pair(vals: &[i64; 4], e: Edge) -> (r: (i64, i64))
    ensures
        r == edge_samples(vals@, e),
{
    match e {
        Edge::Left => (vals[0], vals[2]),
        Edge::Top => (vals[0], vals[1]),
        Edge::Right => (vals[1], vals[3]),
        Edge::Bottom => (vals[2], vals[3]),
    }
}

/// The exact point where the threshold crosses edge `e` of the cell at `pos`.
fn crossing(threshold: i64, pos: (u32, u32), vals: &[i64; 4], e: Edge) -> (p: Point)
    ensures
        p == crossing_point(threshold, pos, vals@, e),
{
    let (v0, v1) = edge_sample_pair(vals, e);
    let (n, d): (i128, i128) = if v0 <= v1 {
        (threshold as i128 - v0 as i128, v1 as i128 - v0 as i128)
    } else {
        (v0 as i128 - threshold as i128, v0 as i128 - v1 as i128)
    };
    let x = pos.0 as i128;
    let y = pos.1 as i128;
    assert(0 <= x * d <= 0x1_0000_0000 * 0x2_0000_0000_0000_0000) by (nonlinear_arith)
        requires
            0 <= x < 0x1_0000_0000,
            0 <= d <= 0x2_0000_0000_0000_0000,
    ;
    assert(0 <= y * d <= 0x1_0000_0000 * 0x2_0000_0000_0000_0000) by (nonlinear_arith)
        requires
            0 <= y < 0x1_0000_0000,
            0 <= d <= 0x2_0000_0000_0000_0000,
    ;
    assert((x + 1) * d == x * d + d) by (nonlinear_arith);
    assert((y + 1) * d == y * d + d) by (nonlinear_arith);
    assert(n * 0 == 0 && n * 1 == n) by (nonlinear_arith);
    match e {
        Edge::Left => Point { x: x * d, y: y * d + n, den: d },
        Edge::Top => Point { x: x * d + n, y: y * d, den: d },
        Edge::Right => Point { x: x * d + d, y: y * d + n, den: d },
        Edge::Bottom => Point { x: x * d + n, y: y * d + d, den: d },
    }
}

/// The midpoint of edge `e` of the cell at `pos`.
fn anchor(pos: (u32, u32), e: Edge) -> (p: Point)
    ensures
        p == anchor_point(pos, e),
{
    let x = pos.0 as i128;
    let y = pos.1 as i128;
    match e {
        Edge::Left => Point { x: 2 * x, y: 2 * y + 1, den: 2 },
        Edge::Top => Point { x: 2 * x + 1, y: 2 * y, den: 2 },
        Edge::Right => Point { x: 2 * x + 2, y: 2 * y + 1, den: 2 },
        Edge::Bottom => Point { x: 2 * x + 1, y: 2 * y + 2, den: 2 },
    }
}

/// The segment of the cell at `pos` from edge `from` to edge `to`.
fn cell_line(threshold: i64, pos: (u32, u32), vals: &[i64; 4], from: Edge, to: Edge) -> (l: CellLine)
    ensures
        l == edge_line(threshold, pos, vals@, from, to),
{
    CellLine {
        interpolated_line: Line {
            start: crossing(threshold, pos, vals, from),
            end: crossing(threshold, pos, vals, to),
        },
        raw_line: Line { start: anchor(pos, from), end: anchor(pos, to) },
    }
}

/// The edges of the one segment of a cell whose id is not empty, full or a
/// saddle.
fn single_case_edges(id: u8) -> (r: (Edge, Edge))
    requires
        is_single(id as int),
    ensures
        r == single_edges(id as int),
{
    match id {
        1 => (Edge::Bottom, Edge::Right),
        14 => (Edge::Right, Edge::Bottom),
        2 => (Edge::Left, Edge::Bottom),
        13 => (Edge::Bottom, Edge::Left),
        3 => (Edge::Left, Edge::Right),
        12 => (Edge::Right, Edge::Left),
        4 => (Edge::Right, Edge::Top),
        11 => (Edge::Top, Edge::Right),
        5 => (Edge::Bottom, Edge::Top),
        10 => (Edge::Top, Edge::Bottom),
        7 => (Edge::Left, Edge::Top),
        _ => (Edge::Top, Edge::Left),
    }
}

/// Whether the mean of the four corners lies strictly above the threshold.
fn mean_is_above(threshold: i64, vals: &[i64; 4]) -> (r: bool)
    ensures
        r == mean_above(threshold, vals@),
{
    let sum = vals[0] as i128 + vals[1] as i128 + vals[2] as i128 + vals[3] as i128;
    sum > 4 * threshold as i128
}

/// The edges of the two segments of a saddle cell (id 6 or 9).
fn saddle_case_edges(id: u8, mean_is_above: bool) -> (r: ((Edge, Edge), (Edge, Edge)))
    ensures
        r == saddle_edges(id as int, mean_is_above),
{
    if id == 6 {
        if mean_is_above {
            ((Edge::Left, Edge::Top), (Edge::Right, Edge::Bottom))
        } else {
            ((Edge::Right, Edge::Top), (Edge::Left, Edge::Bottom))
        }
    } else {
        if mean_is_above {
            ((Edge::Bottom, Edge::Left), (Edge::Top, Edge::Right))
        } else {
            ((Edge::Bottom, Edge::Right), (Edge::Top, Edge::Left))
        }
    }
}

/// The segments of the cell whose top-left corner is `pos`, whose corner
/// samples are `vals` (top-left, top-right, bottom-left, bottom-right) and
/// whose classification is `id`. Each segment's interpolated endpoints are
/// the exact threshold crossings on its two edges; its raw endpoints are
/// the midpoints of the same edges.
pub fn cell_segment(threshold: i64, pos: (u32, u32), id: u8, vals: &[i64; 4]) -> (s: CellSegment)
    requires
        id < 16,
    ensures
        s == segment_of(threshold, pos, id as int, vals@),
{
    if id == 0 || id == 15 {
        CellSegment::Zero
    } else if id == 6 || id == 9 {
        let (a, b) = saddle_case_edges(id, mean_is_above(threshold, vals));
        CellSegment::Two(
            cell_line(threshold, pos, vals, a.0, a.1),
            cell_line(threshold, pos, vals, b.0, b.1),
        )
    } else {
        let (from, to) = single_case_edges(id);
        CellSegment::One(cell_line(threshold, pos, vals, from, to))
    }
}

/// Every cell's id lies in `[0, 15]`. Ids 0 and 15 give no segment, the
/// saddle ids 6 and 9 give two, and each of the twelve other ids gives one.
pub proof fn lemma_segment_counts(threshold: i64, pos: (u32, u32), vals: Seq<i64>)
    requires
        vals.len() == 4,
    ensures
        0 <= classify(threshold, vals) <= 15,
        forall|id: int|
            0 <= id <= 15 ==> segment_count(#[trigger] segment_of(threshold, pos, id, vals)) == (if id == 0
                || id == 15 {
                0nat
            } else if id == 6 || id == 9 {
                2nat
            } else {
                1nat
            }),
{
}

/// An id and its complement `15 - id` join the same two edges in opposite
/// directions, so the inside always lies on the same side of a segment.
pub proof fn lemma_complement_reverses(id: int)
    requires
        is_single(id),
    ensures
        is_single(15 - id),
        single_edges(15 - id) == (single_edges(id).1, single_edges(id).0),
{
}

/// On an edge whose two samples lie on either side of the threshold, the
/// crossing point lies on the edge, between its two corners inclusive, at
/// the fraction `(threshold - v0) / (v1 - v0)` of the way from the first
/// corner to the second. The raw anchor is the edge's midpoint, whatever
/// the threshold and the samples.
pub proof fn lemma_crossing_on_edge(threshold: i64, pos: (u32, u32), vals: Seq<i64>, e: Edge)
    requires
        vals.len() == 4,
        (edge_samples(vals, e).0 > threshold) != (edge_samples(vals, e).1 > threshold),
    ensures
        ({
            let p = crossing_point(threshold, pos, vals, e);
            let (c0, c1) = edge_corners(pos, e);
            let (v0, v1) = edge_samples(vals, e);
            &&& p.den > 0
            &&& c0.0 * p.den <= p.x <= c1.0 * p.den
            &&& c0.1 * p.den <= p.y <= c1.1 * p.den
            &&& (p.x - c0.0 * p.den) * (v1 - v0) == (threshold - v0) * (c1.0 - c0.0) * p.den
            &&& (p.y - c0.1 * p.den) * (v1 - v0) == (threshold - v0) * (c1.1 - c0.1) * p.den
        }),
        ({
            let a = anchor_point(pos, e);
            let (c0, c1) = edge_corners(pos, e);
            a.den == 2 && a.x == c0.0 + c1.0 && a.y == c0.1 + c1.1
        }),
{
    let (v0, v1) = edge_samples(vals, e);
    let (n, d) = crossing_ratio(threshold, v0, v1);
    let (c0, c1) = edge_corners(pos, e);
    lemma_ratio(threshold, v0, v1);
    lemma_coordinate(c0.0, c1.0 - c0.0, n, d, (threshold - v0) as int, (v1 - v0) as int);
    lemma_coordinate(c0.1, c1.1 - c0.1, n, d, (threshold - v0) as int, (v1 - v0) as int);
}

/// On an edge that the threshold crosses, the crossing ratio `n / d` has
/// `0 <= n <= d`, `d > 0`, and equals `(threshold - v0) / (v1 - v0)`.
proof fn lemma_ratio(threshold: i64, v0: i64, v1: i64)
    requires
        (v0 > threshold) != (v1 > threshold),
    ensures
        ({
            let (n, d) = crossing_ratio(threshold, v0, v1);
            0 <= n <= d && d > 0 && n * (v1 - v0) == (threshold - v0) * d
        }),
{
    let (n, d) = crossing_ratio(threshold, v0, v1);
    if v0 <= v1 {
        assert(n * (v1 - v0) == (threshold - v0) * d);
    } else {
        assert((v0 - threshold) * (v1 - v0) == (threshold - v0) * (v0 - v1)) by (nonlinear_arith);
    }
}

/// One coordinate of an interpolated point: `c * d + n * dc`, with the
/// edge running from `c` to `c + dc` (`dc` is 0 or 1) and the ratio
/// `n / d = t / dv`, lies between `c * d` and `(c + dc) * d`, at `t / dv` of
/// the way, and fits in an `i128`.
proof fn lemma_coordinate(c: int, dc: int, n: int, d: int, t: int, dv: int)
    requires
        0 <= c <= 0x1_0000_0000,
        dc == 0 || dc == 1,
        0 <= n <= d <= 0x2_0000_0000_0000_0000,
        n * dv == t * d,
    ensures
        c * d <= ((c * d + n * dc) as i128) <= (c + dc) * d,
        (((c * d + n * dc) as i128) - c * d) * dv == t * dc * d,
{
    assert(0 <= c * d <= 0x1_0000_0000 * 0x2_0000_0000_0000_0000) by (nonlinear_arith)
        requires
            0 <= c <= 0x1_0000_0000,
            0 <= d <= 0x2_0000_0000_0000_0000,
    ;
    assert((c + 1) * d == c * d + d) by (nonlinear_arith);
    if dc == 0 {
        assert(n * dc == 0 && t * dc * d == 0 && (c + dc) * d == c * d) by (nonlinear_arith)
            requires
                dc == 0,
        ;
    } else {
        assert(n * dc == n && t * dc * d == t * d) by (nonlinear_arith)
            requires
                dc == 1,
        ;
    }
}

/// The saddle cases follow the mean of the four corners: for id 6 (top-right
/// and bottom-left inside), a mean above the threshold joins the left and
/// top edges and the right and bottom edges; otherwise the right and top
/// edges and the left and bottom edges. Id 9 is decided in the same way.
pub proof fn lemma_saddle_mean_rule(threshold: i64, pos: (u32, u32), vals: Seq<i64>)
    requires
        vals.len() == 4,
    ensures
        classify(threshold, vals) == 6 && vals[0] + vals[1] + vals[2] + vals[3] > 4 * threshold
            ==> segment_of(threshold, pos, 6, vals) == CellSegment::Two(
            edge_line(threshold, pos, vals, Edge::Left, Edge::Top),
            edge_line(threshold, pos, vals, Edge::Right, Edge::Bottom),
        ),
        classify(threshold, vals) == 6 && vals[0] + vals[1] + vals[2] + vals[3] <= 4 * threshold
            ==> segment_of(threshold, pos, 6, vals) == CellSegment::Two(
            edge_line(threshold, pos, vals, Edge::Right, Edge::Top),
            edge_line(threshold, pos, vals, Edge::Left, Edge::Bottom),
        ),
        classify(threshold, vals) == 9 && vals[0] + vals[1] + vals[2] + vals[3] > 4 * threshold
            ==> segment_of(threshold, pos, 9, vals) == CellSegment::Two(
            edge_line(threshold, pos, vals, Edge::Bottom, Edge::Left),
            edge_line(threshold, pos, vals, Edge::Top, Edge::Right),
        ),
        classify(threshold, vals) == 9 && vals[0] + vals[1] + vals[2] + vals[3] <= 4 * threshold
            ==> segment_of(threshold, pos, 9, vals) == CellSegment::Two(
            edge_line(threshold, pos, vals, Edge::Bottom, Edge::Right),
            edge_line(threshold, pos, vals, Edge::Top, Edge::Left),
        ),
{
}

} // verus!
