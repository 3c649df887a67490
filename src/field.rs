//! The grid of samples, and the extraction of the contour segments of one
//! threshold from it.

use vstd::prelude::*;

use crate::border::CloseEdges;
use crate::cell::{cell_segment, classify, id_from_vals, segment_lines, segment_of, Cell, CellLine, CellSegment};
use crate::path::{lemma_outcome_deterministic, paths_from_lines, paths_outcome, views, ContourError, Path};

verus! {

/// A rectangular grid of samples, `extent.0` wide and `extent.1` high,
/// stored row by row: the sample at `(x, y)` is `vals[x + y * extent.0]`.
#[derive(Debug)]
pub struct Field {
    pub extent: (u32, u32),
    pub vals: Vec<i64>,
}

impl Field {
    /// At least one full cell, and one sample for each grid position.
    pub open spec fn wf(&self) -> bool {
        &&& self.extent.0 >= 2
        &&& self.extent.1 >= 2
        &&& self.vals@.len() == self.extent.0 * self.extent.1
    }

    /// The sample at grid position `(x, y)`.
    pub open spec fn sample(&self, x: int, y: int) -> i64 {
        self.vals@[x + y * self.extent.0]
    }

    /// The corners of the cell whose top-left corner is `(x, y)`: top-left,
    /// top-right, bottom-left, bottom-right.
    pub open spec fn corners(&self, x: int, y: int) -> Seq<i64> {
        seq![self.sample(x, y), self.sample(x + 1, y), self.sample(x, y + 1), self.sample(x + 1, y + 1)]
    }

    /// The lines of the cell whose top-left corner is `(x, y)`.
    pub open spec fn cell_lines(&self, threshold: i64, x: int, y: int) -> Seq<CellLine> {
        let c = self.corners(x, y);
        segment_lines(segment_of(threshold, (x as u32, y as u32), classify(threshold, c), c))
    }

    /// The lines of the first `n` cells of row `y`, left to right.
    pub open spec fn row_lines(&self, threshold: i64, y: int, n: int) -> Seq<CellLine>
        decreases n,
    {
        if n <= 0 {
            seq![]
        } else {
            self.row_lines(threshold, y, n - 1) + self.cell_lines(threshold, n - 1, y)
        }
    }

    /// The lines of the first `m` rows of cells, top to bottom.
    pub open spec fn rows_lines(&self, threshold: i64, m: int) -> Seq<CellLine>
        decreases m,
    {
        if m <= 0 {
            seq![]
        } else {
            self.rows_lines(threshold, m - 1) + self.row_lines(threshold, m - 1, self.extent.0 - 1)
        }
    }

    /// The lines of every cell, in row-major order.
    pub open spec fn lines(&self, threshold: i64) -> Seq<CellLine> {
        self.rows_lines(threshold, self.extent.1 - 1)
    }

    /// How `layer_paths` closes paths: along the field's border, or not.
    pub open spec fn closing(&self, close_edges: bool) -> CloseEdges {
        if close_edges {
            CloseEdges::ForExtent(self.extent.0, self.extent.1)
        } else {
            CloseEdges::Off
        }
    }

    /// The sample at grid position `pos`.
    pub fn val_at(&self, pos: (u32, u32)) -> (v: i64)
        requires
            self.wf(),
            pos.0 < self.extent.0,
            pos.1 < self.extent.1,
    ensures
            v == self.sample(pos.0 as int, pos.1 as int),
    {
        let (x, y) = pos;
        let w = self.extent.0;
        let h = self.extent.1;
        assert(y * w + x < w * h) by (nonlinear_arith)
            requires
                x < w,
                y < h,
        ;
        assert(0 <= y * w <= y * w + x) by (nonlinear_arith)
            requires
                0 <= x,
                0 <= y,
                0 <= w,
        ;
        let len = self.vals.len();
        assert(y * w + x < len);
        let i = (y as usize) * (w as usize) + x as usize;
        self.vals[i]
    }

    /// The classified cell whose top-left corner is `pos`.
    pub fn cell_at(&self, threshold: i64, pos: (u32, u32)) -> (c: Cell)
        requires
            self.wf(),
            pos.0 <= self.extent.0 - 2,
            pos.1 <= self.extent.1 - 2,
        ensures
            ({
                let corners = self.corners(pos.0 as int, pos.1 as int);
                &&& c.pos == pos
                &&& c.id as int == classify(threshold, corners)
                &&& c.segment == segment_of(threshold, pos, classify(threshold, corners), corners)
            }),
    {
        let (x, y) = pos;
        let vals = [
            self.val_at((x, y)),
            self.val_at((x + 1, y)),
            self.val_at((x, y + 1)),
            self.val_at((x + 1, y + 1)),
        ];
        assert(vals@ =~= self.corners(x as int, y as int));
        let id = id_from_vals(threshold, &vals);
        let segment = cell_segment(threshold, pos, id, &vals);
        Cell { pos, id, segment }
    }

    /// The segments of every cell for `threshold`, in row-major order.
    pub fn raw_lines(&self, threshold: i64) -> (lines: Vec<CellLine>)
        requires
            self.wf(),
        ensures
            lines@ == self.lines(threshold),
    {
        let mut lines: Vec<CellLine> = Vec::new();
        let mut y: u32 = 0;
        while y < self.extent.1 - 1
            invariant
                self.wf(),
                y <= self.extent.1 - 1,
                lines@ == self.rows_lines(threshold, y as int),
            decreases self.extent.1 - 1 - y,
        {
            let mut x: u32 = 0;
            while x < self.extent.0 - 1
                invariant
                    self.wf(),
                    y < self.extent.1 - 1,
                    x <= self.extent.0 - 1,
                    lines@ == self.rows_lines(threshold, y as int) + self.row_lines(threshold, y as int, x as int),
                decreases self.extent.0 - 1 - x,
            {
                let ghost before = lines@;
                let cell = self.cell_at(threshold, (x, y));
                match cell.segment {
                    CellSegment::Zero => {},
                    CellSegment::One(line) => {
                        lines.push(line);
                    },
                    CellSegment::Two(first, second) => {
                        lines.push(first);
                        lines.push(second);
                    },
                }
                assert(lines@ =~= before + self.cell_lines(threshold, x as int, y as int));
                assert(self.row_lines(threshold, y as int, x + 1) == self.row_lines(threshold, y as int, x as int)
                    + self.cell_lines(threshold, x as int, y as int));
                x = x + 1;
            }
            assert(lines@ =~= self.rows_lines(threshold, y + 1));
            y = y + 1;
        }
        lines
    }

    /// The contour paths of `threshold`: the segments of every cell,
    /// stitched into paths, and closed along the field's border when
    /// `close_edges` is set.
    pub fn layer_paths(&self, threshold: i64, close_edges: bool) -> (r: Result<Vec<Path>, ContourError>)
        requires
            self.wf(),
        ensures
            paths_outcome(self.lines(threshold), self.closing(close_edges), r),
    {
        let lines = self.raw_lines(threshold);
        let closing = if close_edges {
            CloseEdges::ForExtent(self.extent.0, self.extent.1)
        } else {
            CloseEdges::Off
        };
        paths_from_lines(lines.as_slice(), closing)
    }
}

/// The segments of a field depend on its extent and samples alone.
proof fn lemma_lines_from_samples(f1: &Field, f2: &Field, threshold: i64, m: int)
    requires
        f1.extent == f2.extent,
        f1.vals@ == f2.vals@,
    ensures
        f1.rows_lines(threshold, m) == f2.rows_lines(threshold, m),
    decreases m,
{
    if m > 0 {
        lemma_lines_from_samples(f1, f2, threshold, m - 1);
        lemma_row_from_samples(f1, f2, threshold, m - 1, f1.extent.0 - 1);
    }
}

/// The segments of one row depend on the extent and samples alone.
proof fn lemma_row_from_samples(f1: &Field, f2: &Field, threshold: i64, y: int, n: int)
    requires
        f1.extent == f2.extent,
        f1.vals@ == f2.vals@,
    ensures
        f1.row_lines(threshold, y, n) == f2.row_lines(threshold, y, n),
    decreases n,
{
    if n > 0 {
        lemma_row_from_samples(f1, f2, threshold, y, n - 1);
        assert(f1.corners(n - 1, y) == f2.corners(n - 1, y));
    }
}

/// Extraction is deterministic: on two fields with the same extent and
/// samples, `layer_paths` with the same threshold and closing gives the
/// same paths in the same order, or fails at the same segment.
pub proof fn lemma_extraction_deterministic(
    f1: &Field,
    f2: &Field,
    threshold: i64,
    close_edges: bool,
    r1: Result<Vec<Path>, ContourError>,
    r2: Result<Vec<Path>, ContourError>,
)
    requires
        f1.extent == f2.extent,
        f1.vals@ == f2.vals@,
        paths_outcome(f1.lines(threshold), f1.closing(close_edges), r1),
        paths_outcome(f2.lines(threshold), f2.closing(close_edges), r2),
    ensures
        match (r1, r2) {
            (Ok(a), Ok(b)) => views(a@) == views(b@),
            (Err(x), Err(y)) => x == y,
            _ => false,
        },
{
    lemma_lines_from_samples(f1, f2, threshold, f1.extent.1 - 1);
    lemma_outcome_deterministic(f1.lines(threshold), f1.closing(close_edges), r1, r2);
}

} // verus!
