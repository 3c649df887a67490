//! Paths, and the stitching of cell segments into paths.

use vstd::prelude::*;

use crate::border::{close_at_border, close_path, CloseEdges};
use crate::cell::CellLine;
use crate::geometry::{Point, RichPoint};

verus! {

/// A contour: its endpoints in order, and whether it is closed.
#[derive(Debug, Clone)]
pub struct Path {
    pub points: Vec<RichPoint>,
    pub closed: bool,
}

/// The mathematical value of a [`Path`].
pub ghost struct PathView {
    pub points: Seq<RichPoint>,
    pub closed: bool,
}

impl View for Path {
    type V = PathView;

    open spec fn view(&self) -> PathView {
        PathView { points: self.points@, closed: self.closed }
    }
}

/// Why a set of segments could not be stitched into paths.
#[derive(Debug, Clone, Copy, PartialEq, Eq, Structural)]
pub enum ContourError {
    /// The segment at `line_index` of the input continues more than one path,
    /// or is continued by more than one: the segments contradict each other
    /// (a segment given twice, or contours that cross).
    TopologyContradiction { line_index: usize },
}

/// The values of a sequence of paths.
pub open spec fn views(paths: Seq<Path>) -> Seq<PathView> {
    paths.map_values(|p: Path| p@)
}

/// The raw point a path starts at.
pub open spec fn first_raw(p: PathView) -> Point {
    p.points[0].raw_point
}

/// The raw point a path ends at.
pub open spec fn last_raw(p: PathView) -> Point {
    p.points.last().raw_point
}

/// The start of a cell segment, in both representations.
pub open spec fn line_start(l: CellLine) -> RichPoint {
    RichPoint { raw_point: l.raw_line.start, interpolated_point: l.interpolated_line.start }
}

/// The end of a cell segment, in both representations.
pub open spec fn line_end(l: CellLine) -> RichPoint {
    RichPoint { raw_point: l.raw_line.end, interpolated_point: l.interpolated_line.end }
}

/// The indices below `n`, in increasing order, of the paths that end at the
/// raw point `p`.
pub open spec fn tail_matches(paths: Seq<PathView>, p: Point, n: int) -> Seq<int>
    decreases n,
{
    if n <= 0 {
        seq![]
    } else if last_raw(paths[n - 1]) == p {
        tail_matches(paths, p, n - 1).push(n - 1)
    } else {
        tail_matches(paths, p, n - 1)
    }
}

/// The indices below `n`, in increasing order, of the paths that start at
/// the raw point `p`.
pub open spec fn head_matches(paths: Seq<PathView>, p: Point, n: int) -> Seq<int>
    decreases n,
{
    if n <= 0 {
        seq![]
    } else if first_raw(paths[n - 1]) == p {
        head_matches(paths, p, n - 1).push(n - 1)
    } else {
        head_matches(paths, p, n - 1)
    }
}

/// `paths` without the two distinct entries `i` and `j`.
pub open spec fn remove_two(paths: Seq<PathView>, i: int, j: int) -> Seq<PathView> {
    if i < j {
        paths.remove(j).remove(i)
    } else {
        paths.remove(i).remove(j)
    }
}

/// Path `i` extended by `e` and marked closed: the segment completes a loop.
pub open spec fn close_at(paths: Seq<PathView>, i: int, e: RichPoint) -> Seq<PathView> {
    paths.update(i, PathView { points: paths[i].points.push(e), closed: true })
}

/// Paths `i` and `j` joined through `e` into one path, which goes last;
/// it keeps the closed flag of path `i`.
pub open spec fn join_at(paths: Seq<PathView>, i: int, j: int, e: RichPoint) -> Seq<PathView> {
    let joined = PathView {
        points: paths[i].points.push(e) + paths[j].points,
        closed: paths[i].closed,
    };
    remove_two(paths, i, j).push(joined)
}

/// Path `i` extended at its end by `e`.
pub open spec fn append_at(paths: Seq<PathView>, i: int, e: RichPoint) -> Seq<PathView> {
    paths.update(i, PathView { points: paths[i].points.push(e), closed: paths[i].closed })
}

/// Path `j` extended at its start by `s`.
pub open spec fn prepend_at(paths: Seq<PathView>, j: int, s: RichPoint) -> Seq<PathView> {
    paths.update(j, PathView { points: seq![s] + paths[j].points, closed: paths[j].closed })
}

/// A new open path from `s` to `e` after the others.
pub open spec fn start_new(paths: Seq<PathView>, s: RichPoint, e: RichPoint) -> Seq<PathView> {
    paths.push(PathView { points: seq![s, e], closed: false })
}

/// The paths after the segment `l` has been added to `paths`, or `None`
/// when more than one path ends where `l` starts, or more than one path
/// starts where `l` ends. Matching compares raw points only.
pub open spec fn stitch_step(paths: Seq<PathView>, l: CellLine) -> Option<Seq<PathView>> {
    let s = line_start(l);
    let e = line_end(l);
    let tails = tail_matches(paths, s.raw_point, paths.len() as int);
    let heads = head_matches(paths, e.raw_point, paths.len() as int);
    if tails.len() > 1 || heads.len() > 1 {
        None
    } else if tails.len() == 1 && heads.len() == 1 {
        if tails[0] == heads[0] {
            Some(close_at(paths, tails[0], e))
        } else {
            Some(join_at(paths, tails[0], heads[0], e))
        }
    } else if tails.len() == 1 {
        Some(append_at(paths, tails[0], e))
    } else if heads.len() == 1 {
        Some(prepend_at(paths, heads[0], s))
    } else {
        Some(start_new(paths, s, e))
    }
}

/// The paths that stitching the segments `lines`, in order, yields; `None`
/// when one of the segments contradicts the paths built before it.
pub open spec fn stitch(lines: Seq<CellLine>) -> Option<Seq<PathView>>
    decreases lines.len(),
{
    if lines.len() == 0 {
        Some(seq![])
    } else {
        match stitch(lines.drop_last()) {
            Some(paths) => stitch_step(paths, lines.last()),
            None => None,
        }
    }
}

impl Path {
    /// The first point of the path.
    pub fn start(&self) -> (r: RichPoint)
        requires
            self.points.len() > 0,
        ensures
            r == self@.points[0],
    {
        self.points[0]
    }

    /// The last point of the path.
    pub fn end(&self) -> (r: RichPoint)
        requires
            self.points.len() > 0,
        ensures
            r == self@.points.last(),
    {
        self.points[self.points.len() - 1]
    }
}

/// Every path holds at least one point.
pub open spec fn all_nonempty(paths: Seq<PathView>) -> bool {
    forall|i: int| 0 <= i < paths.len() ==> #[trigger] paths[i].points.len() > 0
}

/// The match indices below `n` are below `n` and form a prefix of those below `m >= n`.
proof fn lemma_tail_matches_grow(paths: Seq<PathView>, p: Point, n: int, m: int)
    requires
        0 <= n <= m,
    ensures
        tail_matches(paths, p, n).len() <= tail_matches(paths, p, m).len(),
        forall|k: int|
            0 <= k < tail_matches(paths, p, n).len() ==> 0 <= #[trigger] tail_matches(paths, p, n)[k] < n,
    decreases m,
{
    if m > n {
        lemma_tail_matches_grow(paths, p, n, m - 1);
    } else if n > 0 {
        lemma_tail_matches_grow(paths, p, n - 1, n - 1);
        let prev = tail_matches(paths, p, n - 1);
        assert forall|k: int| 0 <= k < tail_matches(paths, p, n).len() implies 0 <= #[trigger] tail_matches(
            paths,
            p,
            n,
        )[k] < n by {
            if k < prev.len() {
                assert(prev[k] < n - 1);
            }
        }
    }
}

/// The same for the indices of paths that start at `p`.
proof fn lemma_head_matches_grow(paths: Seq<PathView>, p: Point, n: int, m: int)
    requires
        0 <= n <= m,
    ensures
        head_matches(paths, p, n).len() <= head_matches(paths, p, m).len(),
        forall|k: int|
            0 <= k < head_matches(paths, p, n).len() ==> 0 <= #[trigger] head_matches(paths, p, n)[k] < n,
    decreases m,
{
    if m > n {
        lemma_head_matches_grow(paths, p, n, m - 1);
    } else if n > 0 {
        lemma_head_matches_grow(paths, p, n - 1, n - 1);
        let prev = head_matches(paths, p, n - 1);
        assert forall|k: int| 0 <= k < head_matches(paths, p, n).len() implies 0 <= #[trigger] head_matches(
            paths,
            p,
            n,
        )[k] < n by {
            if k < prev.len() {
                assert(prev[k] < n - 1);
            }
        }
    }
}

/// `found` is the one match among `matches` if there is exactly one, and
/// `None` if there is none.
pub open spec fn single_match(found: Option<usize>, matches: Seq<int>) -> bool {
    match found {
        Some(i) => matches.len() == 1 && matches[0] == i as int,
        None => matches.len() == 0,
    }
}

/// Finds the path that ends at `s` and the path that starts at `e`;
/// `None` when either is not unique.
fn find_matches(paths: &Vec<Path>, s: Point, e: Point) -> (r: Option<(Option<usize>, Option<usize>)>)
    requires
        all_nonempty(views(paths@)),
    ensures
        ({
            let ps = views(paths@);
            let tails = tail_matches(ps, s, ps.len() as int);
            let heads = head_matches(ps, e, ps.len() as int);
            &&& r is None <==> (tails.len() > 1 || heads.len() > 1)
            &&& r matches Some((t, h)) ==> single_match(t, tails) && single_match(h, heads)
        }),
{
    let ghost ps = views(paths@);
    let mut tail: Option<usize> = None;
    let mut head: Option<usize> = None;
    let mut i: usize = 0;
    while i < paths.len()
        invariant
            ps == views(paths@),
            all_nonempty(ps),
            i <= paths.len(),
            tail_matches(ps, s, i as int).len() <= 1,
            head_matches(ps, e, i as int).len() <= 1,
            single_match(tail, tail_matches(ps, s, i as int)),
            single_match(head, head_matches(ps, e, i as int)),
        decreases paths.len() - i,
    {
        proof {
            lemma_tail_matches_grow(ps, s, i as int, i as int);
            lemma_head_matches_grow(ps, e, i as int, i as int);
        }
        assert(ps[i as int] == paths@[i as int]@);
        assert(ps[i as int].points.len() > 0);
        if paths[i].end().raw_point == s {
            if tail.is_some() {
                proof {
                    lemma_tail_matches_grow(ps, s, i + 1, ps.len() as int);
                }
                return None;
            }
            tail = Some(i);
        }
        if paths[i].start().raw_point == e {
            if head.is_some() {
                proof {
                    lemma_head_matches_grow(ps, e, i + 1, ps.len() as int);
                }
                return None;
            }
            head = Some(i);
        }
        i = i + 1;
    }
    Some((tail, head))
}

/// Once a prefix of the segments fails to stitch, every longer prefix fails.
proof fn lemma_stitch_fails_onward(lines: Seq<CellLine>, k: int, m: int)
    requires
        0 <= k <= m <= lines.len(),
        stitch(lines.take(k)) is None,
    ensures
        stitch(lines.take(m)) is None,
    decreases m - k,
{
    if m > k {
        lemma_stitch_fails_onward(lines, k, m - 1);
        assert(lines.take(m).drop_last() =~= lines.take(m - 1));
    }
}

/// The joined path of a merge, and the paths left beside it, as the exec
/// code builds them.
proof fn lemma_remove_two_views(paths: Seq<Path>, i: int, j: int)
    requires
        0 <= i < paths.len(),
        0 <= j < paths.len(),
        i != j,
    ensures
        views(if i < j {
            paths.remove(j).remove(i)
        } else {
            paths.remove(i).remove(j)
        }) =~= remove_two(views(paths), i, j),
{
}

/// Closes path `i` with the point `e`.
fn close_path_with(paths: &mut Vec<Path>, i: usize, e: RichPoint)
    requires
        i < old(paths)@.len(),
        all_nonempty(views(old(paths)@)),
    ensures
        views(final(paths)@) == close_at(views(old(paths)@), i as int, e),
        all_nonempty(views(final(paths)@)),
{
    let ghost before = views(paths@);
    paths[i].points.push(e);
    paths[i].closed = true;
    assert(views(paths@) =~= close_at(before, i as int, e));
}

/// Joins path `i`, the point `e` and path `j` into one path, placed last.
fn join_paths(paths: &mut Vec<Path>, i: usize, j: usize, e: RichPoint)
    requires
        i < old(paths)@.len(),
        j < old(paths)@.len(),
        i != j,
        all_nonempty(views(old(paths)@)),
    ensures
        views(final(paths)@) == join_at(views(old(paths)@), i as int, j as int, e),
        all_nonempty(views(final(paths)@)),
{
    let ghost old_paths = paths@;
    let (mut start_path, mut end_path) = if i < j {
        let end_path = paths.remove(j);
        let start_path = paths.remove(i);
        (start_path, end_path)
    } else {
        let start_path = paths.remove(i);
        let end_path = paths.remove(j);
        (start_path, end_path)
    };
    proof {
        lemma_remove_two_views(old_paths, i as int, j as int);
    }
    start_path.points.push(e);
    start_path.points.append(&mut end_path.points);
    paths.push(start_path);
    assert(views(paths@) =~= join_at(views(old_paths), i as int, j as int, e));
}

/// Extends path `i` at its end by `e`.
fn append_to(paths: &mut Vec<Path>, i: usize, e: RichPoint)
    requires
        i < old(paths)@.len(),
        all_nonempty(views(old(paths)@)),
    ensures
        views(final(paths)@) == append_at(views(old(paths)@), i as int, e),
        all_nonempty(views(final(paths)@)),
{
    let ghost before = views(paths@);
    paths[i].points.push(e);
    assert(views(paths@) =~= append_at(before, i as int, e));
}

/// Extends path `j` at its start by `s`.
fn prepend_to(paths: &mut Vec<Path>, j: usize, s: RichPoint)
    requires
        j < old(paths)@.len(),
        all_nonempty(views(old(paths)@)),
    ensures
        views(final(paths)@) == prepend_at(views(old(paths)@), j as int, s),
        all_nonempty(views(final(paths)@)),
{
    let ghost before = views(paths@);
    paths[j].points.insert(0, s);
    assert(paths@[j as int].points@ =~= seq![s] + before[j as int].points);
    assert(views(paths@) =~= prepend_at(before, j as int, s));
}

/// Starts a new open path from `s` to `e`.
fn push_new_path(paths: &mut Vec<Path>, s: RichPoint, e: RichPoint)
    requires
        all_nonempty(views(old(paths)@)),
    ensures
        views(final(paths)@) == start_new(views(old(paths)@), s, e),
        all_nonempty(views(final(paths)@)),
{
    let ghost before = views(paths@);
    let mut points = Vec::new();
    points.push(s);
    points.push(e);
    assert(points@ =~= seq![s, e]);
    paths.push(Path { points, closed: false });
    assert(views(paths@) =~= start_new(before, s, e));
}

/// Adds the segment `line` to `paths`; `false`, with `paths` unchanged,
/// when the segment contradicts them.
fn add_line(paths: &mut Vec<Path>, line: CellLine) -> (ok: bool)
    requires
        all_nonempty(views(old(paths)@)),
    ensures
        ok == stitch_step(views(old(paths)@), line) is Some,
        ok ==> stitch_step(views(old(paths)@), line) == Some(views(final(paths)@)),
        ok ==> all_nonempty(views(final(paths)@)),
{
    let ghost before = views(paths@);
    let s = RichPoint {
        raw_point: line.raw_line.start,
        interpolated_point: line.interpolated_line.start,
    };
    let e = RichPoint {
        raw_point: line.raw_line.end,
        interpolated_point: line.interpolated_line.end,
    };
    assert(s == line_start(line) && e == line_end(line));
    let ghost tails = tail_matches(before, s.raw_point, before.len() as int);
    let ghost heads = head_matches(before, e.raw_point, before.len() as int);
    proof {
        lemma_tail_matches_grow(before, s.raw_point, before.len() as int, before.len() as int);
        lemma_head_matches_grow(before, e.raw_point, before.len() as int, before.len() as int);
    }
    let found = find_matches(paths, s.raw_point, e.raw_point);
    assert(found is None <==> (tails.len() > 1 || heads.len() > 1));
    match found {
        None => false,
        Some((Some(i), Some(j))) => {
            if i == j {
                assert(stitch_step(before, line) == Some(close_at(before, i as int, e)));
                close_path_with(paths, i, e);
            } else {
                assert(stitch_step(before, line) == Some(join_at(before, i as int, j as int, e)));
                join_paths(paths, i, j, e);
            }
            true
        },
        Some((Some(i), None)) => {
            assert(stitch_step(before, line) == Some(append_at(before, i as int, e)));
            append_to(paths, i, e);
            true
        },
        Some((None, Some(j))) => {
            assert(stitch_step(before, line) == Some(prepend_at(before, j as int, s)));
            prepend_to(paths, j, s);
            true
        },
        Some((None, None)) => {
            assert(stitch_step(before, line) == Some(start_new(before, s, e)));
            push_new_path(paths, s, e);
            true
        },
    }
}

/// Stitches the segments `lines`, in order, into paths.
fn stitch_lines(lines: &[CellLine]) -> (r: Result<Vec<Path>, ContourError>)
    ensures
        match r {
            Ok(paths) => stitch(lines@) == Some(views(paths@)) && all_nonempty(views(paths@)),
            Err(ContourError::TopologyContradiction { line_index }) => {
                &&& stitch(lines@) is None
                &&& line_index < lines@.len()
                &&& stitch(lines@.take(line_index as int)) matches Some(before)
                    && stitch_step(before, lines@[line_index as int]) is None
            },
        },
{
    let mut paths: Vec<Path> = Vec::new();
    let mut k: usize = 0;
    assert(lines@.take(0) =~= seq![]);
    assert(views(paths@) =~= seq![]);
    while k < lines.len()
        invariant
            k <= lines@.len(),
            stitch(lines@.take(k as int)) == Some(views(paths@)),
            all_nonempty(views(paths@)),
        decreases lines@.len() - k,
    {
        assert(lines@.take(k + 1).drop_last() =~= lines@.take(k as int));
        assert(lines@.take(k + 1).last() == lines@[k as int]);
        let line = lines[k];
        if !add_line(&mut paths, line) {
            proof {
                lemma_stitch_fails_onward(lines@, k + 1, lines@.len() as int);
                assert(lines@.take(lines@.len() as int) =~= lines@);
            }
            return Err(ContourError::TopologyContradiction { line_index: k });
        }
        k = k + 1;
    }
    assert(lines@.take(k as int) =~= lines@);
    Ok(paths)
}

/// The stitched paths after border closing, when `close_edges` asks for it.
pub open spec fn finish_paths(paths: Seq<PathView>, close_edges: CloseEdges) -> Seq<PathView> {
    match close_edges {
        CloseEdges::Off => paths,
        CloseEdges::ForExtent(width, height) => paths.map_values(
            |p: PathView| close_path(p, width, height),
        ),
    }
}

/// The segment at index `k` is the first that contradicts the paths
/// stitched from the segments before it.
pub open spec fn contradiction_at(lines: Seq<CellLine>, k: int) -> bool {
    &&& 0 <= k < lines.len()
    &&& stitch(lines.take(k)) matches Some(before) && stitch_step(before, lines[k]) is None
}

/// `r` is what stitching `lines` and then closing as `close_edges` says
/// yields: the finished paths when no segment contradicts the paths before
/// it, else a `TopologyContradiction` at the first segment that does.
pub open spec fn paths_outcome(
    lines: Seq<CellLine>,
    close_edges: CloseEdges,
    r: Result<Vec<Path>, ContourError>,
) -> bool {
    match stitch(lines) {
        Some(paths) => r matches Ok(v) && views(v@) == finish_paths(paths, close_edges),
        None => r matches Err(ContourError::TopologyContradiction { line_index })
            && contradiction_at(lines, line_index as int),
    }
}

/// Stitches the segments `lines`, in order, into paths, matching endpoints
/// by their raw points, then closes the open paths that end on the border
/// when `close_edges` gives the grid's extent. Fails with
/// `TopologyContradiction` at the first segment that more than one path
/// ends or starts at.
pub fn paths_from_lines(lines: &[CellLine], close_edges: CloseEdges) -> (r: Result<Vec<Path>, ContourError>)
    ensures
        paths_outcome(lines@, close_edges, r),
{
    let mut paths = match stitch_lines(lines) {
        Ok(paths) => paths,
        Err(e) => {
            return Err(e);
        },
    };
    if let CloseEdges::ForExtent(width, height) = close_edges {
        let ghost stitched = views(paths@);
        let mut i: usize = 0;
        while i < paths.len()
            invariant
                all_nonempty(stitched),
                paths@.len() == stitched.len(),
                i <= paths@.len(),
                forall|k: int| 0 <= k < i ==> #[trigger] paths@[k]@ == close_path(stitched[k], width, height),
                forall|k: int| i <= k < paths@.len() ==> #[trigger] paths@[k]@ == stitched[k],
            decreases paths@.len() - i,
        {
            assert(paths@[i as int]@ == stitched[i as int]);
            assert(stitched[i as int].points.len() > 0);
            close_at_border(&mut paths[i], width, height);
            i = i + 1;
        }
        assert(views(paths@) =~= finish_paths(stitched, close_edges));
    }
    Ok(paths)
}

/// At most one segment index is the first contradiction.
proof fn lemma_contradiction_unique(lines: Seq<CellLine>, k1: int, k2: int)
    requires
        contradiction_at(lines, k1),
        contradiction_at(lines, k2),
    ensures
        k1 == k2,
{
    if k1 < k2 {
        assert(lines.take(k1 + 1).drop_last() =~= lines.take(k1));
        lemma_stitch_fails_onward(lines, k1 + 1, k2);
    } else if k2 < k1 {
        assert(lines.take(k2 + 1).drop_last() =~= lines.take(k2));
        lemma_stitch_fails_onward(lines, k2 + 1, k1);
    }
}

/// Stitching is deterministic: two outcomes for the same segments and the
/// same closing are the same paths, in the same order, or the same failure.
pub proof fn lemma_outcome_deterministic(
    lines: Seq<CellLine>,
    close_edges: CloseEdges,
    r1: Result<Vec<Path>, ContourError>,
    r2: Result<Vec<Path>, ContourError>,
)
    requires
        paths_outcome(lines, close_edges, r1),
        paths_outcome(lines, close_edges, r2),
    ensures
        match (r1, r2) {
            (Ok(a), Ok(b)) => views(a@) == views(b@),
            (Err(x), Err(y)) => x == y,
            _ => false,
        },
{
    if stitch(lines) is None {
        let ContourError::TopologyContradiction { line_index: k1 } = r1->Err_0;
        let ContourError::TopologyContradiction { line_index: k2 } = r2->Err_0;
        lemma_contradiction_unique(lines, k1 as int, k2 as int);
    }
}

/// When a segment completes a loop (the one path it continues is also the
/// one path it leads into), that path is closed and starts and ends at the
/// same raw point.
pub proof fn lemma_loop_closes(paths: Seq<PathView>, l: CellLine)
    requires
        tail_matches(paths, l.raw_line.start, paths.len() as int).len() == 1,
        head_matches(paths, l.raw_line.end, paths.len() as int) == tail_matches(
            paths,
            l.raw_line.start,
            paths.len() as int,
        ),
    ensures
        ({
            let i = tail_matches(paths, l.raw_line.start, paths.len() as int)[0];
            stitch_step(paths, l) matches Some(after) && after[i].closed && first_raw(after[i])
                == last_raw(after[i])
        }),
{
    let i = tail_matches(paths, l.raw_line.start, paths.len() as int)[0];
    lemma_tail_matches_grow(paths, l.raw_line.start, paths.len() as int, paths.len() as int);
    lemma_head_matches_grow(paths, l.raw_line.end, paths.len() as int, paths.len() as int);
    lemma_head_is_match(paths, l.raw_line.end, paths.len() as int, 0);
    assert(first_raw(paths[i]) == l.raw_line.end);
}

/// Each index among the head matches is that of a path starting at `p`.
proof fn lemma_head_is_match(paths: Seq<PathView>, p: Point, n: int, k: int)
    requires
        0 <= k < head_matches(paths, p, n).len(),
    ensures
        first_raw(paths[head_matches(paths, p, n)[k]]) == p,
    decreases n,
{
    if n > 0 {
        let prev = head_matches(paths, p, n - 1);
        if k < prev.len() {
            lemma_head_is_match(paths, p, n - 1, k);
        }
    }
}

/// A segment that more than one path ends at its start, or more than one
/// path starts at its end, is never stitched by picking one of them: the
/// outcome is a `TopologyContradiction` at that segment.
pub proof fn lemma_multiple_matches_fail(
    lines: Seq<CellLine>,
    k: int,
    close_edges: CloseEdges,
    r: Result<Vec<Path>, ContourError>,
)
    requires
        0 <= k < lines.len(),
        stitch(lines.take(k)) matches Some(before) && (tail_matches(
            before,
            lines[k].raw_line.start,
            before.len() as int,
        ).len() > 1 || head_matches(before, lines[k].raw_line.end, before.len() as int).len() > 1),
        paths_outcome(lines, close_edges, r),
    ensures
        r == Err::<Vec<Path>, ContourError>(ContourError::TopologyContradiction { line_index: k as usize }),
{
    assert(lines.take(k + 1).drop_last() =~= lines.take(k));
    assert(lines.take(k + 1).last() == lines[k]);
    lemma_stitch_fails_onward(lines, k + 1, lines.len() as int);
    assert(lines.take(lines.len() as int) =~= lines);
    let ContourError::TopologyContradiction { line_index } = r->Err_0;
    lemma_contradiction_unique(lines, k, line_index as int);
}

} // verus!
