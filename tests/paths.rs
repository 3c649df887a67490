use isocontour::{paths_from_lines, CellLine, CloseEdges, ContourError, Field, Line, Path, Point};

fn half(x: i128, y: i128) -> Point {
    Point { x, y, den: 2 }
}

fn xy(p: Point) -> (f64, f64) {
    (p.x as f64 / p.den as f64, p.y as f64 / p.den as f64)
}

fn raw_xy(path: &Path) -> Vec<(f64, f64)> {
    path.points.iter().map(|p| xy(p.raw_point)).collect()
}

/// A segment whose interpolated and raw lines coincide; coordinates in halves.
fn seg(x0: i128, y0: i128, x1: i128, y1: i128) -> CellLine {
    let line = Line { start: half(x0, y0), end: half(x1, y1) };
    CellLine { interpolated_line: line, raw_line: line }
}

#[test]
fn blob_gives_one_closed_loop() {
    // A single high sample in the middle of a 5 by 5 field.
    let mut vals = vec![0; 25];
    vals[2 + 2 * 5] = 10;
    let field = Field { extent: (5, 5), vals };
    for close_edges in [false, true] {
        let paths = field.layer_paths(5, close_edges).unwrap();
        assert_eq!(paths.len(), 1);
        let path = &paths[0];
        assert!(path.closed);
        assert_eq!(path.start().raw_point, path.end().raw_point);
        assert_eq!(path.points.len(), 5);
        assert_eq!(
            raw_xy(path),
            vec![(2.0, 2.5), (1.5, 2.0), (2.0, 1.5), (2.5, 2.0), (2.0, 2.5)]
        );
    }
}

#[test]
fn extraction_is_deterministic() {
    let vals: Vec<i64> = (0..36).map(|i: i64| (i * 7919) % 23).collect();
    let field = Field { extent: (6, 6), vals };
    for threshold in [3, 8, 11, 17] {
        let first = field.layer_paths(threshold, true).unwrap();
        let second = field.layer_paths(threshold, true).unwrap();
        assert_eq!(first.len(), second.len());
        for (a, b) in first.iter().zip(second.iter()) {
            assert_eq!(a.points, b.points);
            assert_eq!(a.closed, b.closed);
        }
    }
}

#[test]
fn left_to_top_closes_round_the_far_corners() {
    // The two top-left samples are low, every other sample is high.
    let mut vals = vec![10; 16];
    vals[0] = 0;
    vals[1] = 0;
    let field = Field { extent: (4, 4), vals };
    let paths = field.layer_paths(5, true).unwrap();
    assert_eq!(paths.len(), 1);
    let path = &paths[0];
    assert!(path.closed);
    assert_eq!(
        raw_xy(path),
        vec![(0.0, 0.5), (1.0, 0.5), (1.5, 0.0), (3.5, 0.0), (3.5, 3.5), (0.0, 3.5)]
    );
    // the corners stand in both representations
    for p in &path.points[3..] {
        assert_eq!(p.raw_point, p.interpolated_point);
    }
    // interpolated crossings halfway between 0 and 10
    assert_eq!(xy(path.points[0].interpolated_point), (0.0, 0.5));
    assert_eq!(xy(path.points[2].interpolated_point), (1.5, 0.0));

    let open = field.layer_paths(5, false).unwrap();
    assert_eq!(open.len(), 1);
    assert!(!open[0].closed);
    assert_eq!(open[0].points.len(), 3);
}

#[test]
fn duplicated_segment_is_a_contradiction() {
    let a = seg(0, 1, 1, 0);
    let b = seg(1, 0, 3, 0);
    // two paths end where the third segment starts
    let r = paths_from_lines(&[a, a, b], CloseEdges::Off);
    assert!(matches!(r, Err(ContourError::TopologyContradiction { line_index: 2 })));
    // two paths start where the third segment ends
    let c = seg(5, 5, 0, 1);
    let r = paths_from_lines(&[a, a, c], CloseEdges::ForExtent(4, 4));
    assert!(matches!(r, Err(ContourError::TopologyContradiction { line_index: 2 })));
}

#[test]
fn stitching_appends_prepends_and_joins() {
    let lines = [
        seg(2, 1, 3, 2), // new path
        seg(3, 2, 4, 3), // appended
        seg(1, 0, 2, 1), // prepended
        seg(6, 5, 7, 6), // second path
        seg(4, 3, 6, 5), // joins the two: the joined path goes last, and the
                         // joining point stands twice, once from each side
    ];
    let paths = paths_from_lines(&lines, CloseEdges::Off).unwrap();
    assert_eq!(paths.len(), 1);
    assert!(!paths[0].closed);
    assert_eq!(
        raw_xy(&paths[0]),
        vec![(0.5, 0.0), (1.0, 0.5), (1.5, 1.0), (2.0, 1.5), (3.0, 2.5), (3.0, 2.5), (3.5, 3.0)]
    );

    let paths = paths_from_lines(&lines[..4], CloseEdges::Off).unwrap();
    assert_eq!(paths.len(), 2);
    assert_eq!(raw_xy(&paths[1]), vec![(3.0, 2.5), (3.5, 3.0)]);
}

#[test]
fn no_segments_give_no_paths() {
    let paths = paths_from_lines(&[], CloseEdges::ForExtent(4, 4)).unwrap();
    assert!(paths.is_empty());
    let field = Field { extent: (2, 2), vals: vec![7, 7, 7, 7] };
    assert!(field.layer_paths(7, true).unwrap().is_empty());
    assert!(field.layer_paths(6, true).unwrap().is_empty());
}

#[test]
fn border_closing_table() {
    // On a 4 by 4 field: left x <= 1/2, top y <= 1/2, right x >= 3, bottom y >= 3.
    let left = (0, 3);
    let top = (3, 0);
    let right = (6, 3);
    let bottom = (3, 6);
    let tl = (0.0, 0.0);
    let tr = (3.5, 0.0);
    let bl = (0.0, 3.5);
    let br = (3.5, 3.5);
    let cases = [
        (left, left, vec![]),
        (left, top, vec![tr, br, bl]),
        (left, right, vec![br, bl]),
        (left, bottom, vec![bl]),
        (top, left, vec![tl]),
        (top, top, vec![]),
        (top, right, vec![tr]),
        (top, bottom, vec![bl, tl]),
        (right, left, vec![tl, tr]),
        (right, top, vec![tr]),
        (right, right, vec![]),
        (right, bottom, vec![bl, tl, tr]),
        (bottom, left, vec![bl]),
        (bottom, top, vec![tr, br]),
        (bottom, right, vec![br]),
        (bottom, bottom, vec![]),
    ];
    for (begin, end, corners) in cases {
        let line = seg(begin.0, begin.1, end.0, end.1);
        let paths = paths_from_lines(&[line], CloseEdges::ForExtent(4, 4)).unwrap();
        assert_eq!(paths.len(), 1);
        assert!(paths[0].closed);
        let mut expected = vec![xy(half(begin.0, begin.1)), xy(half(end.0, end.1))];
        expected.extend(corners);
        assert_eq!(raw_xy(&paths[0]), expected, "{:?} to {:?}", begin, end);
    }
}

#[test]
fn path_with_one_inner_end_stays_open() {
    let line = seg(0, 3, 3, 3);
    let paths = paths_from_lines(&[line], CloseEdges::ForExtent(4, 4)).unwrap();
    assert_eq!(paths.len(), 1);
    assert!(!paths[0].closed);
    assert_eq!(paths[0].points.len(), 2);
    assert_eq!(paths[0].start().raw_point, half(0, 3));
    assert_eq!(paths[0].end().raw_point, half(3, 3));
}
