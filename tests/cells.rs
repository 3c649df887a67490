use isocontour::{cell_segment, id_from_vals, CellLine, CellSegment, Field, Point};

fn xy(p: Point) -> (f64, f64) {
    (p.x as f64 / p.den as f64, p.y as f64 / p.den as f64)
}

fn one(segment: CellSegment) -> CellLine {
    match segment {
        CellSegment::One(line) => line,
        other => panic!("expected one segment, got {:?}", other),
    }
}

fn two(segment: CellSegment) -> (CellLine, CellLine) {
    match segment {
        CellSegment::Two(a, b) => (a, b),
        other => panic!("expected two segments, got {:?}", other),
    }
}

fn count(segment: &CellSegment) -> usize {
    match segment {
        CellSegment::Zero => 0,
        CellSegment::One(_) => 1,
        CellSegment::Two(_, _) => 2,
    }
}

#[test]
fn id_test() {
    let threshold = 5;

    let vals = [1, 1, 2, 3];
    assert_eq!(0, id_from_vals(threshold, &vals));

    let vals = [1, 6, 6, 6];
    assert_eq!(0b0111, id_from_vals(threshold, &vals));

    let vals = [1, 6, 2, 6];
    assert_eq!(0b0101, id_from_vals(threshold, &vals));
}

#[test]
fn segment_test() {
    let threshold = 5;

    let vals = [1, 3, 3, 7];
    let line = one(cell_segment(threshold, (0, 0), 0b0001, &vals)).interpolated_line;
    assert_eq!(xy(line.start), (0.5, 1.0));
    assert_eq!(xy(line.end), (1.0, 0.5));

    let vals = [9, 7, 7, 3];
    let line = one(cell_segment(threshold, (0, 0), 0b1110, &vals)).interpolated_line;
    assert_eq!(xy(line.start), (1.0, 0.5));
    assert_eq!(xy(line.end), (0.5, 1.0));
}

#[test]
fn classify_is_strictly_greater_and_msb_first() {
    assert_eq!(id_from_vals(5, &[5, 5, 5, 5]), 0);
    assert_eq!(id_from_vals(5, &[6, 5, 5, 5]), 0b1000);
    assert_eq!(id_from_vals(5, &[5, 6, 5, 5]), 0b0100);
    assert_eq!(id_from_vals(5, &[5, 5, 6, 5]), 0b0010);
    assert_eq!(id_from_vals(5, &[5, 5, 5, 6]), 0b0001);
    assert_eq!(id_from_vals(5, &[6, 6, 6, 6]), 15);
    assert_eq!(id_from_vals(i64::MIN, &[i64::MAX, i64::MIN, i64::MAX, i64::MIN]), 0b1010);
}

#[test]
fn segment_count_by_id() {
    let vals = [0, 10, 10, 0];
    for id in 0u8..16 {
        let expected = match id {
            0 | 15 => 0,
            6 | 9 => 2,
            _ => 1,
        };
        assert_eq!(count(&cell_segment(5, (2, 3), id, &vals)), expected, "id {}", id);
    }
}

#[test]
fn complement_reverses_direction() {
    let a = one(cell_segment(5, (0, 0), 0b0001, &[1, 3, 3, 7]));
    let b = one(cell_segment(5, (0, 0), 0b1110, &[9, 7, 7, 3]));
    assert_eq!(a.raw_line.start, b.raw_line.end);
    assert_eq!(a.raw_line.end, b.raw_line.start);
}

#[test]
fn crossing_lies_on_its_edge_and_anchor_is_midpoint() {
    // id 0b0011: left and right edges cross, at 1/4 and 3/4 of the way down.
    let vals = [0, 0, 8, 8];
    for threshold in [0, 1, 2, 6, 7] {
        let line = one(cell_segment(threshold, (4, 7), id_from_vals(threshold, &vals), &vals));
        let (sx, sy) = xy(line.interpolated_line.start);
        let (ex, ey) = xy(line.interpolated_line.end);
        assert_eq!(sx, 4.0);
        assert_eq!(ex, 5.0);
        assert!(7.0 <= sy && sy <= 8.0);
        assert!(7.0 <= ey && ey <= 8.0);
        assert_eq!(sy, 7.0 + threshold as f64 / 8.0);
        assert_eq!(xy(line.raw_line.start), (4.0, 7.5));
        assert_eq!(xy(line.raw_line.end), (5.0, 7.5));
    }
}

#[test]
fn crossing_with_extreme_samples() {
    let vals = [i64::MIN, i64::MIN, i64::MAX, i64::MAX];
    let line = one(cell_segment(0, (u32::MAX - 1, 0), id_from_vals(0, &vals), &vals));
    let start = line.interpolated_line.start;
    assert_eq!(start.den, (i64::MAX as i128) - (i64::MIN as i128));
    assert_eq!(start.x, (u32::MAX - 1) as i128 * start.den);
    assert_eq!(start.y, -(i64::MIN as i128));
}

#[test]
fn saddle_follows_mean() {
    // id 0b0110: top-right and bottom-left inside.
    let above = [0, 10, 10, 1];
    let (a, b) = two(cell_segment(5, (0, 0), id_from_vals(5, &above), &above));
    assert_eq!(xy(a.raw_line.start), (0.0, 0.5));
    assert_eq!(xy(a.raw_line.end), (0.5, 0.0));
    assert_eq!(xy(b.raw_line.start), (1.0, 0.5));
    assert_eq!(xy(b.raw_line.end), (0.5, 1.0));

    let below = [0, 6, 6, 0];
    let (a, b) = two(cell_segment(5, (0, 0), id_from_vals(5, &below), &below));
    assert_eq!(xy(a.raw_line.start), (1.0, 0.5));
    assert_eq!(xy(a.raw_line.end), (0.5, 0.0));
    assert_eq!(xy(b.raw_line.start), (0.0, 0.5));
    assert_eq!(xy(b.raw_line.end), (0.5, 1.0));

    // id 0b1001 with the mean exactly at the threshold counts as not above.
    let level = [10, 0, 0, 10];
    let (a, b) = two(cell_segment(5, (0, 0), id_from_vals(5, &level), &level));
    assert_eq!(xy(a.raw_line.start), (0.5, 1.0));
    assert_eq!(xy(a.raw_line.end), (1.0, 0.5));
    assert_eq!(xy(b.raw_line.start), (0.5, 0.0));
    assert_eq!(xy(b.raw_line.end), (0.0, 0.5));
}

#[test]
fn field_samples_and_cells() {
    let field = Field { extent: (3, 2), vals: vec![1, 2, 3, 4, 5, 6] };
    assert_eq!(field.val_at((0, 0)), 1);
    assert_eq!(field.val_at((2, 0)), 3);
    assert_eq!(field.val_at((0, 1)), 4);
    assert_eq!(field.val_at((2, 1)), 6);

    let cell = field.cell_at(4, (1, 0));
    assert_eq!(cell.pos, (1, 0));
    // corners 2, 3, 5, 6
    assert_eq!(cell.id, 0b0011);
    let line = one(cell.segment);
    assert_eq!(xy(line.raw_line.start), (1.0, 0.5));
    assert_eq!(xy(line.raw_line.end), (2.0, 0.5));
    assert_eq!(xy(line.interpolated_line.start), (1.0, 2.0 / 3.0));
    assert_eq!(xy(line.interpolated_line.end), (2.0, 1.0 / 3.0));
}

#[test]
fn raw_lines_in_row_major_order() {
    // Only the top-left and bottom-right samples are high.
    let field = Field { extent: (3, 3), vals: vec![9, 0, 0, 0, 0, 0, 0, 0, 9] };
    let lines = field.raw_lines(5);
    assert_eq!(lines.len(), 2);
    // cell (0, 0), id 0b1000: top edge to left edge
    assert_eq!(xy(lines[0].raw_line.start), (0.5, 0.0));
    assert_eq!(xy(lines[0].raw_line.end), (0.0, 0.5));
    // cell (1, 1), id 0b0001: bottom edge to right edge
    assert_eq!(xy(lines[1].raw_line.start), (1.5, 2.0));
    assert_eq!(xy(lines[1].raw_line.end), (2.0, 1.5));
}

#[test]
fn mismatched_id_crosses_flat_edge_at_no_position() {
    // id 0b0001 names the bottom and right edges, which are flat here.
    let line = one(cell_segment(5, (0, 0), 0b0001, &[1, 1, 1, 1]));
    assert_eq!(line.interpolated_line.start.den, 0);
    assert_eq!(line.interpolated_line.end.den, 0);
    assert_eq!(xy(line.raw_line.start), (0.5, 1.0));
    assert_eq!(xy(line.raw_line.end), (1.0, 0.5));
}
