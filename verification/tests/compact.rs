use tally::compact::{compact_column, Point};
use tally::matrix::{Matrix, Timestamp};

fn ts(secs: i64) -> Timestamp {
    Timestamp { secs, nanos: 0 }
}

fn matrix(times: &[Timestamp], columns_per_row: &[Vec<u32>]) -> Matrix {
    let width = columns_per_row[0].len();
    let mut m = Matrix::new(width);
    for (t, row) in times.iter().zip(columns_per_row.iter()) {
        m.push_row(*t, row.clone());
    }
    m
}

#[test]
fn all_zero_column_yields_no_points() {
    let m = matrix(
        &[ts(0), ts(10), ts(20), ts(30)],
        &[vec![0], vec![0], vec![0], vec![0]],
    );
    let pts = compact_column(&m, 0, ts(40));
    assert_eq!(pts.len(), 0);
}

#[test]
fn constant_column_yields_one_change_point() {
    let m = matrix(&[ts(10), ts(20), ts(30)], &[vec![7], vec![7], vec![7]]);
    let pts = compact_column(&m, 0, ts(40));
    // The synthetic zero lead-in, the single real point, and the extension
    // to the render instant.
    assert_eq!(pts.len(), 3);
    assert_eq!((pts[0].time, pts[0].value), (ts(9), 0));
    assert_eq!((pts[1].time, pts[1].value), (ts(10), 7));
    assert_eq!((pts[2].time, pts[2].value), (ts(40), 7));
    assert_eq!(pts.iter().filter(|p| p.value != 0).count(), 2);
}

#[test]
fn constant_column_without_extension() {
    let m = matrix(&[ts(10), ts(20)], &[vec![7], vec![7]]);
    let pts = compact_column(&m, 0, ts(20));
    assert_eq!(pts.len(), 2);
    assert_eq!((pts[0].time, pts[0].value), (ts(9), 0));
    assert_eq!((pts[1].time, pts[1].value), (ts(10), 7));
}

#[test]
fn point_count_bounded_by_changes() {
    let vals = [0u32, 3, 3, 5, 5, 5, 2, 2, 9];
    let times: Vec<Timestamp> = (0..vals.len()).map(|i| ts(10 * (i as i64 + 1))).collect();
    let rows: Vec<Vec<u32>> = vals.iter().map(|v| vec![*v]).collect();
    let m = matrix(&times, &rows);
    let pts = compact_column(&m, 0, ts(1000));
    let changes = vals.windows(2).filter(|w| w[0] != w[1]).count();
    assert!(pts.len() <= 2 + changes);
}

#[test]
fn scenario_compacts_to_change_points() {
    // Rows every ten seconds on exact second boundaries; the column rises,
    // repeats, and drops.
    let m = matrix(
        &[ts(0), ts(10), ts(20), ts(30)],
        &[vec![0], vec![5], vec![5], vec![2]],
    );
    let pts = compact_column(&m, 0, ts(40));
    let shape: Vec<(i64, u32)> = pts.iter().map(|p| (p.time.secs, p.value)).collect();
    assert_eq!(shape, vec![(9, 0), (10, 5), (30, 2), (40, 2)]);
    assert!(pts.iter().all(|p| p.time.nanos == 0));
}

#[test]
fn lead_point_keeps_second_when_rise_is_off_boundary() {
    let first = Timestamp {
        secs: 10,
        nanos: 500_000_000,
    };
    let m = matrix(&[first, ts(20)], &[vec![4], vec![4]]);
    let pts = compact_column(&m, 0, ts(30));
    assert_eq!(pts[0].time, ts(10));
    assert_eq!(pts[0].value, 0);
    assert_eq!(pts[1].time, first);
    assert_eq!(pts[1].value, 4);
}

#[test]
fn origin_row_gets_lead_point_one_second_earlier() {
    // A first rise at the very epoch origin still gets its lead-in point a
    // whole second earlier, on the negative side of the epoch.
    let m = matrix(&[ts(0), ts(10)], &[vec![5], vec![5]]);
    let pts = compact_column(&m, 0, ts(20));
    let shape: Vec<(i64, u32)> = pts.iter().map(|p| (p.time.secs, p.value)).collect();
    assert_eq!(shape, vec![(-1, 0), (0, 5), (20, 5)]);
    for pair in pts.windows(2) {
        let a = pair[0].time;
        let b = pair[1].time;
        assert!(a.secs < b.secs || (a.secs == b.secs && a.nanos < b.nanos));
    }
}

#[test]
fn point_count_bound_counts_a_virtual_zero_first_row() {
    // A column that starts nonzero changes once at its (virtual zero)
    // predecessor, so the bound grows by one.
    let vals = [5u32, 5, 2];
    let times: Vec<Timestamp> = (0..vals.len()).map(|i| ts(10 * (i as i64 + 1))).collect();
    let rows: Vec<Vec<u32>> = vals.iter().map(|v| vec![*v]).collect();
    let m = matrix(&times, &rows);
    let pts = compact_column(&m, 0, ts(1000));
    let changes = vals.windows(2).filter(|w| w[0] != w[1]).count();
    assert_eq!(pts.len(), 4);
    assert!(pts.len() <= 2 + 1 + changes);
}

#[test]
fn empty_matrix_yields_no_points() {
    let m = Matrix::new(1);
    let pts = compact_column(&m, 0, ts(40));
    assert_eq!(pts.len(), 0);
}

#[test]
fn columns_compact_independently() {
    let m = matrix(
        &[ts(10), ts(20), ts(30)],
        &[vec![0, 1], vec![0, 1], vec![0, 2]],
    );
    let zero_col = compact_column(&m, 0, ts(40));
    let live_col = compact_column(&m, 1, ts(40));
    assert_eq!(zero_col.len(), 0);
    let shape: Vec<(i64, u32)> = live_col.iter().map(|p| (p.time.secs, p.value)).collect();
    assert_eq!(shape, vec![(9, 0), (10, 1), (30, 2), (40, 2)]);
}

#[test]
fn emitted_timestamps_strictly_increase() {
    let m = matrix(
        &[ts(5), ts(10), ts(15), ts(25)],
        &[vec![0], vec![8], vec![3], vec![3]],
    );
    let pts: Vec<Point> = compact_column(&m, 0, ts(30));
    for pair in pts.windows(2) {
        let a = pair[0].time;
        let b = pair[1].time;
        assert!(a.secs < b.secs || (a.secs == b.secs && a.nanos < b.nanos));
    }
}

#[test]
fn millis_counts_whole_milliseconds() {
    let t = Timestamp {
        secs: 12,
        nanos: 345_678_901,
    };
    assert_eq!(t.millis(), 12_345);
    assert_eq!(Timestamp { secs: -1, nanos: 0 }.millis(), -1000);
    assert_eq!(Timestamp { secs: -1, nanos: 500_000_000 }.millis(), -500);
    assert_eq!(ts(40).millis(), 40_000);
}
