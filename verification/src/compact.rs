//! Change-point compaction of one matrix column.
//!
//! Walking the rows in timestamp order, the compactor suppresses the
//! leading all-zero history, synthesizes a zero point just before the first
//! rise so the chart shows a clean step edge, keeps only the rows whose
//! value differs from the previous emitted value, and finally extends the
//! series to the render instant when the matrix ends before it.

use crate::matrix::Matrix;
use crate::matrix::Timestamp;
use vstd::prelude::*;

verus! {

/// One emitted chart point. `origin` names the matrix row whose
/// denominator normalizes the point; the final synthetic point at the
/// render instant carries no row and is normalized by the denominator at
/// that instant.
#[derive(Clone, Copy, Debug, PartialEq, Eq)]
pub struct Point {
    pub time: Timestamp,
    pub value: u32,
    pub origin: Option<usize>,
}

/// The points emitted from row `i` onward, `prev` being the last emitted
/// value, or nothing while the leading zero history is still being
/// suppressed.
pub open spec fn spec_compact_from(
    times: Seq<Timestamp>,
    vals: Seq<u32>,
    i: int,
    prev: Option<u32>,
) -> Seq<Point>
    recommends
        times.len() == vals.len(),
    decreases vals.len() - i,
{
    if i < 0 || i >= vals.len() {
        Seq::empty()
    } else {
        let v = vals[i];
        match prev {
            None => {
                if v == 0 {
                    spec_compact_from(times, vals, i + 1, None)
                } else {
                    seq![
                        Point { time: times[i].spec_lead(), value: 0, origin: Some(i as usize) },
                        Point { time: times[i], value: v, origin: Some(i as usize) },
                    ] + spec_compact_from(times, vals, i + 1, Some(v))
                }
            },
            Some(p) => {
                if p == v {
                    spec_compact_from(times, vals, i + 1, prev)
                } else {
                    seq![Point { time: times[i], value: v, origin: Some(i as usize) }]
                        + spec_compact_from(times, vals, i + 1, Some(v))
                }
            },
        }
    }
}

/// The whole compacted series for one column: the change points, and, when
/// anything was emitted and the matrix ends strictly before the render
/// instant, one final synthetic point carrying the last value forward.
pub open spec fn spec_compact_column(
    times: Seq<Timestamp>,
    vals: Seq<u32>,
    now: Timestamp,
) -> Seq<Point>
    recommends
        times.len() == vals.len(),
{
    let body = spec_compact_from(times, vals, 0, None);
    if body.len() > 0 && times.last().spec_lt(now) {
        body.push(Point { time: now, value: vals.last(), origin: None })
    } else {
        body
    }
}

/// Compact one column of the matrix to its change points.
pub fn compact_column(m: &Matrix, col: usize, now: Timestamp) -> (pts: Vec<Point>)
    requires
        m.wf(),
        col < m.width,
        now.wf(),
    ensures
        pts@ == spec_compact_column(m.times@, m.spec_column(col as int), now),
        forall|k: int|
            0 <= k < pts@.len() ==> point_wf(#[trigger] pts@[k], m.rows@.len() as int),
        points_strictly_increase(pts@),
{
    proof {
        lemma_compact_column_points_wf(m.times@, m.spec_column(col as int), now);
        assert forall|j: int, l: int|
            #![trigger m.times@[j], m.times@[l]]
            0 <= j < l < m.times@.len() implies m.times@[j].spec_lt(m.times@[l]) by {}
        lemma_column_points_strictly_increase(m.times@, m.spec_column(col as int), now);
    }
    let ghost times = m.times@;
    let ghost vals = m.spec_column(col as int);
    let n = m.rows.len();
    let mut pts: Vec<Point> = Vec::new();
    let mut prev: Option<u32> = None;
    let mut j: usize = 0;
    while j < n
        invariant
            m.wf(),
            col < m.width,
            times == m.times@,
            vals == m.spec_column(col as int),
            n == m.rows@.len(),
            0 <= j <= n,
            spec_compact_from(times, vals, 0, None) == pts@ + spec_compact_from(
                times,
                vals,
                j as int,
                prev,
            ),
        decreases n - j,
    {
        assert(m.rows@[j as int]@.len() == m.width);
        assert(m.times@[j as int].wf());
        let t = m.times[j];
        let v = m.rows[j][col];
        assert(v == vals[j as int]);
        let ghost pts_before = pts@;
        let ghost prev_before = prev;
        match prev {
            None => {
                if v != 0 {
                    pts.push(Point { time: t.lead(), value: 0, origin: Some(j) });
                    pts.push(Point { time: t, value: v, origin: Some(j) });
                    prev = Some(v);
                }
            },
            Some(p) => {
                if p != v {
                    pts.push(Point { time: t, value: v, origin: Some(j) });
                    prev = Some(v);
                }
            },
        }
        proof {
            assert(pts@ + spec_compact_from(times, vals, j + 1, prev) =~= pts_before
                + spec_compact_from(times, vals, j as int, prev_before));
        }
        j += 1;
    }
    proof {
        assert(pts@ + spec_compact_from(times, vals, n as int, prev) =~= pts@);
    }
    if pts.len() > 0 {
        let last_t = m.times[n - 1];
        if last_t.lt(&now) {
            assert(m.rows@[n - 1]@.len() == m.width);
            let last_v = m.rows[n - 1][col];
            assert(last_v == vals.last());
            pts.push(Point { time: now, value: last_v, origin: None });
        }
    }
    pts
}

/// Whether a point's denominator row lies inside a matrix of `n` rows.
pub open spec fn origin_in_range(p: Point, n: int) -> bool {
    match p.origin {
        Some(j) => j < n,
        None => true,
    }
}

/// A point fit for rendering: its instant is renderable and its
/// denominator row, if any, lies inside a matrix of `n` rows.
pub open spec fn point_wf(p: Point, n: int) -> bool {
    p.time.renderable() && origin_in_range(p, n)
}

proof fn lemma_compact_from_points_wf(
    times: Seq<Timestamp>,
    vals: Seq<u32>,
    i: int,
    prev: Option<u32>,
)
    requires
        times.len() == vals.len(),
        forall|j: int| 0 <= j < times.len() ==> (#[trigger] times[j]).wf(),
    ensures
        forall|k: int|
            0 <= k < spec_compact_from(times, vals, i, prev).len() ==> point_wf(
                #[trigger] spec_compact_from(times, vals, i, prev)[k],
                vals.len() as int,
            ),
    decreases vals.len() - i,
{
    if 0 <= i < vals.len() {
        let v = vals[i];
        let full = spec_compact_from(times, vals, i, prev);
        match prev {
            None => {
                if v == 0 {
                    lemma_compact_from_points_wf(times, vals, i + 1, None);
                    let rest = spec_compact_from(times, vals, i + 1, None);
                    assert forall|k: int| 0 <= k < full.len() implies point_wf(
                        full[k],
                        vals.len() as int,
                    ) by {
                        assert(full[k] == rest[k]);
                    }
                } else {
                    lemma_compact_from_points_wf(times, vals, i + 1, Some(v));
                    let emitted = seq![
                        Point { time: times[i].spec_lead(), value: 0, origin: Some(i as usize) },
                        Point { time: times[i], value: v, origin: Some(i as usize) },
                    ];
                    let rest = spec_compact_from(times, vals, i + 1, Some(v));
                    assert forall|k: int| 0 <= k < full.len() implies point_wf(
                        full[k],
                        vals.len() as int,
                    ) by {
                        if k < 2 {
                            assert(full[k] == emitted[k]);
                        } else {
                            assert(full[k] == rest[k - 2]);
                        }
                    }
                }
            },
            Some(p) => {
                if p == v {
                    lemma_compact_from_points_wf(times, vals, i + 1, prev);
                    let rest = spec_compact_from(times, vals, i + 1, prev);
                    assert forall|k: int| 0 <= k < full.len() implies point_wf(
                        full[k],
                        vals.len() as int,
                    ) by {
                        assert(full[k] == rest[k]);
                    }
                } else {
                    lemma_compact_from_points_wf(times, vals, i + 1, Some(v));
                    let emitted = seq![Point { time: times[i], value: v, origin: Some(i as usize) }];
                    let rest = spec_compact_from(times, vals, i + 1, Some(v));
                    assert forall|k: int| 0 <= k < full.len() implies point_wf(
                        full[k],
                        vals.len() as int,
                    ) by {
                        if k < 1 {
                            assert(full[k] == emitted[k]);
                        } else {
                            assert(full[k] == rest[k - 1]);
                        }
                    }
                }
            },
        }
    }
}

/// Every point of a compacted column is fit for rendering: its instant is
/// well formed and any denominator row it names lies inside the matrix.
pub proof fn lemma_compact_column_points_wf(times: Seq<Timestamp>, vals: Seq<u32>, now: Timestamp)
    requires
        times.len() == vals.len(),
        now.wf(),
        forall|j: int| 0 <= j < times.len() ==> (#[trigger] times[j]).wf(),
    ensures
        forall|k: int|
            0 <= k < spec_compact_column(times, vals, now).len() ==> point_wf(
                #[trigger] spec_compact_column(times, vals, now)[k],
                vals.len() as int,
            ),
{
    lemma_compact_from_points_wf(times, vals, 0, None);
}

/// A column whose rows are all zero yields no points at all.
proof fn lemma_compact_from_all_zero(times: Seq<Timestamp>, vals: Seq<u32>, i: int)
    requires
        forall|k: int| 0 <= k < vals.len() ==> vals[k] == 0,
    ensures
        spec_compact_from(times, vals, i, None).len() == 0,
    decreases vals.len() - i,
{
    if 0 <= i < vals.len() {
        lemma_compact_from_all_zero(times, vals, i + 1);
    }
}

/// A column whose rows are all zero yields an empty compacted series,
/// whatever the render instant.
pub proof fn lemma_all_zero_column_empty(times: Seq<Timestamp>, vals: Seq<u32>, now: Timestamp)
    requires
        times.len() == vals.len(),
        forall|k: int| 0 <= k < vals.len() ==> vals[k] == 0,
    ensures
        spec_compact_column(times, vals, now).len() == 0,
{
    lemma_compact_from_all_zero(times, vals, 0);
}

/// Once the running value equals `v`, rows that stay at `v` emit nothing.
proof fn lemma_compact_from_constant(times: Seq<Timestamp>, vals: Seq<u32>, i: int, v: u32)
    requires
        forall|k: int| 0 <= k < vals.len() ==> vals[k] == v,
    ensures
        spec_compact_from(times, vals, i, Some(v)).len() == 0,
    decreases vals.len() - i,
{
    if 0 <= i < vals.len() {
        lemma_compact_from_constant(times, vals, i + 1, v);
    }
}

/// A column whose rows all hold the same nonzero value yields exactly the
/// synthetic lead-in zero and one real change point, plus the final point
/// at the render instant when the matrix ends strictly before it.
pub proof fn lemma_constant_column(times: Seq<Timestamp>, vals: Seq<u32>, now: Timestamp, v: u32)
    requires
        times.len() == vals.len(),
        vals.len() > 0,
        v != 0,
        forall|k: int| 0 <= k < vals.len() ==> vals[k] == v,
    ensures
        spec_compact_column(times, vals, now) == {
            let base = seq![
                Point { time: times[0].spec_lead(), value: 0, origin: Some(0usize) },
                Point { time: times[0], value: v, origin: Some(0usize) },
            ];
            if times.last().spec_lt(now) {
                base.push(Point { time: now, value: v, origin: None })
            } else {
                base
            }
        },
{
    lemma_compact_from_constant(times, vals, 1, v);
    let base = seq![
        Point { time: times[0].spec_lead(), value: 0, origin: Some(0usize) },
        Point { time: times[0], value: v, origin: Some(0usize) },
    ];
    assert(spec_compact_from(times, vals, 0, None) =~= base);
}

/// Whether the emitted instants strictly increase along the series.
pub open spec fn points_strictly_increase(pts: Seq<Point>) -> bool {
    forall|a: int, b: int|
        #![trigger pts[a], pts[b]]
        0 <= a < b < pts.len() ==> pts[a].time.spec_lt(pts[b].time)
}

/// Whether no point of the series lies before the instant `t`.
pub open spec fn points_not_before(pts: Seq<Point>, t: Timestamp) -> bool {
    forall|a: int| 0 <= a < pts.len() ==> t.spec_le((#[trigger] pts[a]).time)
}

/// Whether no point of the series lies after the instant `t`.
pub open spec fn points_not_after(pts: Seq<Point>, t: Timestamp) -> bool {
    forall|a: int| 0 <= a < pts.len() ==> (#[trigger] pts[a]).time.spec_le(t)
}

proof fn lemma_compact_from_increasing(
    times: Seq<Timestamp>,
    vals: Seq<u32>,
    i: int,
    prev: Option<u32>,
)
    requires
        times.len() == vals.len(),
        forall|j: int, l: int|
            #![trigger times[j], times[l]]
            0 <= j < l < times.len() ==> times[j].spec_lt(times[l]),
        forall|j: int| 0 <= j < times.len() ==> (#[trigger] times[j]).wf(),
        0 <= i,
    ensures
        points_strictly_increase(spec_compact_from(times, vals, i, prev)),
        i < vals.len() && prev is None ==> points_not_before(
            spec_compact_from(times, vals, i, prev),
            times[i].spec_lead(),
        ),
        i < vals.len() && prev is Some ==> points_not_before(
            spec_compact_from(times, vals, i, prev),
            times[i],
        ),
        vals.len() > 0 ==> points_not_after(
            spec_compact_from(times, vals, i, prev),
            times[vals.len() - 1],
        ),
    decreases vals.len() - i,
{
    if i < vals.len() {
        let v = vals[i];
        let full = spec_compact_from(times, vals, i, prev);
        match prev {
            None => {
                if v == 0 {
                    lemma_compact_from_increasing(times, vals, i + 1, None);
                    let rest = spec_compact_from(times, vals, i + 1, None);
                    assert forall|a: int| 0 <= a < full.len() implies times[i].spec_lead().spec_le(
                        full[a].time,
                    ) by {
                        assert(full[a] == rest[a]);
                        if i + 1 < vals.len() {
                            assert(times[i + 1].spec_lead().spec_le(rest[a].time));
                            assert(times[i].spec_lead().spec_le(times[i + 1].spec_lead()));
                        }
                    }
                } else {
                    lemma_compact_from_increasing(times, vals, i + 1, Some(v));
                    let rest = spec_compact_from(times, vals, i + 1, Some(v));
                    let lead = times[i].spec_lead();
                    assert(lead.spec_lt(times[i]));
                    assert forall|a: int, b: int|
                        #![trigger full[a], full[b]]
                        0 <= a < b < full.len() implies full[a].time.spec_lt(full[b].time) by {
                        if b >= 2 {
                            assert(full[b] == rest[b - 2]);
                            assert(times[i + 1].spec_le(rest[b - 2].time));
                        }
                        if a >= 2 {
                            assert(full[a] == rest[a - 2]);
                        }
                    }
                    assert forall|a: int| 0 <= a < full.len() implies lead.spec_le(
                        full[a].time,
                    ) by {
                        if a >= 2 {
                            assert(full[a] == rest[a - 2]);
                            assert(times[i + 1].spec_le(rest[a - 2].time));
                        }
                    }
                    assert forall|a: int| 0 <= a < full.len() implies full[a].time.spec_le(
                        times[vals.len() - 1],
                    ) by {
                        if a >= 2 {
                            assert(full[a] == rest[a - 2]);
                        }
                    }
                }
            },
            Some(p) => {
                if p == v {
                    lemma_compact_from_increasing(times, vals, i + 1, prev);
                    let rest = spec_compact_from(times, vals, i + 1, prev);
                    assert forall|a: int| 0 <= a < full.len() implies times[i].spec_le(
                        full[a].time,
                    ) by {
                        assert(full[a] == rest[a]);
                        if i + 1 < vals.len() {
                            assert(times[i + 1].spec_le(rest[a].time));
                        }
                    }
                } else {
                    lemma_compact_from_increasing(times, vals, i + 1, Some(v));
                    let rest = spec_compact_from(times, vals, i + 1, Some(v));
                    assert forall|a: int, b: int|
                        #![trigger full[a], full[b]]
                        0 <= a < b < full.len() implies full[a].time.spec_lt(full[b].time) by {
                        assert(full[b] == rest[b - 1]);
                        assert(times[i + 1].spec_le(rest[b - 1].time));
                        if a >= 1 {
                            assert(full[a] == rest[a - 1]);
                        }
                    }
                    assert forall|a: int| 0 <= a < full.len() implies times[i].spec_le(
                        full[a].time,
                    ) by {
                        if a >= 1 {
                            assert(full[a] == rest[a - 1]);
                            assert(times[i + 1].spec_le(rest[a - 1].time));
                        }
                    }
                    assert forall|a: int| 0 <= a < full.len() implies full[a].time.spec_le(
                        times[vals.len() - 1],
                    ) by {
                        if a >= 1 {
                            assert(full[a] == rest[a - 1]);
                        }
                    }
                }
            },
        }
    }
}

/// The instants of a compacted column strictly increase, for every matrix
/// whose instants are well formed and strictly increasing.
pub proof fn lemma_column_points_strictly_increase(
    times: Seq<Timestamp>,
    vals: Seq<u32>,
    now: Timestamp,
)
    requires
        times.len() == vals.len(),
        forall|j: int, l: int|
            #![trigger times[j], times[l]]
            0 <= j < l < times.len() ==> times[j].spec_lt(times[l]),
        forall|j: int| 0 <= j < times.len() ==> (#[trigger] times[j]).wf(),
    ensures
        points_strictly_increase(spec_compact_column(times, vals, now)),
{
    lemma_compact_from_increasing(times, vals, 0, None);
    let body = spec_compact_from(times, vals, 0, None);
    let full = spec_compact_column(times, vals, now);
    if body.len() > 0 && times.last().spec_lt(now) {
        assert forall|a: int, b: int|
            #![trigger full[a], full[b]]
            0 <= a < b < full.len() implies full[a].time.spec_lt(full[b].time) by {
            if b < full.len() - 1 {
                assert(full[a] == body[a]);
                assert(full[b] == body[b]);
            } else {
                assert(full[a] == body[a]);
                assert(body[a].time.spec_le(times[vals.len() - 1]));
            }
        }
    }
}

/// How many rows differ from their predecessor, counting from row `i`.
pub open spec fn spec_change_count(vals: Seq<u32>, i: int) -> int
    decreases vals.len() - i,
{
    if i < 1 || i >= vals.len() {
        0
    } else {
        (if vals[i] != vals[i - 1] {
            1int
        } else {
            0int
        }) + spec_change_count(vals, i + 1)
    }
}

/// While the last emitted value tracks the previous row, each further point
/// costs one change.
proof fn lemma_count_tracking(times: Seq<Timestamp>, vals: Seq<u32>, i: int)
    requires
        1 <= i <= vals.len(),
    ensures
        spec_compact_from(times, vals, i, Some(vals[i - 1])).len() <= spec_change_count(vals, i),
    decreases vals.len() - i,
{
    if i < vals.len() {
        lemma_count_tracking(times, vals, i + 1);
    }
}

/// While the leading zeros are being suppressed, at most one extra point
/// beyond the changes can still be emitted.
proof fn lemma_count_leading_zeros(times: Seq<Timestamp>, vals: Seq<u32>, i: int)
    requires
        1 <= i <= vals.len(),
        vals[i - 1] == 0,
    ensures
        spec_compact_from(times, vals, i, None).len() <= 1 + spec_change_count(vals, i),
    decreases vals.len() - i,
{
    if i < vals.len() {
        if vals[i] == 0 {
            lemma_count_leading_zeros(times, vals, i + 1);
        } else {
            lemma_count_tracking(times, vals, i + 1);
        }
    }
}

/// For a column that starts at zero, the compacted series holds at most two
/// points more than the number of rows that differ from their predecessor.
pub proof fn lemma_change_point_bound(times: Seq<Timestamp>, vals: Seq<u32>, now: Timestamp)
    requires
        times.len() == vals.len(),
        vals.len() > 0,
        vals[0] == 0,
    ensures
        spec_compact_column(times, vals, now).len() <= 2 + spec_change_count(vals, 1),
{
    lemma_count_leading_zeros(times, vals, 1);
}

/// The bound for any column, counting a virtual zero row before the first:
/// a column that starts nonzero already changes at its first row.
pub proof fn lemma_change_point_bound_general(
    times: Seq<Timestamp>,
    vals: Seq<u32>,
    now: Timestamp,
)
    requires
        times.len() == vals.len(),
        vals.len() > 0,
    ensures
        spec_compact_column(times, vals, now).len() <= 2 + (if vals[0] != 0 {
            1int
        } else {
            0int
        }) + spec_change_count(vals, 1),
{
    if vals[0] == 0 {
        lemma_count_leading_zeros(times, vals, 1);
    } else {
        lemma_count_tracking(times, vals, 1);
    }
}

} // verus!
