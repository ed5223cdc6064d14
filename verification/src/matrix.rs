//! The timestamp-ordered count matrix that the compactor walks, and the
//! optional normalization denominators.
//!
//! A timestamp is signed whole seconds since the epoch plus a non-negative
//! sub-second nanosecond component, so an instant before the epoch is
//! representable and the synthetic lead-in point can always move strictly
//! earlier. The matrix pairs strictly increasing timestamps with
//! fixed-width rows of non-negative counts, one column per tracked label.
//! Denominators are the external total function evaluated at each row's
//! timestamp and at the render instant.

use vstd::prelude::*;

verus! {

/// The largest whole-second value a well-formed timestamp may carry.
pub const MAX_SECS: i64 = 0xffff_ffff_ffff;

/// The smallest: one below the negated maximum, so that the synthetic
/// lead-in of a well-formed timestamp is itself renderable.
pub const MIN_SECS: i64 = -0x1_0000_0000_0000;

pub const NANOS_PER_SEC: u32 = 1_000_000_000;

/// An instant: signed whole seconds since the epoch plus nanoseconds
/// within the second (a half second before the epoch is `secs == -1`,
/// `nanos == 500_000_000`).
#[derive(Clone, Copy, Debug, PartialEq, Eq, Structural)]
pub struct Timestamp {
    pub secs: i64,
    pub nanos: u32,
}

impl Timestamp {
    pub open spec fn wf(self) -> bool {
        self.nanos < NANOS_PER_SEC && MIN_SECS < self.secs <= MAX_SECS
    }

    /// Loose enough to cover every well-formed timestamp and the synthetic
    /// lead-in of any of them; tight enough that milliseconds fit in `i64`.
    pub open spec fn renderable(self) -> bool {
        self.nanos < NANOS_PER_SEC && MIN_SECS <= self.secs <= MAX_SECS
    }

    /// Strict order: by seconds, then by the sub-second component.
    pub open spec fn spec_lt(self, other: Timestamp) -> bool {
        self.secs < other.secs || (self.secs == other.secs && self.nanos < other.nanos)
    }

    /// Non-strict order.
    pub open spec fn spec_le(self, other: Timestamp) -> bool {
        self.spec_lt(other) || self == other
    }

    pub fn lt(&self, other: &Timestamp) -> (r: bool)
        ensures
            r == self.spec_lt(*other),
    {
        self.secs < other.secs || (self.secs == other.secs && self.nanos < other.nanos)
    }

    /// The instant in whole milliseconds since the epoch, rounded toward
    /// the past (the sub-second component never counts negatively).
    pub open spec fn spec_millis(self) -> i64
        recommends
            self.renderable(),
    {
        (self.secs * 1000 + self.nanos / 1_000_000) as i64
    }

    pub fn millis(&self) -> (r: i64)
        requires
            self.renderable(),
        ensures
            r == self.spec_millis(),
    {
        self.secs * 1000 + (self.nanos / 1_000_000) as i64
    }

    /// Where the synthetic zero point before a series' first rise sits:
    /// one whole second earlier when the rise falls exactly on a second
    /// boundary, and at the start of the same second otherwise. Either way
    /// it lies strictly before the rise, so the step edge never collides
    /// with the real point.
    pub open spec fn spec_lead(self) -> Timestamp {
        if self.nanos == 0 {
            Timestamp { secs: (self.secs - 1) as i64, nanos: 0 }
        } else {
            Timestamp { secs: self.secs, nanos: 0 }
        }
    }

    pub fn lead(&self) -> (r: Timestamp)
        requires
            self.secs > i64::MIN,
        ensures
            r == self.spec_lead(),
            self.wf() ==> r.renderable(),
            r.spec_lt(*self),
    {
        if self.nanos == 0 {
            Timestamp { secs: self.secs - 1, nanos: 0 }
        } else {
            Timestamp { secs: self.secs, nanos: 0 }
        }
    }
}

/// An ordered snapshot of per-timestamp counts: `times[j]` is the instant
/// of row `j`, and `rows[j]` holds one non-negative count per column.
pub struct Matrix {
    pub times: Vec<Timestamp>,
    pub rows: Vec<Vec<u32>>,
    pub width: usize,
}

impl Matrix {
    /// Every row has the fixed width, every timestamp is well formed, and
    /// the timestamps strictly increase.
    pub open spec fn wf(&self) -> bool {
        &&& self.times@.len() == self.rows@.len()
        &&& forall|j: int|
            0 <= j < self.rows@.len() ==> (#[trigger] self.rows@[j])@.len() == self.width
        &&& forall|j: int| 0 <= j < self.times@.len() ==> (#[trigger] self.times@[j]).wf()
        &&& forall|j: int, l: int|
            0 <= j < l < self.times@.len() ==> (#[trigger] self.times@[j]).spec_lt(
                #[trigger] self.times@[l],
            )
    }

    /// One column of the matrix, in row order.
    pub open spec fn spec_column(&self, i: int) -> Seq<u32> {
        Seq::new(self.rows@.len(), |j: int| self.rows@[j]@[i])
    }

    /// An empty matrix of the given width.
    pub fn new(width: usize) -> (r: Matrix)
        ensures
            r.wf(),
            r.width == width,
            r.times@.len() == 0,
    {
        Matrix { times: Vec::new(), rows: Vec::new(), width }
    }

    /// Append one row at an instant strictly after every earlier one.
    pub fn push_row(&mut self, time: Timestamp, row: Vec<u32>)
        requires
            old(self).wf(),
            time.wf(),
            row@.len() == old(self).width,
            forall|j: int|
                0 <= j < old(self).times@.len() ==> (#[trigger] old(self).times@[j]).spec_lt(time),
        ensures
            final(self).wf(),
            final(self).width == old(self).width,
            final(self).times@ == old(self).times@.push(time),
            final(self).rows@ == old(self).rows@.push(row),
    {
        self.times.push(time);
        self.rows.push(row);
    }
}

/// The normalization denominators: the external total function evaluated at
/// each row's timestamp, and at the render instant.
pub struct Totals {
    pub per_row: Vec<u32>,
    pub at_now: u32,
}

impl Totals {
    /// One denominator per matrix row.
    pub open spec fn matches(&self, m: &Matrix) -> bool {
        self.per_row@.len() == m.rows@.len()
    }
}

} // verus!
