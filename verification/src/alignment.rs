//! Alignment of millisecond timestamps to timeframe boundaries.

use vstd::prelude::*;
use crate::timeframe::{TimeFrame, millis};

verus! {

/// Integer division rounding toward zero, as Rust's `/` on signed integers does.
pub open spec fn trunc_div(a: int, b: int) -> int {
    if a >= 0 {
        a / b
    } else {
        -((-a) / b)
    }
}

/// The boundary that `align_timestamp` gives: the timestamp divided by the
/// timeframe's duration, rounded toward zero, times that duration.
pub open spec fn aligned_to(ts: int, tf: TimeFrame) -> int {
    trunc_div(ts, millis(tf)) * millis(tf)
}

/// A timestamp lies on a boundary of the timeframe.
pub open spec fn on_boundary(ts: int, tf: TimeFrame) -> bool {
    aligned_to(ts, tf) == ts
}

/// Number of boundaries listed between the aligned start and `end`.
pub open spec fn boundary_count(start: int, end: int, tf: TimeFrame) -> int {
    let first = aligned_to(start, tf);
    if first > end {
        0
    } else {
        (end - first) / millis(tf) + 1
    }
}

/// Positions of the timestamps that lie on a boundary, in order.
pub open spec fn aligned_positions(ts: Seq<i64>, tf: TimeFrame) -> Seq<usize>
    decreases ts.len(),
{
    if ts.len() == 0 {
        Seq::empty()
    } else {
        let earlier = aligned_positions(ts.drop_last(), tf);
        if on_boundary(ts.last() as int, tf) {
            earlier.push((ts.len() - 1) as usize)
        } else {
            earlier
        }
    }
}

proof fn lemma_millis_positive(tf: TimeFrame)
    ensures
        60_000 <= millis(tf) <= 2_592_000_000,
{
}

/// What a boundary is: for a non-negative timestamp the aligned value is the
/// largest multiple of the duration not above it, and aligning twice changes
/// nothing.
pub proof fn lemma_aligned_floor(ts: int, tf: TimeFrame)
    requires
        ts >= 0,
    ensures
        0 <= aligned_to(ts, tf) <= ts,
        ts < aligned_to(ts, tf) + millis(tf),
        aligned_to(ts, tf) % millis(tf) == 0,
        aligned_to(aligned_to(ts, tf), tf) == aligned_to(ts, tf),
        on_boundary(ts, tf) <==> ts % millis(tf) == 0,
{
    let m = millis(tf);
    lemma_millis_positive(tf);
    let q = ts / m;
    assert(ts == q * m + ts % m) by (nonlinear_arith)
        requires m > 0, q == ts / m;
    assert(0 <= ts % m < m) by (nonlinear_arith)
        requires m > 0;
    assert(q >= 0) by (nonlinear_arith)
        requires m > 0, ts >= 0, q == ts / m;
    assert(q * m >= 0) by (nonlinear_arith)
        requires q >= 0, m > 0;
    assert((q * m) % m == 0 && (q * m) / m == q) by (nonlinear_arith)
        requires m > 0, q >= 0;
}

/// Aligning is idempotent for every timestamp, negative ones included.
pub proof fn lemma_align_idempotent(ts: int, tf: TimeFrame)
    ensures
        aligned_to(aligned_to(ts, tf), tf) == aligned_to(ts, tf),
{
    let m = millis(tf);
    lemma_millis_positive(tf);
    if ts >= 0 {
        lemma_aligned_floor(ts, tf);
    } else {
        let q = (-ts) / m;
        assert(q >= 0) by (nonlinear_arith)
            requires m > 0, -ts > 0, q == (-ts) / m;
        assert((q * m) / m == q) by (nonlinear_arith)
            requires m > 0, q >= 0;
        assert(-(-q * m) == q * m);
        if q == 0 {
            assert(aligned_to(ts, tf) == 0);
        } else {
            assert(q * m > 0) by (nonlinear_arith)
                requires q > 0, m > 0;
            assert(aligned_to(ts, tf) == -(q * m));
            assert(aligned_to(aligned_to(ts, tf), tf) == -(((q * m) / m) * m));
        }
    }
}

/// Boundaries around a non-negative timestamp: the next one lies after it,
/// and the previous one lies before it.
pub proof fn lemma_boundaries_enclose(ts: int, tf: TimeFrame)
    requires
        ts >= 0,
    ensures
        ts < aligned_to(ts, tf) + millis(tf),
        (if on_boundary(ts, tf) { aligned_to(ts, tf) - millis(tf) } else { aligned_to(ts, tf) }) < ts,
        (if on_boundary(ts, tf) { aligned_to(ts, tf) - millis(tf) } else { aligned_to(ts, tf) }) + millis(tf) >= ts,
{
    lemma_aligned_floor(ts, tf);
    lemma_millis_positive(tf);
}

/// Aligns timestamps to the boundaries of a timeframe.
pub struct TimeframeAligner;

impl TimeframeAligner {
    /// The timestamp divided by the timeframe's duration (rounded toward zero),
    /// times that duration: 90000 on M1 gives 60000.
    pub fn align_timestamp(timestamp: i64, timeframe: TimeFrame) -> (r: i64)
        ensures
            r == aligned_to(timestamp as int, timeframe),
    {
        let interval_ms = timeframe.to_millis();
        proof {
            lemma_millis_positive(timeframe);
            let m = millis(timeframe);
            let t = timestamp as int;
            if t >= 0 {
                assert(0 <= (t / m) * m <= t) by (nonlinear_arith)
                    requires t >= 0, m > 0;
            } else {
                assert(0 <= ((-t) / m) * m <= -t) by (nonlinear_arith)
                    requires -t > 0, m > 0;
            }
        }
        (timestamp / interval_ms) * interval_ms
    }

    /// The boundaries from the aligned `start` up to `end` included, one
    /// duration apart.
    pub fn create_aligned_timestamps(start: i64, end: i64, timeframe: TimeFrame) -> (r: Vec<i64>)
        requires
            end + millis(timeframe) <= i64::MAX,
        ensures
            r@.len() == boundary_count(start as int, end as int, timeframe),
            forall|i: int|
                0 <= i < r@.len() ==> #[trigger] r@[i] == aligned_to(start as int, timeframe) + i * millis(timeframe),
    {
        let interval_ms = timeframe.to_millis();
        let aligned_start = Self::align_timestamp(start, timeframe);
        let ghost m = millis(timeframe);
        let ghost first = aligned_start as int;
        proof {
            lemma_millis_positive(timeframe);
        }
        let mut timestamps: Vec<i64> = Vec::new();
        let mut current = aligned_start;
        while current <= end
            invariant
                interval_ms == m,
                m > 0,
                end + m <= i64::MAX,
                first == aligned_start,
                current == first + timestamps@.len() * m,
                first <= end ==> current <= end + m,
                first > end ==> timestamps@.len() == 0,
                forall|i: int| 0 <= i < timestamps@.len() ==> #[trigger] timestamps@[i] == first + i * m,
            decreases end + m - current,
        {
            let ghost k = timestamps@.len();
            timestamps.push(current);
            current = current + interval_ms;
            proof {
                assert(first + (k + 1) * m == first + k * m + m) by (nonlinear_arith);
            }
        }
        proof {
            let n = timestamps@.len() as int;
            if first <= end {
                assert(n >= 1) by {
                    if n == 0 {
                        assert(current == first);
                    }
                };
                assert(first + (n - 1) * m <= end) by (nonlinear_arith)
                    requires current == first + n * m, first + n * m - m <= end || n == 0, n >= 1, m > 0,
                {
                }
                assert((end - first) / m + 1 == n) by (nonlinear_arith)
                    requires first + n * m > end, first + (n - 1) * m <= end, m > 0, n >= 1, first <= end,
                {
                    let d = end - first;
                    assert(d == (d / m) * m + d % m);
                    assert(0 <= d % m < m);
                    assert((n - 1) * m <= d < n * m);
                    if d / m < n - 1 {
                        assert((d / m) * m <= (n - 2) * m);
                        assert(d < (n - 1) * m);
                    }
                    if d / m > n - 1 {
                        assert((d / m) * m >= n * m);
                    }
                }
            }
        }
        timestamps
    }

    /// True when the timestamp lies on a boundary of the timeframe.
    pub fn is_aligned(timestamp: i64, timeframe: TimeFrame) -> (r: bool)
        ensures
            r == on_boundary(timestamp as int, timeframe),
    {
        let aligned = Self::align_timestamp(timestamp, timeframe);
        timestamp == aligned
    }

    /// Positions, in order, of the timestamps that lie on a boundary; the
    /// others are left out.
    pub fn filter_aligned_candles(timestamps: &[i64], timeframe: TimeFrame) -> (r: Vec<usize>)
        ensures
            r@ == aligned_positions(timestamps@, timeframe),
    {
        let mut out: Vec<usize> = Vec::new();
        let mut i: usize = 0;
        while i < timestamps.len()
            invariant
                i <= timestamps@.len(),
                out@ == aligned_positions(timestamps@.take(i as int), timeframe),
            decreases timestamps@.len() - i,
        {
            proof {
                assert(timestamps@.take(i as int + 1).drop_last() =~= timestamps@.take(i as int));
            }
            if Self::is_aligned(timestamps[i], timeframe) {
                out.push(i);
            }
            i = i + 1;
        }
        proof {
            assert(timestamps@.take(i as int) =~= timestamps@);
        }
        out
    }

    /// The boundary after the aligned timestamp.
    pub fn next_boundary(timestamp: i64, timeframe: TimeFrame) -> (r: i64)
        requires
            aligned_to(timestamp as int, timeframe) + millis(timeframe) <= i64::MAX,
        ensures
            r == aligned_to(timestamp as int, timeframe) + millis(timeframe),
    {
        let interval_ms = timeframe.to_millis();
        let aligned = Self::align_timestamp(timestamp, timeframe);
        aligned + interval_ms
    }

    /// The boundary before the timestamp: one duration back when it lies on a
    /// boundary, else the aligned value.
    pub fn previous_boundary(timestamp: i64, timeframe: TimeFrame) -> (r: i64)
        requires
            aligned_to(timestamp as int, timeframe) - millis(timeframe) >= i64::MIN,
        ensures
            r == (if on_boundary(timestamp as int, timeframe) {
                aligned_to(timestamp as int, timeframe) - millis(timeframe)
            } else {
                aligned_to(timestamp as int, timeframe)
            }),
    {
        let interval_ms = timeframe.to_millis();
        let aligned = Self::align_timestamp(timestamp, timeframe);
        if aligned == timestamp {
            aligned - interval_ms
        } else {
            aligned
        }
    }
}

} // verus!
