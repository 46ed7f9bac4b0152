//! Picking, in each timeframe's series, the candle in force at a timestamp.

use vstd::prelude::*;
use crate::timeframe::TimeFrame;

verus! {

/// Position of the last timestamp at or before `t`, if any.
pub open spec fn latest_at_or_before(ts: Seq<i64>, t: int) -> Option<usize>
    decreases ts.len(),
{
    if ts.len() == 0 {
        None
    } else if ts.last() <= t {
        Some((ts.len() - 1) as usize)
    } else {
        latest_at_or_before(ts.drop_last(), t)
    }
}

/// For each timeframe series in order, the timeframe and the position of its
/// candle in force at `t`; series with no such candle are left out.
pub open spec fn synced_positions(data: Seq<(TimeFrame, Seq<i64>)>, t: int) -> Seq<(TimeFrame, usize)>
    decreases data.len(),
{
    if data.len() == 0 {
        Seq::empty()
    } else {
        let earlier = synced_positions(data.drop_last(), t);
        match latest_at_or_before(data.last().1, t) {
            Some(j) => earlier.push((data.last().0, j)),
            None => earlier,
        }
    }
}

/// The timestamps of each series of `data`, pair by pair.
pub open spec fn series_view(data: Seq<(TimeFrame, Vec<i64>)>) -> Seq<(TimeFrame, Seq<i64>)> {
    data.map_values(|p: (TimeFrame, Vec<i64>)| (p.0, p.1@))
}

/// What the found position means: its timestamp is at or before `t`, and every
/// later timestamp is after `t`; there is none only when all are after `t`.
pub proof fn lemma_latest_is_last_not_after(ts: Seq<i64>, t: int)
    requires
        ts.len() <= usize::MAX,
    ensures
        match latest_at_or_before(ts, t) {
            Some(j) => j < ts.len() && ts[j as int] <= t && forall|k: int| j < k < ts.len() ==> ts[k] > t,
            None => forall|k: int| 0 <= k < ts.len() ==> ts[k] > t,
        },
    decreases ts.len(),
{
    if ts.len() > 0 {
        let rest = ts.drop_last();
        lemma_latest_is_last_not_after(rest, t);
        assert(forall|k: int| 0 <= k < rest.len() ==> rest[k] == ts[k]);
        if ts.last() > t {
            match latest_at_or_before(rest, t) {
                Some(j) => {
                    assert forall|k: int| j < k < ts.len() implies ts[k] > t by {
                        if k < rest.len() {
                            assert(rest[k] > t);
                        }
                    }
                },
                None => {
                    assert forall|k: int| 0 <= k < ts.len() implies ts[k] > t by {
                        if k < rest.len() {
                            assert(rest[k] > t);
                        }
                    }
                },
            }
        }
    }
}

/// Whether no two series of `data` share a timeframe.
pub open spec fn distinct_timeframes(data: Seq<(TimeFrame, Seq<i64>)>) -> bool {
    forall|i: int, j: int| 0 <= i < j < data.len() ==> #[trigger] data[i].0 != #[trigger] data[j].0
}

/// Whether some timestamp of `ts` is at or before `t`.
pub open spec fn has_candle_by(ts: Seq<i64>, t: int) -> bool {
    exists|j: int| 0 <= j < ts.len() && #[trigger] ts[j] <= t
}

/// Whether `j` is the last position of `ts` whose timestamp is at or before `t`.
pub open spec fn is_last_by(ts: Seq<i64>, t: int, j: int) -> bool {
    &&& 0 <= j < ts.len()
    &&& ts[j] <= t
    &&& forall|k: int| j < k < ts.len() ==> #[trigger] ts[k] > t
}

proof fn lemma_latest_meaning(ts: Seq<i64>, t: int)
    requires
        ts.len() <= usize::MAX,
    ensures
        latest_at_or_before(ts, t) is Some <==> has_candle_by(ts, t),
        latest_at_or_before(ts, t) matches Some(j) ==> is_last_by(ts, t, j as int),
{
    lemma_latest_is_last_not_after(ts, t);
    match latest_at_or_before(ts, t) {
        Some(j) => {
            assert(ts[j as int] <= t);
        },
        None => {},
    }
}

/// When no two series share a timeframe, synchronizing at `t` gives each
/// timeframe whose series has a candle at or before `t`, and no other, paired
/// with the position of the last such candle of its series.
pub proof fn lemma_sync_by_timeframe(data: Seq<(TimeFrame, Seq<i64>)>, t: int)
    requires
        distinct_timeframes(data),
        forall|i: int| 0 <= i < data.len() ==> (#[trigger] data[i]).1.len() <= usize::MAX,
    ensures
        forall|i: int|
            0 <= i < data.len() ==> (has_candle_by((#[trigger] data[i]).1, t) <==> exists|k: int|
                0 <= k < synced_positions(data, t).len() && (#[trigger] synced_positions(data, t)[k]).0
                    == data[i].0),
        forall|k: int, i: int|
            0 <= k < synced_positions(data, t).len() && 0 <= i < data.len()
                && (#[trigger] synced_positions(data, t)[k]).0 == (#[trigger] data[i]).0 ==> is_last_by(
                data[i].1,
                t,
                synced_positions(data, t)[k].1 as int,
            ),
        forall|k: int|
            0 <= k < synced_positions(data, t).len() ==> exists|i: int|
                0 <= i < data.len() && (#[trigger] data[i]).0 == (#[trigger] synced_positions(
                    data,
                    t,
                )[k]).0,
    decreases data.len(),
{
    if data.len() > 0 {
        let rest = data.drop_last();
        let n = data.len() - 1;
        assert forall|i: int, j: int| 0 <= i < j < rest.len() implies #[trigger] rest[i].0
            != #[trigger] rest[j].0 by {
            assert(data[i].0 != data[j].0);
        }
        assert forall|i: int| 0 <= i < rest.len() implies (#[trigger] rest[i]).1.len()
            <= usize::MAX by {
            assert(rest[i] == data[i]);
        }
        lemma_sync_by_timeframe(rest, t);
        lemma_latest_meaning(data[n].1, t);
        let earlier = synced_positions(rest, t);
        let r = synced_positions(data, t);
        assert(data.last() == data[n]);
        // No timeframe of the earlier result is the last series' own.
        assert forall|k: int| 0 <= k < earlier.len() implies (#[trigger] earlier[k]).0 != data[n].0 by {
            let i = choose|i: int| 0 <= i < rest.len() && (#[trigger] rest[i]).0 == earlier[k].0;
            assert(rest[i] == data[i]);
            assert(data[i].0 != data[n].0);
        }
        assert forall|k: int| 0 <= k < earlier.len() implies #[trigger] r[k] == earlier[k] by {}
        assert forall|i: int|
            0 <= i < data.len() implies (has_candle_by((#[trigger] data[i]).1, t) <==> exists|k: int|
                0 <= k < r.len() && (#[trigger] r[k]).0 == data[i].0) by {
            if i < n {
                assert(rest[i] == data[i]);
                assert(data[i].0 != data[n].0);
                if has_candle_by(data[i].1, t) {
                    let k = choose|k: int| 0 <= k < earlier.len() && (#[trigger] earlier[k]).0 == rest[i].0;
                    assert(r[k] == earlier[k]);
                }
                if exists|k: int| 0 <= k < r.len() && (#[trigger] r[k]).0 == data[i].0 {
                    let k = choose|k: int| 0 <= k < r.len() && (#[trigger] r[k]).0 == data[i].0;
                    if k < earlier.len() {
                        assert(r[k] == earlier[k]);
                    }
                }
            } else {
                if has_candle_by(data[i].1, t) {
                    assert(r[earlier.len() as int].0 == data[n].0);
                }
                if exists|k: int| 0 <= k < r.len() && (#[trigger] r[k]).0 == data[i].0 {
                    let k = choose|k: int| 0 <= k < r.len() && (#[trigger] r[k]).0 == data[i].0;
                    if k < earlier.len() {
                        assert(r[k] == earlier[k]);
                    }
                }
            }
        }
        assert forall|k: int, i: int|
            0 <= k < r.len() && 0 <= i < data.len() && (#[trigger] r[k]).0 == (#[trigger] data[i]).0
                implies is_last_by(data[i].1, t, r[k].1 as int) by {
            if k < earlier.len() {
                assert(r[k] == earlier[k]);
                if i == n {
                    assert(false);
                }
                assert(rest[i] == data[i]);
            } else {
                if i < n {
                    assert(data[i].0 != data[n].0);
                }
            }
        }
        assert forall|k: int| 0 <= k < r.len() implies exists|i: int|
            0 <= i < data.len() && (#[trigger] data[i]).0 == (#[trigger] r[k]).0 by {
            if k < earlier.len() {
                assert(r[k] == earlier[k]);
                let i = choose|i: int| 0 <= i < rest.len() && (#[trigger] rest[i]).0 == earlier[k].0;
                assert(rest[i] == data[i]);
            } else {
                assert(data[n].0 == r[k].0);
            }
        }
    }
}

/// Synchronizes candle series of several timeframes.
pub struct TimeframeSynchronizer;

impl TimeframeSynchronizer {
    /// Position of the candle at or immediately before `timestamp`: the last
    /// one, scanning from the end, whose timestamp is not after it.
    pub fn find_candle_at_timestamp(timestamps: &[i64], timestamp: i64) -> (r: Option<usize>)
        ensures
            r == latest_at_or_before(timestamps@, timestamp as int),
    {
        let mut i: usize = timestamps.len();
        proof {
            assert(timestamps@.take(i as int) =~= timestamps@);
        }
        while i > 0
            invariant
                i <= timestamps@.len(),
                latest_at_or_before(timestamps@, timestamp as int)
                    == latest_at_or_before(timestamps@.take(i as int), timestamp as int),
            decreases i,
        {
            proof {
                assert(timestamps@.take(i as int).drop_last() =~= timestamps@.take(i - 1));
            }
            if timestamps[i - 1] <= timestamp {
                return Some(i - 1);
            }
            i = i - 1;
        }
        proof {
            assert(timestamps@.take(0) =~= Seq::<i64>::empty());
        }
        None
    }

    /// For each series, in the given order, its timeframe and the position of
    /// its candle in force at `timestamp`; series with none are skipped.
    pub fn sync_timeframes(data: &Vec<(TimeFrame, Vec<i64>)>, timestamp: i64) -> (r: Vec<(TimeFrame, usize)>)
        ensures
            r@ == synced_positions(series_view(data@), timestamp as int),
    {
        let mut synced: Vec<(TimeFrame, usize)> = Vec::new();
        let mut i: usize = 0;
        while i < data.len()
            invariant
                i <= data@.len(),
                synced@ == synced_positions(series_view(data@.take(i as int)), timestamp as int),
            decreases data@.len() - i,
        {
            proof {
                assert(series_view(data@.take(i as int + 1)).drop_last() =~= series_view(data@.take(i as int)));
            }
            let (tf, ref candles) = data[i];
            match Self::find_candle_at_timestamp(candles.as_slice(), timestamp) {
                Some(j) => synced.push((tf, j)),
                None => {},
            }
            i = i + 1;
        }
        proof {
            assert(data@.take(i as int) =~= data@);
        }
        synced
    }

    /// Every pair of timeframes can be synchronized.
    pub fn are_timeframes_compatible(tf1: TimeFrame, tf2: TimeFrame) -> (r: bool)
        ensures
            r,
    {
        true
    }
}

} // verus!
