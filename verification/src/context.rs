//! Candle series of several timeframes, read together by a strategy.

use vstd::prelude::*;
use crate::timeframe::{TimeFrame, rank, all_timeframes};
use crate::cache::{Stamped, slot_of, lemma_rank_injective};
use crate::synchronizer::latest_at_or_before;

verus! {

/// The timestamps of a series, in order.
pub open spec fn stamps<T>(s: Seq<Stamped<T>>) -> Seq<i64> {
    s.map_values(|c: Stamped<T>| c.timestamp)
}

/// The candles of `s` whose timestamp is not after `t`, in order.
pub open spec fn not_after<T>(s: Seq<Stamped<T>>, t: int) -> Seq<Stamped<T>>
    decreases s.len(),
{
    if s.len() == 0 {
        s
    } else if s.last().timestamp <= t {
        not_after(s.drop_last(), t).push(s.last())
    } else {
        not_after(s.drop_last(), t)
    }
}

/// The last `n` candles of `s`, newest first.
pub open spec fn newest_first<T>(s: Seq<Stamped<T>>, n: nat) -> Seq<Stamped<T>> {
    let k = if n < s.len() { n as int } else { s.len() as int };
    Seq::new(k as nat, |i: int| s[s.len() - 1 - i])
}

/// The candles of one timeframe.
pub struct TimeframeData<T> {
    pub timeframe: TimeFrame,
    pub candles: Vec<Stamped<T>>,
}

impl<T> TimeframeData<T> {
    pub fn new(timeframe: TimeFrame, candles: Vec<Stamped<T>>) -> (r: Self)
        ensures
            r.timeframe == timeframe,
            r.candles@ == candles@,
    {
        TimeframeData { timeframe, candles }
    }

    /// The last `lookback` candles, newest first (all of them when there are fewer).
    pub fn recent(&self, lookback: usize) -> (r: Vec<&Stamped<T>>)
        ensures
            r@.len() == newest_first(self.candles@, lookback as nat).len(),
            forall|i: int| 0 <= i < r@.len() ==> *#[trigger] r@[i] == newest_first(self.candles@, lookback as nat)[i],
    {
        let n = self.candles.len();
        let mut out: Vec<&Stamped<T>> = Vec::new();
        let mut i: usize = 0;
        while i < n && i < lookback
            invariant
                n == self.candles@.len(),
                i <= n,
                i <= lookback,
                out@.len() == i,
                forall|j: int| 0 <= j < i ==> *#[trigger] out@[j] == self.candles@[n - 1 - j],
            decreases n - i,
        {
            out.push(&self.candles[n - 1 - i]);
            i = i + 1;
        }
        proof {
            let want = newest_first(self.candles@, lookback as nat);
            assert(want.len() == i);
            assert forall|j: int| 0 <= j < out@.len() implies *#[trigger] out@[j] == want[j] by {
                assert(want[j] == self.candles@[n - 1 - j]);
            }
        }
        out
    }

    /// The candle at or immediately before `timestamp`.
    pub fn candle_at_timestamp(&self, timestamp: i64) -> (r: Option<&Stamped<T>>)
        ensures
            r is Some <==> latest_at_or_before(stamps(self.candles@), timestamp as int) is Some,
            r matches Some(c) ==> *c == self.candles@[latest_at_or_before(
                stamps(self.candles@),
                timestamp as int,
            )->0 as int],
    {
        let ghost ts = stamps(self.candles@);
        let mut i: usize = self.candles.len();
        proof {
            assert(ts.take(i as int) =~= ts);
        }
        while i > 0
            invariant
                i <= self.candles@.len(),
                ts == stamps(self.candles@),
                latest_at_or_before(ts, timestamp as int) == latest_at_or_before(ts.take(i as int), timestamp as int),
            decreases i,
        {
            proof {
                assert(ts.take(i as int).drop_last() =~= ts.take(i - 1));
            }
            if self.candles[i - 1].timestamp <= timestamp {
                return Some(&self.candles[i - 1]);
            }
            i = i - 1;
        }
        proof {
            assert(ts.take(0) =~= Seq::<i64>::empty());
        }
        None
    }

    pub fn len(&self) -> (r: usize)
        ensures
            r == self.candles@.len(),
    {
        self.candles.len()
    }

    pub fn is_empty(&self) -> (r: bool)
        ensures
            r == (self.candles@.len() == 0),
    {
        self.candles.len() == 0
    }
}

fn retain_not_after<T>(candles: &mut Vec<Stamped<T>>, timestamp: i64)
    ensures
        final(candles)@ == not_after(old(candles)@, timestamp as int),
{
    let ghost orig = candles@;
    let mut pending: Vec<Stamped<T>> = Vec::new();
    std::mem::swap(&mut pending, candles);
    let n = pending.len();
    let mut reversed: Vec<Stamped<T>> = Vec::new();
    while pending.len() > 0
        invariant
            pending@ == orig.take(pending@.len() as int),
            reversed@.len() + pending@.len() == orig.len(),
            n == orig.len(),
            forall|j: int| 0 <= j < reversed@.len() ==> #[trigger] reversed@[j] == orig[orig.len() - 1 - j],
        decreases pending@.len(),
    {
        let x = pending.pop().unwrap();
        reversed.push(x);
    }
    let mut kept: Vec<Stamped<T>> = Vec::new();
    while reversed.len() > 0
        invariant
            reversed@.len() <= n,
            n == orig.len(),
            forall|j: int| 0 <= j < reversed@.len() ==> #[trigger] reversed@[j] == orig[n - 1 - j],
            kept@ == not_after(orig.take(n - reversed@.len()), timestamp as int),
        decreases reversed@.len(),
    {
        let ghost k = n - reversed@.len();
        let x = reversed.pop().unwrap();
        proof {
            assert(x == orig[k]);
            assert(orig.take(k + 1).drop_last() =~= orig.take(k));
        }
        if x.timestamp <= timestamp {
            kept.push(x);
        }
    }
    proof {
        assert(orig.take(n as int) =~= orig);
    }
    *candles = kept;
}

/// Candle series of several timeframes, one of them primary.
pub struct MultiTimeframeContext<T> {
    slots: Vec<Option<TimeframeData<T>>>,
    primary_timeframe: TimeFrame,
}

impl<T> MultiTimeframeContext<T> {
    /// The context's storage is laid out as expected.
    pub closed spec fn wf(&self) -> bool {
        &&& self.slots@.len() == 9
        &&& forall|tf: TimeFrame|
            #[trigger] self.slots@[rank(tf) as int] is Some ==> self.slots@[rank(tf) as int]->0.timeframe == tf
    }

    /// The primary timeframe.
    pub closed spec fn primary_tf(&self) -> TimeFrame {
        self.primary_timeframe
    }

    /// The candles held for a timeframe, if any.
    pub closed spec fn series(&self, tf: TimeFrame) -> Option<Seq<Stamped<T>>> {
        match self.slots@[rank(tf) as int] {
            Some(d) => Some(d.candles@),
            None => None,
        }
    }

    /// The timeframes of `tfs` that hold candles, in the order of `tfs`.
    pub open spec fn present_in(&self, tfs: Seq<TimeFrame>) -> Seq<TimeFrame>
        decreases tfs.len(),
    {
        if tfs.len() == 0 {
            Seq::empty()
        } else if self.series(tfs.last()) is Some {
            self.present_in(tfs.drop_last()).push(tfs.last())
        } else {
            self.present_in(tfs.drop_last())
        }
    }

    /// For the timeframes of `tfs` in order, each one with a candle at or
    /// before `t` and the position of that candle.
    pub open spec fn synced_in(&self, tfs: Seq<TimeFrame>, t: int) -> Seq<(TimeFrame, usize)>
        decreases tfs.len(),
    {
        if tfs.len() == 0 {
            Seq::empty()
        } else {
            let earlier = self.synced_in(tfs.drop_last(), t);
            match self.series(tfs.last()) {
                Some(s) => match latest_at_or_before(stamps(s), t) {
                    Some(j) => earlier.push((tfs.last(), j)),
                    None => earlier,
                },
                None => earlier,
            }
        }
    }

    /// An empty context.
    pub fn new(primary_timeframe: TimeFrame) -> (r: Self)
        ensures
            r.wf(),
            r.primary_tf() == primary_timeframe,
            forall|tf: TimeFrame| r.series(tf) is None,
    {
        let mut slots: Vec<Option<TimeframeData<T>>> = Vec::new();
        let mut i: usize = 0;
        while i < 9
            invariant
                i <= 9,
                slots@.len() == i,
                forall|k: int| 0 <= k < i ==> slots@[k] is None,
            decreases 9 - i,
        {
            slots.push(None);
            i = i + 1;
        }
        proof {
            assert forall|tf: TimeFrame| #[trigger] slots@[rank(tf) as int] is None by {
                assert(rank(tf) < 9);
            }
        }
        MultiTimeframeContext { slots, primary_timeframe }
    }

    /// Holds `candles` for `timeframe`, in place of what it held.
    pub fn add_timeframe(&mut self, timeframe: TimeFrame, candles: Vec<Stamped<T>>)
        requires
            old(self).wf(),
        ensures
            final(self).wf(),
            final(self).primary_tf() == old(self).primary_tf(),
            final(self).series(timeframe) == Some(candles@),
            forall|tf: TimeFrame| tf != timeframe ==> final(self).series(tf) == old(self).series(tf),
    {
        let i = slot_of(timeframe);
        self.slots.set(i, Some(TimeframeData::new(timeframe, candles)));
        proof {
            assert forall|tf: TimeFrame| #[trigger] self.slots@[rank(tf) as int] is Some implies self.slots@[rank(tf) as int]->0.timeframe == tf by {
                lemma_rank_injective(tf, timeframe);
            }
            assert forall|tf: TimeFrame| tf != timeframe implies self.series(tf) == old(self).series(tf) by {
                lemma_rank_injective(tf, timeframe);
            }
        }
    }

    /// The data of a timeframe.
    pub fn get(&self, timeframe: &TimeFrame) -> (r: Option<&TimeframeData<T>>)
        requires
            self.wf(),
        ensures
            match r {
                Some(d) => self.series(*timeframe) == Some(d.candles@) && d.timeframe == *timeframe,
                None => self.series(*timeframe) is None,
            },
    {
        let i = slot_of(*timeframe);
        match &self.slots[i] {
            Some(d) => Some(d),
            None => None,
        }
    }

    /// The data of the primary timeframe.
    pub fn primary(&self) -> (r: Option<&TimeframeData<T>>)
        requires
            self.wf(),
        ensures
            match r {
                Some(d) => self.series(self.primary_tf()) == Some(d.candles@) && d.timeframe == self.primary_tf(),
                None => self.series(self.primary_tf()) is None,
            },
    {
        self.get(&self.primary_timeframe)
    }

    /// The timeframes that hold candles, from the shortest to the longest.
    pub fn timeframes(&self) -> (r: Vec<TimeFrame>)
        requires
            self.wf(),
        ensures
            r@ == self.present_in(all_timeframes()),
    {
        let all = TimeFrame::all();
        let mut out: Vec<TimeFrame> = Vec::new();
        let mut i: usize = 0;
        while i < all.len()
            invariant
                i <= all@.len(),
                all@ == all_timeframes(),
                self.wf(),
                out@ == self.present_in(all@.take(i as int)),
            decreases all@.len() - i,
        {
            proof {
                assert(all@.take(i as int + 1).drop_last() =~= all@.take(i as int));
            }
            let tf = all[i];
            if self.get(&tf).is_some() {
                out.push(tf);
            }
            i = i + 1;
        }
        proof {
            assert(all@.take(i as int) =~= all@);
        }
        out
    }

    /// Drops, in every series, the candles after `timestamp`.
    pub fn sync_to_timestamp(&mut self, timestamp: i64)
        requires
            old(self).wf(),
        ensures
            final(self).wf(),
            final(self).primary_tf() == old(self).primary_tf(),
            forall|tf: TimeFrame|
                #[trigger] final(self).series(tf) == match old(self).series(tf) {
                    Some(s) => Some(not_after(s, timestamp as int)),
                    None => None,
                },
    {
        let mut i: usize = 0;
        while i < 9
            invariant
                i <= 9,
                self.slots@.len() == 9,
                self.primary_timeframe == old(self).primary_timeframe,
                forall|k: int|
                    0 <= k < 9 ==> (#[trigger] self.slots@[k] is Some <==> old(self).slots@[k] is Some),
                forall|k: int|
                    0 <= k < 9 && #[trigger] self.slots@[k] is Some ==> self.slots@[k]->0.timeframe
                        == old(self).slots@[k]->0.timeframe,
                forall|k: int|
                    0 <= k < 9 && #[trigger] self.slots@[k] is Some ==> self.slots@[k]->0.candles@ == if k < i {
                        not_after(old(self).slots@[k]->0.candles@, timestamp as int)
                    } else {
                        old(self).slots@[k]->0.candles@
                    },
                old(self).wf(),
            decreases 9 - i,
        {
            let slot = self.slots.remove(i);
            match slot {
                Some(d) => {
                    let mut data = d;
                    retain_not_after(&mut data.candles, timestamp);
                    self.slots.insert(i, Some(data));
                },
                None => {
                    self.slots.insert(i, None);
                },
            }
            i = i + 1;
        }
        proof {
            assert forall|tf: TimeFrame| #[trigger] self.slots@[rank(tf) as int] is Some implies self.slots@[rank(tf) as int]->0.timeframe == tf by {
                assert(old(self).slots@[rank(tf) as int] is Some);
            }
            assert forall|tf: TimeFrame|
                #[trigger] self.series(tf) == match old(self).series(tf) {
                    Some(s) => Some(not_after(s, timestamp as int)),
                    None => None,
                } by {
                assert(rank(tf) < 9);
            }
        }
    }

    /// For each timeframe, from the shortest to the longest, that has a candle
    /// at or before `timestamp`: the timeframe and that candle's position.
    pub fn get_sync_data(&self, timestamp: i64) -> (r: Vec<(TimeFrame, usize)>)
        requires
            self.wf(),
        ensures
            r@ == self.synced_in(all_timeframes(), timestamp as int),
    {
        let all = TimeFrame::all();
        let mut out: Vec<(TimeFrame, usize)> = Vec::new();
        let mut i: usize = 0;
        while i < all.len()
            invariant
                i <= all@.len(),
                all@ == all_timeframes(),
                self.wf(),
                out@ == self.synced_in(all@.take(i as int), timestamp as int),
            decreases all@.len() - i,
        {
            proof {
                assert(all@.take(i as int + 1).drop_last() =~= all@.take(i as int));
            }
            let tf = all[i];
            match self.get(&tf) {
                Some(d) => {
                    let found = crate::context::position_at_or_before(&d.candles, timestamp);
                    match found {
                        Some(j) => out.push((tf, j)),
                        None => {},
                    }
                },
                None => {},
            }
            i = i + 1;
        }
        proof {
            assert(all@.take(i as int) =~= all@);
        }
        out
    }
}

/// Position of the last candle whose timestamp is not after `timestamp`.
fn position_at_or_before<T>(candles: &Vec<Stamped<T>>, timestamp: i64) -> (r: Option<usize>)
    ensures
        r == latest_at_or_before(stamps(candles@), timestamp as int),
{
    let ghost ts = stamps(candles@);
    let mut i: usize = candles.len();
    proof {
        assert(ts.take(i as int) =~= ts);
    }
    while i > 0
        invariant
            i <= candles@.len(),
            ts == stamps(candles@),
            latest_at_or_before(ts, timestamp as int) == latest_at_or_before(ts.take(i as int), timestamp as int),
        decreases i,
    {
        proof {
            assert(ts.take(i as int).drop_last() =~= ts.take(i - 1));
        }
        if candles[i - 1].timestamp <= timestamp {
            return Some(i - 1);
        }
        i = i - 1;
    }
    proof {
        assert(ts.take(0) =~= Seq::<i64>::empty());
    }
    None
}

/// After synchronizing to `t`, no series holds a candle after `t`, and every
/// candle not after `t` is kept, in order.
pub proof fn lemma_not_after_exact<T>(s: Seq<Stamped<T>>, t: int)
    ensures
        forall|k: int| 0 <= k < not_after(s, t).len() ==> #[trigger] not_after(s, t)[k].timestamp <= t,
        not_after(s, t).len() <= s.len(),
        (forall|k: int| 0 <= k < s.len() ==> #[trigger] s[k].timestamp <= t) ==> not_after(s, t) == s,
    decreases s.len(),
{
    if s.len() > 0 {
        let rest = s.drop_last();
        lemma_not_after_exact(rest, t);
        if forall|k: int| 0 <= k < s.len() ==> #[trigger] s[k].timestamp <= t {
            assert forall|k: int| 0 <= k < rest.len() implies #[trigger] rest[k].timestamp <= t by {
                assert(rest[k] == s[k]);
            }
            assert(rest.push(s.last()) =~= s);
        }
    }
}

} // verus!
