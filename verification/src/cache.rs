//! A per-timeframe cache of candle series, each kept in timestamp order and
//! bounded in length.

use vstd::prelude::*;
use crate::timeframe::{TimeFrame, rank, all_timeframes};

verus! {

/// A candle's timestamp, in milliseconds, and the data kept with it.
#[derive(Debug, Clone)]
pub struct Stamped<T> {
    pub timestamp: i64,
    pub value: T,
}

impl<T> Stamped<T> {
    pub fn new(timestamp: i64, value: T) -> (r: Self)
        ensures
            r.timestamp == timestamp,
            r.value == value,
    {
        Stamped { timestamp, value }
    }
}

/// `s` with `x` placed right after the last item whose timestamp is not after
/// `x`'s (at the front when there is none).
pub open spec fn insert_by_time<T>(s: Seq<Stamped<T>>, x: Stamped<T>) -> Seq<Stamped<T>>
    decreases s.len(),
{
    if s.len() == 0 {
        seq![x]
    } else if s.last().timestamp <= x.timestamp {
        s.push(x)
    } else {
        insert_by_time(s.drop_last(), x).push(s.last())
    }
}

/// Stable sort by timestamp: items with equal timestamps keep their order.
pub open spec fn sort_by_time<T>(s: Seq<Stamped<T>>) -> Seq<Stamped<T>>
    decreases s.len(),
{
    if s.len() == 0 {
        s
    } else {
        insert_by_time(sort_by_time(s.drop_last()), s.last())
    }
}

/// `s` without each item whose timestamp equals that of the item kept just
/// before it.
pub open spec fn dedup_by_time<T>(s: Seq<Stamped<T>>) -> Seq<Stamped<T>>
    decreases s.len(),
{
    if s.len() == 0 {
        s
    } else {
        let kept = dedup_by_time(s.drop_last());
        if kept.len() > 0 && kept.last().timestamp == s.last().timestamp {
            kept
        } else {
            kept.push(s.last())
        }
    }
}

/// The last `max` items of `s` when it holds more.
pub open spec fn keep_last<T>(s: Seq<Stamped<T>>, max: nat) -> Seq<Stamped<T>> {
    if s.len() > max {
        s.subrange(s.len() - max, s.len() as int)
    } else {
        s
    }
}

/// Timestamps never decrease along `s`.
pub open spec fn time_ordered<T>(s: Seq<Stamped<T>>) -> bool {
    forall|i: int, j: int| 0 <= i <= j < s.len() ==> s[i].timestamp <= s[j].timestamp
}

/// Timestamps strictly increase along `s`.
pub open spec fn strictly_time_ordered<T>(s: Seq<Stamped<T>>) -> bool {
    forall|i: int, j: int| 0 <= i < j < s.len() ==> s[i].timestamp < s[j].timestamp
}

/// Where `insert_by_time` puts the item: at the position after which every
/// timestamp is later than the item's.
proof fn lemma_insert_by_time_at<T>(s: Seq<Stamped<T>>, x: Stamped<T>, p: int)
    requires
        0 <= p <= s.len(),
        forall|k: int| p <= k < s.len() ==> s[k].timestamp > x.timestamp,
        p == 0 || s[p - 1].timestamp <= x.timestamp,
    ensures
        insert_by_time(s, x) == s.insert(p, x),
    decreases s.len(),
{
    if s.len() == 0 {
        assert(s.insert(p, x) =~= seq![x]);
    } else if p == s.len() {
        assert(s.insert(p, x) =~= s.push(x));
    } else {
        let rest = s.drop_last();
        assert forall|k: int| p <= k < rest.len() implies rest[k].timestamp > x.timestamp by {
            assert(rest[k] == s[k]);
        }
        if p > 0 {
            assert(rest[p - 1] == s[p - 1]);
        }
        lemma_insert_by_time_at(rest, x, p);
        assert(rest.insert(p, x).push(s.last()) =~= s.insert(p, x));
    }
}

/// Inserting into an ordered series keeps it ordered and adds exactly the item.
pub proof fn lemma_insert_by_time_ordered<T>(s: Seq<Stamped<T>>, x: Stamped<T>)
    requires
        time_ordered(s),
    ensures
        time_ordered(insert_by_time(s, x)),
        insert_by_time(s, x).to_multiset() == s.to_multiset().insert(x),
        insert_by_time(s, x).len() == s.len() + 1,
    decreases s.len(),
{
    broadcast use vstd::seq_lib::group_to_multiset_ensures;

    if s.len() == 0 {
        assert(seq![x] =~= Seq::<Stamped<T>>::empty().push(x));
    } else if s.last().timestamp <= x.timestamp {
    } else {
        let rest = s.drop_last();
        lemma_insert_by_time_ordered(rest, x);
        let ins = insert_by_time(rest, x);
        assert(rest.push(s.last()) =~= s);
        assert(ins.to_multiset().insert(s.last()) =~= s.to_multiset().insert(x));
        assert forall|k: int| 0 <= k < ins.len() implies ins[k].timestamp <= s.last().timestamp by {
            assert(ins.to_multiset().count(ins[k]) > 0);
            assert(rest.to_multiset().insert(x).count(ins[k]) > 0);
            if ins[k] != x {
                assert(rest.to_multiset().count(ins[k]) > 0);
                assert(rest.contains(ins[k]));
                let w = choose|w: int| 0 <= w < rest.len() && rest[w] == ins[k];
                assert(rest[w] == s[w]);
            }
        }
    }
}

/// Sorting gives an ordered series holding exactly the same items.
pub proof fn lemma_sort_by_time_ordered<T>(s: Seq<Stamped<T>>)
    ensures
        time_ordered(sort_by_time(s)),
        sort_by_time(s).to_multiset() == s.to_multiset(),
        sort_by_time(s).len() == s.len(),
    decreases s.len(),
{
    broadcast use vstd::seq_lib::group_to_multiset_ensures;

    if s.len() > 0 {
        let rest = s.drop_last();
        lemma_sort_by_time_ordered(rest);
        lemma_insert_by_time_ordered(sort_by_time(rest), s.last());
        assert(rest.push(s.last()) =~= s);
    }
}

/// Sorting a series that is already ordered changes nothing.
pub proof fn lemma_sort_by_time_of_ordered<T>(s: Seq<Stamped<T>>)
    requires
        time_ordered(s),
    ensures
        sort_by_time(s) == s,
    decreases s.len(),
{
    if s.len() > 0 {
        let rest = s.drop_last();
        lemma_sort_by_time_of_ordered(rest);
        assert(rest.push(s.last()) =~= s);
    }
}

/// Removing repeated timestamps from an ordered series leaves strictly
/// increasing timestamps, each item one of the series', the first one kept.
pub proof fn lemma_dedup_by_time_strict<T>(s: Seq<Stamped<T>>)
    requires
        time_ordered(s),
    ensures
        strictly_time_ordered(dedup_by_time(s)),
        dedup_by_time(s).len() <= s.len(),
        s.len() > 0 ==> dedup_by_time(s).len() > 0 && dedup_by_time(s)[0] == s[0],
        s.len() > 0 ==> dedup_by_time(s).last().timestamp == s.last().timestamp,
        forall|k: int| 0 <= k < dedup_by_time(s).len() ==> s.contains(#[trigger] dedup_by_time(s)[k]),
    decreases s.len(),
{
    if s.len() > 0 {
        let rest = s.drop_last();
        assert(time_ordered(rest));
        lemma_dedup_by_time_strict(rest);
        let kept = dedup_by_time(rest);
        assert forall|k: int| 0 <= k < kept.len() implies s.contains(#[trigger] kept[k]) by {
            assert(rest.contains(kept[k]));
            let w = choose|w: int| 0 <= w < rest.len() && rest[w] == kept[k];
            assert(s[w] == kept[k]);
        }
        if kept.len() > 0 && kept.last().timestamp == s.last().timestamp {
        } else {
            let d = kept.push(s.last());
            assert(d[d.len() - 1] == s[s.len() - 1]);
            assert forall|k: int| 0 <= k < d.len() implies s.contains(#[trigger] d[k]) by {
                if k < kept.len() {
                    assert(d[k] == kept[k]);
                } else {
                    assert(d[k] == s[s.len() - 1]);
                }
            }
            if kept.len() > 0 {
                assert(kept.last().timestamp == rest.last().timestamp);
                assert(rest.last().timestamp <= s.last().timestamp);
            }
        }
    }
}

/// Keeping the last items keeps the order and never holds more than asked.
pub proof fn lemma_keep_last_bounded<T>(s: Seq<Stamped<T>>, max: nat)
    ensures
        keep_last(s, max).len() <= max || keep_last(s, max) == s,
        keep_last(s, max).len() <= s.len(),
        time_ordered(s) ==> time_ordered(keep_last(s, max)),
        strictly_time_ordered(s) ==> strictly_time_ordered(keep_last(s, max)),
{
}

/// A series with strictly increasing timestamps has nothing to remove.
pub proof fn lemma_dedup_by_time_of_strict<T>(s: Seq<Stamped<T>>)
    requires
        strictly_time_ordered(s),
    ensures
        dedup_by_time(s) == s,
    decreases s.len(),
{
    if s.len() > 0 {
        let rest = s.drop_last();
        lemma_dedup_by_time_of_strict(rest);
        if rest.len() > 0 {
            assert(rest.last() == s[s.len() - 2]);
        }
        assert(rest.push(s.last()) =~= s);
    }
}

/// What `store` keeps is in timestamp order, holds at most `max` candles, and
/// holds all of them when there are no more than `max`.
pub proof fn lemma_stored_series_shape<T>(candles: Seq<Stamped<T>>, max: nat)
    ensures
        time_ordered(stored_series(candles, max)),
        stored_series(candles, max).len() == if candles.len() > max { max } else { candles.len() },
        candles.len() <= max ==> stored_series(candles, max).to_multiset() == candles.to_multiset(),
{
    lemma_sort_by_time_ordered(candles);
    lemma_keep_last_bounded(sort_by_time(candles), max);
}

/// What `update` keeps has strictly increasing timestamps, holds at most
/// `max` candles, and each of them was held or added.
pub proof fn lemma_merged_series_shape<T>(existing: Seq<Stamped<T>>, added: Seq<Stamped<T>>, max: nat)
    ensures
        strictly_time_ordered(merged_series(existing, added, max)),
        merged_series(existing, added, max).len() <= max,
        forall|k: int|
            0 <= k < merged_series(existing, added, max).len() ==> (existing + added).contains(
                #[trigger] merged_series(existing, added, max)[k],
            ),
{
    broadcast use vstd::seq_lib::group_to_multiset_ensures;

    let all = existing + added;
    let sorted = sort_by_time(all);
    lemma_sort_by_time_ordered(all);
    lemma_dedup_by_time_strict(sorted);
    let unique = dedup_by_time(sorted);
    lemma_keep_last_bounded(unique, max);
    let kept = keep_last(unique, max);
    assert forall|k: int| 0 <= k < kept.len() implies all.contains(#[trigger] kept[k]) by {
        let off = unique.len() - kept.len();
        assert(kept[k] == unique[k + off]);
        assert(sorted.contains(unique[k + off]));
        assert(sorted.to_multiset().count(kept[k]) > 0);
        assert(all.to_multiset().count(kept[k]) > 0);
    }
}

/// Adding candles that all come after the held ones, both series strictly
/// ordered, appends them (then keeps the latest `max`).
pub proof fn lemma_merge_of_later_candles<T>(existing: Seq<Stamped<T>>, added: Seq<Stamped<T>>, max: nat)
    requires
        strictly_time_ordered(existing),
        strictly_time_ordered(added),
        existing.len() > 0 && added.len() > 0 ==> existing.last().timestamp < added[0].timestamp,
    ensures
        merged_series(existing, added, max) == keep_last(existing + added, max),
{
    let all = existing + added;
    assert forall|i: int, j: int| 0 <= i < j < all.len() implies all[i].timestamp < all[j].timestamp by {
        if j < existing.len() {
        } else if i >= existing.len() {
            assert(all[i] == added[i - existing.len()]);
            assert(all[j] == added[j - existing.len()]);
        } else {
            assert(all[j] == added[j - existing.len()]);
            if j - existing.len() > 0 {
                assert(added[0].timestamp < added[j - existing.len()].timestamp);
            }
            if i < existing.len() - 1 {
                assert(existing[i].timestamp < existing[existing.len() - 1].timestamp);
            }
        }
    }
    lemma_sort_by_time_of_ordered(all);
    lemma_dedup_by_time_of_strict(all);
}

pub(crate) fn slot_of(tf: TimeFrame) -> (r: usize)
    ensures
        r == rank(tf),
        r < 9,
{
    match tf {
        TimeFrame::M1 => 0,
        TimeFrame::M5 => 1,
        TimeFrame::M15 => 2,
        TimeFrame::M30 => 3,
        TimeFrame::H1 => 4,
        TimeFrame::H4 => 5,
        TimeFrame::D1 => 6,
        TimeFrame::W1 => 7,
        TimeFrame::MN1 => 8,
    }
}

pub(crate) proof fn lemma_rank_injective(a: TimeFrame, b: TimeFrame)
    ensures
        rank(a) == rank(b) <==> a == b,
{
}

proof fn lemma_ranks_of_all()
    ensures
        all_timeframes().len() == 9,
        forall|i: int| 0 <= i < 9 ==> rank(#[trigger] all_timeframes()[i]) == i,
        forall|tf: TimeFrame| #[trigger] all_timeframes()[rank(tf) as int] == tf,
{
    assert forall|tf: TimeFrame| #[trigger] all_timeframes()[rank(tf) as int] == tf by {
        match tf {
            TimeFrame::M1 => {},
            TimeFrame::M5 => {},
            TimeFrame::M15 => {},
            TimeFrame::M30 => {},
            TimeFrame::H1 => {},
            TimeFrame::H4 => {},
            TimeFrame::D1 => {},
            TimeFrame::W1 => {},
            TimeFrame::MN1 => {},
        }
    }
}

/// Moves the items of `v` into a new vector in reverse order.
fn reverse_items<T>(v: Vec<T>) -> (r: Vec<T>)
    ensures
        r@.len() == v@.len(),
        forall|j: int| 0 <= j < v@.len() ==> #[trigger] r@[j] == v@[v@.len() - 1 - j],
{
    let ghost orig = v@;
    let mut rest = v;
    let mut out: Vec<T> = Vec::new();
    while rest.len() > 0
        invariant
            rest@ == orig.take(rest@.len() as int),
            out@.len() + rest@.len() == orig.len(),
            forall|j: int| 0 <= j < out@.len() ==> #[trigger] out@[j] == orig[orig.len() - 1 - j],
        decreases rest@.len(),
    {
        let x = rest.pop().unwrap();
        out.push(x);
    }
    out
}

/// Stable insertion sort by timestamp.
fn sort_stamped<T>(items: Vec<Stamped<T>>) -> (r: Vec<Stamped<T>>)
    ensures
        r@ == sort_by_time(items@),
{
    let ghost orig = items@;
    let n = items.len();
    let mut pending = reverse_items(items);
    let mut sorted: Vec<Stamped<T>> = Vec::new();
    while pending.len() > 0
        invariant
            pending@.len() <= n,
            n == orig.len(),
            forall|j: int| 0 <= j < pending@.len() ==> #[trigger] pending@[j] == orig[n - 1 - j],
            sorted@ == sort_by_time(orig.take(n - pending@.len())),
        decreases pending@.len(),
    {
        let ghost k = n - pending@.len();
        let x = pending.pop().unwrap();
        proof {
            assert(x == orig[k]);
            assert(orig.take(k + 1).drop_last() =~= orig.take(k));
        }
        let mut p = sorted.len();
        while p > 0 && sorted[p - 1].timestamp > x.timestamp
            invariant
                p <= sorted@.len(),
                forall|q: int| p <= q < sorted@.len() ==> sorted@[q].timestamp > x.timestamp,
            decreases p,
        {
            p = p - 1;
        }
        proof {
            lemma_insert_by_time_at(sorted@, x, p as int);
        }
        sorted.insert(p, x);
    }
    proof {
        assert(orig.take(n as int) =~= orig);
    }
    sorted
}

/// Drops each item whose timestamp equals that of the item kept before it.
fn dedup_stamped<T>(items: Vec<Stamped<T>>) -> (r: Vec<Stamped<T>>)
    ensures
        r@ == dedup_by_time(items@),
{
    let ghost orig = items@;
    let n = items.len();
    let mut pending = reverse_items(items);
    let mut kept: Vec<Stamped<T>> = Vec::new();
    while pending.len() > 0
        invariant
            pending@.len() <= n,
            n == orig.len(),
            forall|j: int| 0 <= j < pending@.len() ==> #[trigger] pending@[j] == orig[n - 1 - j],
            kept@ == dedup_by_time(orig.take(n - pending@.len())),
        decreases pending@.len(),
    {
        let ghost k = n - pending@.len();
        let x = pending.pop().unwrap();
        proof {
            assert(x == orig[k]);
            assert(orig.take(k + 1).drop_last() =~= orig.take(k));
        }
        let len = kept.len();
        if len > 0 && kept[len - 1].timestamp == x.timestamp {
        } else {
            kept.push(x);
        }
    }
    proof {
        assert(orig.take(n as int) =~= orig);
    }
    kept
}

/// The last `max` items when there are more.
fn keep_last_stamped<T>(items: Vec<Stamped<T>>, max: usize) -> (r: Vec<Stamped<T>>)
    ensures
        r@ == keep_last(items@, max as nat),
{
    let mut items = items;
    let len = items.len();
    if len > max {
        items.split_off(len - max)
    } else {
        items
    }
}

/// Counts of a cache's contents.
#[derive(Debug, Clone)]
pub struct CacheStats {
    pub total_candles: usize,
    pub timeframe_count: usize,
    pub estimated_memory_mb: usize,
}

/// Candle series per timeframe, each in timestamp order and at most
/// `max_candles_per_timeframe` long.
pub struct MultiTimeframeDataCache<T> {
    slots: Vec<Option<Vec<Stamped<T>>>>,
    max_candles_per_timeframe: usize,
}

/// The candles a `store` keeps: sorted by timestamp, the latest `max`.
pub open spec fn stored_series<T>(candles: Seq<Stamped<T>>, max: nat) -> Seq<Stamped<T>> {
    keep_last(sort_by_time(candles), max)
}

/// The candles an `update` keeps for a timeframe that already had `existing`:
/// both series together, sorted, one per timestamp (the earlier-held one),
/// the latest `max`.
pub open spec fn merged_series<T>(existing: Seq<Stamped<T>>, added: Seq<Stamped<T>>, max: nat) -> Seq<Stamped<T>> {
    keep_last(dedup_by_time(sort_by_time(existing + added)), max)
}

impl<T> MultiTimeframeDataCache<T> {
    /// The cache's storage is laid out as expected.
    pub closed spec fn wf(&self) -> bool {
        self.slots@.len() == 9
    }

    /// The length limit of each series.
    pub closed spec fn capacity(&self) -> nat {
        self.max_candles_per_timeframe as nat
    }

    /// The series held for a timeframe, if any.
    pub closed spec fn entry(&self, tf: TimeFrame) -> Option<Seq<Stamped<T>>> {
        match self.slots@[rank(tf) as int] {
            Some(v) => Some(v@),
            None => None,
        }
    }

    /// Number of candles held for the timeframes of `tfs`.
    pub open spec fn held_in(&self, tfs: Seq<TimeFrame>) -> nat
        decreases tfs.len(),
    {
        if tfs.len() == 0 {
            0
        } else {
            self.held_in(tfs.drop_last()) + match self.entry(tfs.last()) {
                Some(e) => e.len(),
                None => 0,
            }
        }
    }

    /// The timeframes of `tfs` that have a series, in the order of `tfs`.
    pub open spec fn present_in(&self, tfs: Seq<TimeFrame>) -> Seq<TimeFrame>
        decreases tfs.len(),
    {
        if tfs.len() == 0 {
            Seq::empty()
        } else if self.entry(tfs.last()) is Some {
            self.present_in(tfs.drop_last()).push(tfs.last())
        } else {
            self.present_in(tfs.drop_last())
        }
    }

    /// An empty cache holding up to 10000 candles per timeframe.
    pub fn new() -> (r: Self)
        ensures
            r.wf(),
            r.capacity() == 10_000,
            forall|tf: TimeFrame| r.entry(tf) is None,
    {
        Self::with_capacity(10_000)
    }

    /// An empty cache holding up to `max_candles_per_timeframe` candles per timeframe.
    pub fn with_capacity(max_candles_per_timeframe: usize) -> (r: Self)
        ensures
            r.wf(),
            r.capacity() == max_candles_per_timeframe,
            forall|tf: TimeFrame| r.entry(tf) is None,
    {
        let mut slots: Vec<Option<Vec<Stamped<T>>>> = Vec::new();
        let mut i: usize = 0;
        while i < 9
            invariant
                i <= 9,
                slots@.len() == i,
                forall|k: int| 0 <= k < i ==> slots@[k] is None,
            decreases 9 - i,
        {
            slots.push(None);
            i = i + 1;
        }
        MultiTimeframeDataCache { slots, max_candles_per_timeframe }
    }

    /// Holds `candles` for `timeframe`, sorted by timestamp and cut to the
    /// latest ones, in place of what it held.
    pub fn store(&mut self, timeframe: TimeFrame, candles: Vec<Stamped<T>>)
        requires
            old(self).wf(),
        ensures
            final(self).wf(),
            final(self).capacity() == old(self).capacity(),
            final(self).entry(timeframe) == Some(stored_series(candles@, old(self).capacity())),
            forall|tf: TimeFrame| tf != timeframe ==> final(self).entry(tf) == old(self).entry(tf),
    {
        let sorted = sort_stamped(candles);
        let kept = keep_last_stamped(sorted, self.max_candles_per_timeframe);
        let i = slot_of(timeframe);
        self.slots.set(i, Some(kept));
        proof {
            assert forall|tf: TimeFrame| tf != timeframe implies self.entry(tf) == old(self).entry(tf) by {
                lemma_rank_injective(tf, timeframe);
            }
        }
    }

    /// The series held for a timeframe.
    pub fn get(&self, timeframe: &TimeFrame) -> (r: Option<&Vec<Stamped<T>>>)
        requires
            self.wf(),
        ensures
            match r {
                Some(v) => self.entry(*timeframe) == Some(v@),
                None => self.entry(*timeframe) is None,
            },
    {
        let i = slot_of(*timeframe);
        match &self.slots[i] {
            Some(v) => Some(v),
            None => None,
        }
    }

    /// Adds candles to a timeframe's series: merged with what it held, sorted,
    /// one per timestamp and cut to the latest ones; a timeframe with no
    /// series is stored as `store` does.
    pub fn update(&mut self, timeframe: TimeFrame, new_candles: Vec<Stamped<T>>)
        requires
            old(self).wf(),
        ensures
            final(self).wf(),
            final(self).capacity() == old(self).capacity(),
            final(self).entry(timeframe) == Some(match old(self).entry(timeframe) {
                Some(existing) => merged_series(existing, new_candles@, old(self).capacity()),
                None => stored_series(new_candles@, old(self).capacity()),
            }),
            forall|tf: TimeFrame| tf != timeframe ==> final(self).entry(tf) == old(self).entry(tf),
    {
        let i = slot_of(timeframe);
        let slot = self.slots.remove(i);
        match slot {
            Some(existing) => {
                let mut merged = existing;
                let mut added = new_candles;
                merged.append(&mut added);
                let sorted = sort_stamped(merged);
                let unique = dedup_stamped(sorted);
                let kept = keep_last_stamped(unique, self.max_candles_per_timeframe);
                self.slots.insert(i, Some(kept));
                proof {
                    assert forall|tf: TimeFrame| tf != timeframe implies self.entry(tf) == old(self).entry(tf) by {
                        lemma_rank_injective(tf, timeframe);
                        let a = rank(tf) as int;
                        if a < i {
                            assert(self.slots@[a] == old(self).slots@[a]);
                        } else {
                            assert(self.slots@[a] == old(self).slots@[a]);
                        }
                    }
                }
            },
            None => {
                self.slots.insert(i, None);
                proof {
                    assert(self.slots@ =~= old(self).slots@);
                }
                self.store(timeframe, new_candles);
            },
        }
    }

    /// Drops every series.
    pub fn clear(&mut self)
        requires
            old(self).wf(),
        ensures
            final(self).wf(),
            final(self).capacity() == old(self).capacity(),
            forall|tf: TimeFrame| final(self).entry(tf) is None,
    {
        let mut i: usize = 0;
        while i < 9
            invariant
                i <= 9,
                self.slots@.len() == 9,
                self.max_candles_per_timeframe == old(self).max_candles_per_timeframe,
                forall|k: int| 0 <= k < i ==> self.slots@[k] is None,
            decreases 9 - i,
        {
            self.slots.set(i, None);
            i = i + 1;
        }
        proof {
            assert forall|tf: TimeFrame| self.entry(tf) is None by {
                assert(rank(tf) < 9);
            }
        }
    }

    /// Drops the series of one timeframe.
    pub fn remove(&mut self, timeframe: &TimeFrame)
        requires
            old(self).wf(),
        ensures
            final(self).wf(),
            final(self).capacity() == old(self).capacity(),
            final(self).entry(*timeframe) is None,
            forall|tf: TimeFrame| tf != *timeframe ==> final(self).entry(tf) == old(self).entry(tf),
    {
        let i = slot_of(*timeframe);
        self.slots.set(i, None);
        proof {
            assert forall|tf: TimeFrame| tf != *timeframe implies self.entry(tf) == old(self).entry(tf) by {
                lemma_rank_injective(tf, *timeframe);
            }
        }
    }

    /// The timeframes that have a series, from the shortest to the longest.
    pub fn timeframes(&self) -> (r: Vec<TimeFrame>)
        requires
            self.wf(),
        ensures
            r@ == self.present_in(all_timeframes()),
    {
        let all = TimeFrame::all();
        let mut out: Vec<TimeFrame> = Vec::new();
        let mut i: usize = 0;
        while i < all.len()
            invariant
                i <= all@.len(),
                all@ == all_timeframes(),
                self.wf(),
                out@ == self.present_in(all@.take(i as int)),
            decreases all@.len() - i,
        {
            proof {
                assert(all@.take(i as int + 1).drop_last() =~= all@.take(i as int));
            }
            let tf = all[i];
            if self.get(&tf).is_some() {
                out.push(tf);
            }
            i = i + 1;
        }
        proof {
            assert(all@.take(i as int) =~= all@);
        }
        out
    }

    /// Number of candles held for a timeframe (0 when it has no series).
    pub fn len(&self, timeframe: &TimeFrame) -> (r: usize)
        requires
            self.wf(),
        ensures
            r == match self.entry(*timeframe) {
                Some(e) => e.len(),
                None => 0,
            },
    {
        match self.get(timeframe) {
            Some(v) => v.len(),
            None => 0,
        }
    }

    /// True when no timeframe has a series.
    pub fn is_empty(&self) -> (r: bool)
        requires
            self.wf(),
        ensures
            r == forall|tf: TimeFrame| #[trigger] self.entry(tf) is None,
    {
        let all = TimeFrame::all();
        let mut i: usize = 0;
        proof {
            lemma_ranks_of_all();
        }
        while i < all.len()
            invariant
                i <= all@.len(),
                all@ == all_timeframes(),
                self.wf(),
                forall|k: int| 0 <= k < i ==> self.entry(#[trigger] all@[k]) is None,
            decreases all@.len() - i,
        {
            if self.get(&all[i]).is_some() {
                return false;
            }
            i = i + 1;
        }
        proof {
            lemma_ranks_of_all();
            assert forall|tf: TimeFrame| #[trigger] self.entry(tf) is None by {
                assert(all@[rank(tf) as int] == tf);
            }
        }
        true
    }

    /// Counts of the cache's contents; the memory estimate is the candle count
    /// times the size of a stored candle, in whole mebibytes.
    pub fn memory_usage(&self) -> (r: CacheStats)
        requires
            self.wf(),
            self.held_in(all_timeframes()) <= usize::MAX,
            self.held_in(all_timeframes()) * vstd::layout::size_of::<Stamped<T>>() <= usize::MAX,
        ensures
            r.total_candles == self.held_in(all_timeframes()),
            r.timeframe_count == self.present_in(all_timeframes()).len(),
            r.estimated_memory_mb == (self.held_in(all_timeframes()) * vstd::layout::size_of::<Stamped<T>>())
                / (1024 * 1024),
    {
        let all = TimeFrame::all();
        let mut total: usize = 0;
        let mut count: usize = 0;
        let mut i: usize = 0;
        let ghost size = vstd::layout::size_of::<Stamped<T>>();
        while i < all.len()
            invariant
                i <= all@.len(),
                all@ == all_timeframes(),
                self.wf(),
                total == self.held_in(all@.take(i as int)),
                count == self.present_in(all@.take(i as int)).len(),
                count <= i,
                self.held_in(all_timeframes()) * size <= usize::MAX,
                self.held_in(all_timeframes()) <= usize::MAX,
                size == vstd::layout::size_of::<Stamped<T>>(),
            decreases all@.len() - i,
        {
            proof {
                assert(all@.take(i as int + 1).drop_last() =~= all@.take(i as int));
                self.lemma_held_in_prefix(all@, i as int + 1);
            }
            let tf = all[i];
            let n = self.len(&tf);
            match self.get(&tf) {
                Some(_) => {
                    count = count + 1;
                },
                None => {},
            }
            total = total + n;
            i = i + 1;
        }
        proof {
            assert(all@.take(i as int) =~= all@);
        }
        let stamped_size = core::mem::size_of::<Stamped<T>>();
        let estimated = (total * stamped_size) / (1024 * 1024);
        CacheStats { total_candles: total, timeframe_count: count, estimated_memory_mb: estimated }
    }

    /// The candles held for a prefix of `tfs` never exceed those held for all of it.
    proof fn lemma_held_in_prefix(&self, tfs: Seq<TimeFrame>, k: int)
        requires
            0 <= k <= tfs.len(),
        ensures
            self.held_in(tfs.take(k)) <= self.held_in(tfs),
        decreases tfs.len(),
    {
        if k < tfs.len() {
            assert(tfs.drop_last().take(k) =~= tfs.take(k));
            self.lemma_held_in_prefix(tfs.drop_last(), k);
        } else {
            assert(tfs.take(k) =~= tfs);
        }
    }
}

impl<T> Default for MultiTimeframeDataCache<T> {
    fn default() -> (r: Self)
        ensures
            r.wf(),
            r.capacity() == 10_000,
            forall|tf: TimeFrame| r.entry(tf) is None,
    {
        Self::new()
    }
}

} // verus!
