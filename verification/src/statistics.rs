//! Trade statistics that read P&L and balances only through their order:
//! winning and losing streaks, and the longest drawdown.
//!
//! Amounts are doubles given by their IEEE-754 bit patterns (`f64::to_bits`),
//! compared as `<` compares doubles.

use vstd::prelude::*;
use crate::doubles::{double_less_than, double_lt, is_nan_bits};

verus! {

/// A P&L above zero (NaN is not).
pub open spec fn is_win(pnl: u64) -> bool {
    double_lt(0, pnl)
}

/// A P&L below zero (NaN is not).
pub open spec fn is_loss(pnl: u64) -> bool {
    double_lt(pnl, 0)
}

/// Length of the run of `true` that ends `flags`.
pub open spec fn trailing_run(flags: Seq<bool>) -> nat
    decreases flags.len(),
{
    if flags.len() == 0 {
        0
    } else if flags.last() {
        trailing_run(flags.drop_last()) + 1
    } else {
        0
    }
}

/// Length of the longest run of consecutive `true` in `flags`.
pub open spec fn longest_run(flags: Seq<bool>) -> nat
    decreases flags.len(),
{
    if flags.len() == 0 {
        0
    } else {
        let before = longest_run(flags.drop_last());
        let here = trailing_run(flags);
        if here > before {
            here
        } else {
            before
        }
    }
}

pub open spec fn win_flags(pnls: Seq<u64>) -> Seq<bool> {
    pnls.map_values(|p: u64| is_win(p))
}

pub open spec fn loss_flags(pnls: Seq<u64>) -> Seq<bool> {
    pnls.map_values(|p: u64| is_loss(p))
}

proof fn lemma_trailing_run_bound(flags: Seq<bool>)
    ensures
        trailing_run(flags) <= flags.len(),
        forall|k: int| flags.len() - trailing_run(flags) <= k < flags.len() ==> #[trigger] flags[k],
    decreases flags.len(),
{
    if flags.len() > 0 {
        let rest = flags.drop_last();
        lemma_trailing_run_bound(rest);
        if flags.last() {
            assert forall|k: int| flags.len() - trailing_run(flags) <= k < flags.len() implies #[trigger] flags[k] by {
                if k < rest.len() {
                    assert(rest[k] == flags[k]);
                }
            }
        }
    }
}

/// `flags` holds `n` consecutive `true` from position `i`.
pub open spec fn run_at(flags: Seq<bool>, i: int, n: int) -> bool {
    &&& 0 <= i
    &&& 0 <= n
    &&& i + n <= flags.len()
    &&& forall|k: int| i <= k < i + n ==> #[trigger] flags[k]
}

/// The longest run is a run: some stretch of that many consecutive `true`
/// exists, and no stretch of consecutive `true` is longer.
pub proof fn lemma_longest_run_is_max(flags: Seq<bool>)
    ensures
        longest_run(flags) <= flags.len(),
        exists|i: int| #[trigger] run_at(flags, i, longest_run(flags) as int),
        forall|i: int, n: int| #[trigger] run_at(flags, i, n) ==> n <= longest_run(flags),
    decreases flags.len(),
{
    if flags.len() == 0 {
        assert(run_at(flags, 0, 0));
    } else {
        let rest = flags.drop_last();
        lemma_longest_run_is_max(rest);
        lemma_trailing_run_bound(flags);
        let before = longest_run(rest);
        let here = trailing_run(flags);
        if here > before {
            let i = flags.len() - here;
            assert(run_at(flags, i, longest_run(flags) as int));
        } else {
            let i = choose|i: int| #[trigger] run_at(rest, i, before as int);
            assert forall|k: int| i <= k < i + longest_run(flags) implies #[trigger] flags[k] by {
                assert(rest[k] == flags[k]);
            }
            assert(run_at(flags, i, longest_run(flags) as int));
        }
        assert forall|i: int, n: int| #[trigger] run_at(flags, i, n) implies n <= longest_run(flags) by {
            if i + n < flags.len() {
                assert forall|k: int| i <= k < i + n implies #[trigger] rest[k] by {
                    assert(flags[k] == rest[k]);
                }
                assert(run_at(rest, i, n));
            } else if n > 0 {
                lemma_trailing_run_covers(flags, i);
            }
        }
    }
}

/// A run of `true` that reaches the end is no longer than the trailing run.
proof fn lemma_trailing_run_covers(flags: Seq<bool>, i: int)
    requires
        0 <= i <= flags.len(),
        forall|k: int| i <= k < flags.len() ==> #[trigger] flags[k],
    ensures
        flags.len() - i <= trailing_run(flags),
    decreases flags.len(),
{
    if i < flags.len() {
        let rest = flags.drop_last();
        assert forall|k: int| i <= k < rest.len() implies #[trigger] rest[k] by {
            assert(rest[k] == flags[k]);
        }
        lemma_trailing_run_covers(rest, i);
        assert(flags[flags.len() - 1]);
    }
}

fn longest_streak(pnls: &[u64], wins: bool) -> (r: usize)
    ensures
        r == longest_run(if wins { win_flags(pnls@) } else { loss_flags(pnls@) }),
{
    let ghost flags = if wins { win_flags(pnls@) } else { loss_flags(pnls@) };
    let mut max_streak: usize = 0;
    let mut current_streak: usize = 0;
    let mut i: usize = 0;
    while i < pnls.len()
        invariant
            i <= pnls@.len(),
            flags.len() == pnls@.len(),
            flags == (if wins { win_flags(pnls@) } else { loss_flags(pnls@) }),
            current_streak == trailing_run(flags.take(i as int)),
            max_streak == longest_run(flags.take(i as int)),
            current_streak <= i,
        decreases pnls@.len() - i,
    {
        proof {
            assert(flags.take(i as int + 1).drop_last() =~= flags.take(i as int));
            assert(flags.take(i as int + 1).last() == flags[i as int]);
        }
        let hit = if wins {
            double_less_than(0, pnls[i])
        } else {
            double_less_than(pnls[i], 0)
        };
        if hit {
            current_streak = current_streak + 1;
            if current_streak > max_streak {
                max_streak = current_streak;
            }
        } else {
            current_streak = 0;
        }
        i = i + 1;
    }
    proof {
        assert(flags.take(i as int) =~= flags);
    }
    max_streak
}

/// Length of the longest streak of consecutive trades with a P&L above zero.
pub fn calculate_max_consecutive_wins(pnls: &[u64]) -> (r: usize)
    ensures
        r == longest_run(win_flags(pnls@)),
{
    longest_streak(pnls, true)
}

/// Length of the longest streak of consecutive trades with a P&L below zero.
pub fn calculate_max_consecutive_losses(pnls: &[u64]) -> (r: usize)
    ensures
        r == longest_run(loss_flags(pnls@)),
{
    longest_streak(pnls, false)
}

/// Position of the running peak once the balances up to position `i` are
/// read: the first position of the highest balance so far (a balance that is
/// not above the peak, NaN included, never replaces it).
pub open spec fn peak_at(s: Seq<u64>, i: int) -> int
    decreases i,
{
    if i <= 0 {
        0
    } else {
        let p = peak_at(s, i - 1);
        if double_lt(s[p], s[i]) {
            i
        } else {
            p
        }
    }
}

/// How far position `i` lies from the running peak before it, when its balance
/// is below that peak; zero otherwise.
pub open spec fn drop_length(s: Seq<u64>, i: int) -> int {
    if 0 < i && double_lt(s[i], s[peak_at(s, i - 1)]) {
        i - peak_at(s, i - 1)
    } else {
        0
    }
}

/// The largest `drop_length` over the positions before `n` (zero when none).
pub open spec fn longest_drop(s: Seq<u64>, n: int) -> int
    decreases n,
{
    if n <= 0 {
        0
    } else {
        let m = longest_drop(s, n - 1);
        let d = drop_length(s, n - 1);
        if d > m {
            d
        } else {
            m
        }
    }
}

/// Longest number of candles from a peak balance to a later balance below it:
/// the maximum, over the positions whose balance is below the running peak, of
/// their distance to the first position of that peak.
pub open spec fn max_drawdown_duration(s: Seq<u64>) -> int {
    longest_drop(s, s.len() as int)
}

/// The running peak is never ahead of the balances read, and no drawdown lasts
/// longer than the candles after the first.
pub proof fn lemma_drawdown_bounds(s: Seq<u64>, n: int)
    requires
        1 <= n,
    ensures
        0 <= peak_at(s, n - 1) < n,
        0 <= longest_drop(s, n) < n,
    decreases n,
{
    assert(longest_drop(s, 0) == 0);
    if n > 1 {
        lemma_drawdown_bounds(s, n - 1);
        assert(0 <= drop_length(s, n - 1) < n);
    }
}

/// The running peak is the highest balance read so far: it lies at or before
/// position `i`, no balance up to `i` is above it, and every balance before it
/// that is a number is below it (so it is the first position of that value).
pub proof fn lemma_peak_is_highest_so_far(s: Seq<u64>, i: int)
    requires
        0 <= i < s.len(),
    ensures
        0 <= peak_at(s, i) <= i,
        forall|k: int| 0 <= k <= i ==> !double_lt(s[peak_at(s, i)], #[trigger] s[k]),
        forall|k: int|
            0 <= k < peak_at(s, i) ==> is_nan_bits(#[trigger] s[k]) || double_lt(s[k], s[peak_at(s, i)]),
    decreases i,
{
    if i > 0 {
        lemma_peak_is_highest_so_far(s, i - 1);
        let p = peak_at(s, i - 1);
        if double_lt(s[p], s[i]) {
            assert forall|k: int| 0 <= k <= i implies !double_lt(s[i], #[trigger] s[k]) by {
                if k < i {
                    assert(!double_lt(s[p], s[k]));
                }
            }
            assert forall|k: int| 0 <= k < i implies is_nan_bits(#[trigger] s[k]) || double_lt(s[k], s[i]) by {
                assert(!double_lt(s[p], s[k]));
            }
        }
    }
}

/// The longest drawdown is the largest `drop_length` over the positions read:
/// none exceeds it, and some position reaches it.
pub proof fn lemma_longest_drop_is_maximum(s: Seq<u64>, n: int)
    requires
        1 <= n <= s.len(),
    ensures
        forall|i: int| 0 <= i < n ==> #[trigger] drop_length(s, i) <= longest_drop(s, n),
        exists|i: int| 0 <= i < n && #[trigger] drop_length(s, i) == longest_drop(s, n),
    decreases n,
{
    assert(longest_drop(s, 0) == 0);
    if n == 1 {
        assert(drop_length(s, 0) == longest_drop(s, 1));
    } else {
        lemma_longest_drop_is_maximum(s, n - 1);
        let w = choose|i: int| 0 <= i < n - 1 && #[trigger] drop_length(s, i) == longest_drop(s, n - 1);
        if drop_length(s, n - 1) > longest_drop(s, n - 1) {
            assert(drop_length(s, n - 1) == longest_drop(s, n));
        } else {
            assert(drop_length(s, w) == longest_drop(s, n));
        }
    }
}

/// Longest number of candles from a peak balance to a later balance below
/// it; balances are doubles given by their bit patterns.
pub fn calculate_max_drawdown_duration(balances: &[u64]) -> (r: u64)
    ensures
        r == max_drawdown_duration(balances@),
{
    if balances.len() == 0 {
        return 0;
    }
    let ghost s = balances@;
    let mut max_equity: u64 = balances[0];
    let mut max_equity_index: usize = 0;
    let mut max_dd_duration: usize = 0;
    let mut i: usize = 1;
    proof {
        assert(longest_drop(s, 0) == 0);
        assert(drop_length(s, 0) == 0);
        assert(longest_drop(s, 1) == 0);
    }
    while i < balances.len()
        invariant
            s == balances@,
            1 <= i <= s.len(),
            max_equity_index as int == peak_at(s, i - 1),
            max_equity == s[max_equity_index as int],
            max_dd_duration as int == longest_drop(s, i as int),
            max_equity_index < i,
        decreases s.len() - i,
    {
        let b = balances[i];
        if double_less_than(max_equity, b) {
            max_equity = b;
            max_equity_index = i;
        } else if double_less_than(b, max_equity) {
            let current_dd_duration = i - max_equity_index;
            if current_dd_duration > max_dd_duration {
                max_dd_duration = current_dd_duration;
            }
        }
        i = i + 1;
    }
    max_dd_duration as u64
}

} // verus!
