//! The decisions of the backtest loops: which signals to ask for on a candle,
//! which position to open, and why a position closes.

use vstd::prelude::*;
use crate::order::PositionSide;

verus! {

/// The event-driven backtest engine.
#[derive(Debug, Clone, Copy)]
pub struct PolarsBacktestEngine;

impl PolarsBacktestEngine {
    pub fn new() -> (r: Self)
        ensures
            r == PolarsBacktestEngine,
    {
        PolarsBacktestEngine
    }
}

impl Default for PolarsBacktestEngine {
    fn default() -> (r: Self)
        ensures
            r == PolarsBacktestEngine,
    {
        PolarsBacktestEngine::new()
    }
}

/// The signals the engine asks the strategy for on a candle.
#[derive(Debug, Clone, Copy, PartialEq, Eq, Structural)]
pub enum SignalQuery {
    /// Whether to close the open long position.
    ExitLong,
    /// Whether to close the open short position.
    ExitShort,
    /// Whether to open a long and whether to open a short position.
    Entries,
}

/// With a position open only its exit is asked for; without one, both entries.
pub fn signal_query(position: Option<PositionSide>) -> (r: SignalQuery)
    ensures
        r == match position {
            Some(PositionSide::Long) => SignalQuery::ExitLong,
            Some(PositionSide::Short) => SignalQuery::ExitShort,
            None => SignalQuery::Entries,
        },
{
    match position {
        Some(PositionSide::Long) => SignalQuery::ExitLong,
        Some(PositionSide::Short) => SignalQuery::ExitShort,
        None => SignalQuery::Entries,
    }
}

/// The side to open when flat: the one signalled alone; none when both or
/// neither are signalled.
pub fn entry_side(enter_long: bool, enter_short: bool) -> (r: Option<PositionSide>)
    ensures
        r == (if enter_long && !enter_short {
            Some(PositionSide::Long)
        } else if enter_short && !enter_long {
            Some(PositionSide::Short)
        } else {
            None
        }),
{
    if enter_long && !enter_short {
        Some(PositionSide::Long)
    } else if enter_short && !enter_long {
        Some(PositionSide::Short)
    } else {
        None
    }
}

/// Why a position was closed.
#[derive(Debug, Clone, Copy, PartialEq, Eq, Structural)]
pub enum ExitReason {
    TakeProfit,
    StopLoss,
    Signal,
    EndOfData,
}

/// The text recorded on a trade for each exit reason.
pub open spec fn exit_reason_text(reason: ExitReason) -> Seq<char> {
    match reason {
        ExitReason::TakeProfit => "TakeProfit"@,
        ExitReason::StopLoss => "StopLoss"@,
        ExitReason::Signal => "Signal"@,
        ExitReason::EndOfData => "End of data"@,
    }
}

impl ExitReason {
    pub fn as_str(&self) -> (r: &'static str)
        ensures
            r@ == exit_reason_text(*self),
    {
        match self {
            ExitReason::TakeProfit => "TakeProfit",
            ExitReason::StopLoss => "StopLoss",
            ExitReason::Signal => "Signal",
            ExitReason::EndOfData => "End of data",
        }
    }
}

/// Why an open long position closes on a candle, if it does: the take-profit
/// level first, then the stop-loss level, then the strategy's exit signal.
pub fn exit_reason(take_profit_hit: bool, stop_loss_hit: bool, exit_signal: bool) -> (r: Option<ExitReason>)
    ensures
        r == (if take_profit_hit {
            Some(ExitReason::TakeProfit)
        } else if stop_loss_hit {
            Some(ExitReason::StopLoss)
        } else if exit_signal {
            Some(ExitReason::Signal)
        } else {
            None
        }),
        r is Some <==> (take_profit_hit || stop_loss_hit || exit_signal),
{
    if take_profit_hit {
        Some(ExitReason::TakeProfit)
    } else if stop_loss_hit {
        Some(ExitReason::StopLoss)
    } else if exit_signal {
        Some(ExitReason::Signal)
    } else {
        None
    }
}

} // verus!

verus! {

use crate::nodes::{IndicatorModel, IndicatorType, StrategyAST, debug_texts, join, models, strategy_indicators};

/// The vectorized backtest engine for many strategies at once.
#[derive(Debug, Clone, Copy)]
pub struct PolarsVectorizedBacktestEngine;

/// "name_[p1, p2]": an indicator's name and parameters as `{:?}` prints them,
/// its category left out.
pub open spec fn required_key(i: IndicatorModel) -> Seq<char> {
    i.name + "_["@ + join(debug_texts(i.params), ", "@) + "]"@
}

/// Whether some indicator of `inds` has the key `k`.
pub open spec fn has_required_key(inds: Seq<IndicatorModel>, k: Seq<char>) -> bool {
    exists|j: int| 0 <= j < inds.len() && required_key(#[trigger] inds[j]) == k
}

/// The indicators of `inds` whose key did not occur before, in order.
pub open spec fn first_by_key(inds: Seq<IndicatorModel>) -> Seq<IndicatorModel>
    decreases inds.len(),
{
    if inds.len() == 0 {
        Seq::empty()
    } else {
        let earlier = first_by_key(inds.drop_last());
        if has_required_key(earlier, required_key(inds.last())) {
            earlier
        } else {
            earlier.push(inds.last())
        }
    }
}

/// The indicators collected keep distinct keys, each one first occurring in
/// the input.
pub proof fn lemma_first_by_key_distinct(inds: Seq<IndicatorModel>)
    ensures
        forall|a: int, b: int|
            0 <= a < b < first_by_key(inds).len() ==> required_key(#[trigger] first_by_key(inds)[a]) != required_key(
                #[trigger] first_by_key(inds)[b],
            ),
        first_by_key(inds).len() <= inds.len(),
        forall|k: int| 0 <= k < inds.len() ==> has_required_key(first_by_key(inds), required_key(#[trigger] inds[k])),
    decreases inds.len(),
{
    if inds.len() > 0 {
        let rest = inds.drop_last();
        lemma_first_by_key_distinct(rest);
        let earlier = first_by_key(rest);
        let out = first_by_key(inds);
        assert forall|k: int| 0 <= k < inds.len() implies has_required_key(out, required_key(#[trigger] inds[k])) by {
            if k < rest.len() {
                assert(rest[k] == inds[k]);
                assert(has_required_key(earlier, required_key(rest[k])));
                let j = choose|j: int| 0 <= j < earlier.len() && required_key(#[trigger] earlier[j]) == required_key(rest[k]);
                assert(out[j] == earlier[j]);
            } else if !has_required_key(earlier, required_key(inds.last())) {
                assert(out[earlier.len() as int] == inds.last());
            }
        }
    }
}

/// The parameters of an indicator as `{:?}` prints their list, brackets left
/// out: "p1, p2".
pub open spec fn param_list_text(i: IndicatorModel) -> Seq<char> {
    join(debug_texts(i.params), ", "@)
}

/// Whether a name holds no '[' (as every indicator name does).
pub open spec fn plain_name(name: Seq<char>) -> bool {
    forall|k: int| 0 <= k < name.len() ==> name[k] != '['
}

/// Two indicators with plain names have the same key only when they have the
/// same name and the same parameter text.
pub proof fn lemma_required_key_separates(a: IndicatorModel, b: IndicatorModel)
    requires
        plain_name(a.name),
        plain_name(b.name),
        required_key(a) == required_key(b),
    ensures
        a.name == b.name,
        param_list_text(a) == param_list_text(b),
{
    reveal_strlit("_[");
    reveal_strlit("]");
    let ka = required_key(a);
    let na = a.name.len() as int;
    let nb = b.name.len() as int;
    let pa = param_list_text(a);
    let pb = param_list_text(b);
    assert(ka == a.name + "_["@ + pa + "]"@);
    assert(ka == b.name + "_["@ + pb + "]"@);
    assert(ka[na + 1] == '[');
    assert(ka[nb + 1] == '[');
    if na < nb {
        if na + 1 < nb {
            assert(ka[na + 1] == b.name[na + 1]);
        } else {
            assert(ka[na + 1] == '_');
        }
        assert(false);
    }
    if nb < na {
        if nb + 1 < na {
            assert(ka[nb + 1] == a.name[nb + 1]);
        } else {
            assert(ka[nb + 1] == '_');
        }
        assert(false);
    }
    assert(a.name =~= ka.subrange(0, na));
    assert(b.name =~= ka.subrange(0, nb));
    assert(pa =~= ka.subrange(na + 2, ka.len() - 1));
    assert(pb =~= ka.subrange(nb + 2, ka.len() - 1));
}

/// Every indicator collected is one of the input's.
pub proof fn lemma_first_by_key_from_input(inds: Seq<IndicatorModel>)
    ensures
        forall|j: int| 0 <= j < first_by_key(inds).len() ==> inds.contains(#[trigger] first_by_key(inds)[j]),
    decreases inds.len(),
{
    if inds.len() > 0 {
        let rest = inds.drop_last();
        lemma_first_by_key_from_input(rest);
        let out = first_by_key(inds);
        let earlier = first_by_key(rest);
        assert forall|j: int| 0 <= j < out.len() implies inds.contains(#[trigger] out[j]) by {
            if j < earlier.len() {
                assert(out[j] == earlier[j]);
                let t = choose|t: int| 0 <= t < rest.len() && rest[t] == earlier[j];
                assert(inds[t] == rest[t]);
            } else {
                assert(out[j] == inds[inds.len() - 1]);
            }
        }
    }
}

/// Each indicator collected is the first use of its key, and they come in the
/// order of those first uses: the key of an earlier one is used before any
/// use of the key of a later one.
pub proof fn lemma_first_by_key_first_uses(inds: Seq<IndicatorModel>)
    ensures
        forall|j: int|
            0 <= j < first_by_key(inds).len() ==> exists|t: int|
                0 <= t < inds.len() && #[trigger] first_by_key(inds)[j] == inds[t] && forall|u: int|
                    0 <= u < t ==> required_key(#[trigger] inds[u]) != required_key(inds[t]),
        forall|a: int, b: int, t: int|
            0 <= a < b < first_by_key(inds).len() && 0 <= t < inds.len() && required_key(#[trigger] inds[t])
                == required_key(#[trigger] first_by_key(inds)[b]) ==> exists|u: int|
                0 <= u < t && required_key(#[trigger] inds[u]) == required_key(#[trigger] first_by_key(inds)[a]),
    decreases inds.len(),
{
    if inds.len() > 0 {
        let n = inds.len() - 1;
        let rest = inds.drop_last();
        lemma_first_by_key_first_uses(rest);
        lemma_first_by_key_distinct(rest);
        let earlier = first_by_key(rest);
        let out = first_by_key(inds);
        let last = inds[n];
        assert(inds.last() == last);
        assert forall|u: int| 0 <= u < n implies #[trigger] inds[u] == rest[u] by {}
        let pushed = !has_required_key(earlier, required_key(last));
        if pushed {
            assert forall|u: int| 0 <= u < n implies required_key(#[trigger] inds[u]) != required_key(last) by {
                assert(has_required_key(earlier, required_key(rest[u])));
            }
        }
        assert forall|j: int| 0 <= j < out.len() implies exists|t: int|
            0 <= t < inds.len() && #[trigger] out[j] == inds[t] && forall|u: int|
                0 <= u < t ==> required_key(#[trigger] inds[u]) != required_key(inds[t]) by {
            if j < earlier.len() {
                assert(out[j] == earlier[j]);
                let t = choose|t: int|
                    0 <= t < rest.len() && #[trigger] earlier[j] == rest[t] && forall|u: int|
                        0 <= u < t ==> required_key(#[trigger] rest[u]) != required_key(rest[t]);
                assert(out[j] == inds[t]);
                assert forall|u: int| 0 <= u < t implies required_key(#[trigger] inds[u]) != required_key(inds[t]) by {
                    assert(required_key(rest[u]) != required_key(rest[t]));
                }
            } else {
                assert(out[j] == inds[n]);
            }
        }
        assert forall|a: int, b: int, t: int|
            0 <= a < b < out.len() && 0 <= t < inds.len() && required_key(#[trigger] inds[t]) == required_key(
                #[trigger] out[b],
            ) implies exists|u: int| 0 <= u < t && required_key(#[trigger] inds[u]) == required_key(#[trigger] out[a]) by {
            assert(out[a] == earlier[a]);
            let ta = choose|ta: int|
                0 <= ta < rest.len() && #[trigger] earlier[a] == rest[ta] && forall|u: int|
                    0 <= u < ta ==> required_key(#[trigger] rest[u]) != required_key(rest[ta]);
            if b < earlier.len() {
                assert(out[b] == earlier[b]);
                if t < n {
                    assert(required_key(rest[t]) == required_key(earlier[b]));
                    let u = choose|u: int| 0 <= u < t && required_key(#[trigger] rest[u]) == required_key(#[trigger] earlier[a]);
                    assert(inds[u] == rest[u]);
                } else {
                    let tb = choose|tb: int|
                        0 <= tb < rest.len() && #[trigger] earlier[b] == rest[tb] && forall|u: int|
                            0 <= u < tb ==> required_key(#[trigger] rest[u]) != required_key(rest[tb]);
                    assert(required_key(rest[tb]) == required_key(earlier[b]));
                    let u = choose|u: int| 0 <= u < tb && required_key(#[trigger] rest[u]) == required_key(#[trigger] earlier[a]);
                    assert(inds[u] == rest[u]);
                }
            } else {
                assert(out[b] == last);
                if t < n {
                    assert(required_key(inds[t]) != required_key(last));
                }
                assert(inds[ta] == rest[ta]);
                assert(required_key(inds[ta]) == required_key(out[a]));
            }
        }
    }
}

/// What the indicators needed for a backtest are (the list
/// `collect_required_indicators` returns is `first_by_key` of the strategy's
/// indicators): when every name is plain, each indicator used has one
/// collected with the same name and parameters, no two collected ones share
/// both, and each collected one is used.
pub proof fn lemma_required_indicators_cover(inds: Seq<IndicatorModel>)
    requires
        forall|k: int| 0 <= k < inds.len() ==> plain_name((#[trigger] inds[k]).name),
    ensures
        forall|k: int|
            0 <= k < inds.len() ==> exists|j: int|
                0 <= j < first_by_key(inds).len() && (#[trigger] first_by_key(inds)[j]).name == (#[trigger] inds[k]).name
                    && param_list_text(first_by_key(inds)[j]) == param_list_text(inds[k]),
        forall|a: int, b: int|
            0 <= a < b < first_by_key(inds).len() ==> !((#[trigger] first_by_key(inds)[a]).name == (#[trigger] first_by_key(
                inds,
            )[b]).name && param_list_text(first_by_key(inds)[a]) == param_list_text(first_by_key(inds)[b])),
        forall|j: int| 0 <= j < first_by_key(inds).len() ==> inds.contains(#[trigger] first_by_key(inds)[j]),
{
    lemma_first_by_key_distinct(inds);
    lemma_first_by_key_from_input(inds);
    let out = first_by_key(inds);
    assert forall|j: int| 0 <= j < out.len() implies plain_name((#[trigger] out[j]).name) by {
        assert(inds.contains(out[j]));
        let t = choose|t: int| 0 <= t < inds.len() && inds[t] == out[j];
        assert(plain_name(inds[t].name));
    }
    assert forall|k: int| 0 <= k < inds.len() implies exists|j: int|
        0 <= j < out.len() && (#[trigger] out[j]).name == (#[trigger] inds[k]).name && param_list_text(out[j])
            == param_list_text(inds[k]) by {
        assert(has_required_key(out, required_key(inds[k])));
        let j = choose|j: int| 0 <= j < out.len() && required_key(#[trigger] out[j]) == required_key(inds[k]);
        assert(plain_name(out[j].name));
        lemma_required_key_separates(out[j], inds[k]);
    }
    assert forall|a: int, b: int| 0 <= a < b < out.len() implies !((#[trigger] out[a]).name == (#[trigger] out[b]).name
        && param_list_text(out[a]) == param_list_text(out[b])) by {
        assert(required_key(out[a]) != required_key(out[b]));
    }
}

fn required_key_of(ind: &IndicatorType) -> (r: String)
    ensures
        r@ == required_key(ind@),
{
    let mut s = String::from_str(ind.name.as_str());
    s.append("_[");
    crate::nodes::push_joined(&mut s, &ind.params, true);
    s.append("]");
    s
}

impl PolarsVectorizedBacktestEngine {
    pub fn new() -> (r: Self)
        ensures
            r == PolarsVectorizedBacktestEngine,
    {
        PolarsVectorizedBacktestEngine
    }

    /// The indicators a strategy needs computed: those of its entry and then
    /// its exit conditions (each condition's own, then the compared one),
    /// without repeating a name and parameter list already collected.
    pub fn collect_required_indicators(&self, strategy: &StrategyAST) -> (r: Vec<IndicatorType>)
        ensures
            r@.map_values(|i: IndicatorType| i@) == first_by_key(strategy_indicators(*strategy)),
    {
        let all = strategy.indicator_uses();
        let ghost inds = models(all@);
        let mut out: Vec<IndicatorType> = Vec::new();
        let mut keys: Vec<String> = Vec::new();
        let mut i: usize = 0;
        while i < all.len()
            invariant
                i <= all@.len(),
                inds == models(all@),
                inds == strategy_indicators(*strategy),
                out@.map_values(|x: IndicatorType| x@) == first_by_key(inds.take(i as int)),
                keys@.len() == out@.len(),
                forall|j: int| 0 <= j < keys@.len() ==> #[trigger] keys@[j]@ == required_key(out@[j]@),
            decreases all@.len() - i,
        {
            let ghost earlier = first_by_key(inds.take(i as int));
            proof {
                assert(inds.take(i + 1).drop_last() =~= inds.take(i as int));
                assert(inds.take(i + 1).last() == inds[i as int]);
                assert(inds[i as int] == all@[i as int]@);
            }
            let ind = all[i];
            let key = required_key_of(ind);
            let mut found = false;
            let mut j: usize = 0;
            while j < keys.len()
                invariant
                    j <= keys@.len(),
                    keys@.len() == out@.len(),
                    out@.map_values(|x: IndicatorType| x@) == earlier,
                    forall|t: int| 0 <= t < keys@.len() ==> #[trigger] keys@[t]@ == required_key(out@[t]@),
                    found ==> has_required_key(earlier, key@),
                    !found ==> forall|t: int| 0 <= t < j ==> required_key(#[trigger] earlier[t]) != key@,
                decreases keys@.len() - j,
            {
                proof {
                    assert(earlier[j as int] == out@[j as int]@);
                }
                if keys[j] == key {
                    found = true;
                }
                j = j + 1;
            }
            if !found {
                proof {
                    assert forall|t: int| 0 <= t < earlier.len() implies required_key(#[trigger] earlier[t]) != key@ by {
                        assert(earlier[t] == out@[t]@);
                    }
                }
                let copy = ind.clone();
                out.push(copy);
                keys.push(key);
                proof {
                    assert(out@.map_values(|x: IndicatorType| x@) =~= earlier.push(inds[i as int]));
                }
            }
            i = i + 1;
        }
        proof {
            assert(inds.take(i as int) =~= inds);
        }
        out
    }
}

} // verus!
