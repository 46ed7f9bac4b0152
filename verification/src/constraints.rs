//! Limits on the size of generated and validated strategies.

use vstd::prelude::*;
use crate::text::{decimal, push_usize};

verus! {

/// Limits for strategy generation and validation.
#[derive(Debug, Clone, Copy, PartialEq, Eq, Structural)]
pub struct StrategyConstraints {
    /// Maximum number of conditions (entry + exit)
    pub max_conditions: usize,
    /// Maximum number of distinct indicators
    pub max_indicators: usize,
    /// Maximum number of timeframe categories used
    pub max_timeframes: usize,
}

pub open spec fn constraints(c: usize, i: usize, t: usize) -> StrategyConstraints {
    StrategyConstraints { max_conditions: c, max_indicators: i, max_timeframes: t }
}

/// `a` allows at least everything `b` allows.
pub open spec fn covers(a: StrategyConstraints, b: StrategyConstraints) -> bool {
    a.max_conditions >= b.max_conditions && a.max_indicators >= b.max_indicators && a.max_timeframes
        >= b.max_timeframes
}

pub open spec fn min_usize(a: usize, b: usize) -> usize {
    if a <= b { a } else { b }
}

pub open spec fn max_usize(a: usize, b: usize) -> usize {
    if a >= b { a } else { b }
}

/// Field-wise minimum.
pub open spec fn meet(a: StrategyConstraints, b: StrategyConstraints) -> StrategyConstraints {
    constraints(
        min_usize(a.max_conditions, b.max_conditions),
        min_usize(a.max_indicators, b.max_indicators),
        min_usize(a.max_timeframes, b.max_timeframes),
    )
}

/// Field-wise maximum.
pub open spec fn join_limits(a: StrategyConstraints, b: StrategyConstraints) -> StrategyConstraints {
    constraints(
        max_usize(a.max_conditions, b.max_conditions),
        max_usize(a.max_indicators, b.max_indicators),
        max_usize(a.max_timeframes, b.max_timeframes),
    )
}

/// "StrategyConstraints { conditions: C, indicators: I, timeframes: T }"
pub open spec fn constraints_text(c: StrategyConstraints) -> Seq<char> {
    "StrategyConstraints { conditions: "@ + decimal(c.max_conditions as nat) + ", indicators: "@
        + decimal(c.max_indicators as nat) + ", timeframes: "@ + decimal(c.max_timeframes as nat)
        + " }"@
}

impl StrategyConstraints {
    /// Custom limits.
    pub fn new(max_conditions: usize, max_indicators: usize, max_timeframes: usize) -> (r: Self)
        ensures
            r == constraints(max_conditions, max_indicators, max_timeframes),
    {
        StrategyConstraints { max_conditions, max_indicators, max_timeframes }
    }

    /// Simple single-timeframe strategies: 3 conditions, 2 indicators, 1 timeframe.
    pub fn strict() -> (r: Self)
        ensures
            r == constraints(3, 2, 1),
    {
        StrategyConstraints { max_conditions: 3, max_indicators: 2, max_timeframes: 1 }
    }

    /// Balanced limits: 6 conditions, 4 indicators, 2 timeframes.
    pub fn moderate() -> (r: Self)
        ensures
            r == constraints(6, 4, 2),
    {
        StrategyConstraints { max_conditions: 6, max_indicators: 4, max_timeframes: 2 }
    }

    /// Complex strategies: 10 conditions, 6 indicators, 3 timeframes.
    pub fn relaxed() -> (r: Self)
        ensures
            r == constraints(10, 6, 3),
    {
        StrategyConstraints { max_conditions: 10, max_indicators: 6, max_timeframes: 3 }
    }

    /// Mass screening: 8 conditions, 5 indicators, 3 timeframes.
    pub fn massive_screening() -> (r: Self)
        ensures
            r == constraints(8, 5, 3),
    {
        StrategyConstraints { max_conditions: 8, max_indicators: 5, max_timeframes: 3 }
    }

    /// Live trading: 12 conditions, 8 indicators, 3 timeframes.
    pub fn professional() -> (r: Self)
        ensures
            r == constraints(12, 8, 3),
    {
        StrategyConstraints { max_conditions: 12, max_indicators: 8, max_timeframes: 3 }
    }

    /// Batch backtesting: 6 conditions, 4 indicators, 2 timeframes.
    pub fn backtest_optimization() -> (r: Self)
        ensures
            r == constraints(6, 4, 2),
    {
        StrategyConstraints { max_conditions: 6, max_indicators: 4, max_timeframes: 2 }
    }

    /// Whether more than one timeframe is allowed.
    pub fn allows_multi_timeframe(&self) -> (r: bool)
        ensures
            r == (self.max_timeframes > 1),
    {
        self.max_timeframes > 1
    }

    /// "StrategyConstraints { conditions: C, indicators: I, timeframes: T }"
    pub fn display(&self) -> (r: String)
        ensures
            r@ == constraints_text(*self),
    {
        let mut s = String::from_str("StrategyConstraints { conditions: ");
        push_usize(&mut s, self.max_conditions);
        s.append(", indicators: ");
        push_usize(&mut s, self.max_indicators);
        s.append(", timeframes: ");
        push_usize(&mut s, self.max_timeframes);
        s.append(" }");
        s
    }

    /// Whether every limit of `self` is at least the corresponding limit of `other`.
    pub fn is_compatible_with(&self, other: &Self) -> (r: bool)
        ensures
            r == covers(*self, *other),
    {
        self.max_conditions >= other.max_conditions && self.max_indicators >= other.max_indicators
            && self.max_timeframes >= other.max_timeframes
    }

    /// The stricter of two limits, field by field.
    pub fn intersection(&self, other: &Self) -> (r: Self)
        ensures
            r == meet(*self, *other),
    {
        StrategyConstraints {
            max_conditions: if self.max_conditions <= other.max_conditions { self.max_conditions } else { other.max_conditions },
            max_indicators: if self.max_indicators <= other.max_indicators { self.max_indicators } else { other.max_indicators },
            max_timeframes: if self.max_timeframes <= other.max_timeframes { self.max_timeframes } else { other.max_timeframes },
        }
    }

    /// The looser of two limits, field by field.
    pub fn union(&self, other: &Self) -> (r: Self)
        ensures
            r == join_limits(*self, *other),
    {
        StrategyConstraints {
            max_conditions: if self.max_conditions >= other.max_conditions { self.max_conditions } else { other.max_conditions },
            max_indicators: if self.max_indicators >= other.max_indicators { self.max_indicators } else { other.max_indicators },
            max_timeframes: if self.max_timeframes >= other.max_timeframes { self.max_timeframes } else { other.max_timeframes },
        }
    }
}

impl Default for StrategyConstraints {
    /// The moderate limits.
    fn default() -> (r: Self)
        ensures
            r == constraints(6, 4, 2),
    {
        Self::moderate()
    }
}

/// Compatibility is a partial order: reflexive, antisymmetric and transitive.
pub proof fn lemma_compatibility_partial_order(a: StrategyConstraints, b: StrategyConstraints, c: StrategyConstraints)
    ensures
        covers(a, a),
        covers(a, b) && covers(b, a) ==> a == b,
        covers(a, b) && covers(b, c) ==> covers(a, c),
{
}

/// The intersection is the greatest limit that both limits are compatible
/// with; the union is the least limit compatible with both.
pub proof fn lemma_intersection_union_bounds(a: StrategyConstraints, b: StrategyConstraints, c: StrategyConstraints)
    ensures
        covers(a, meet(a, b)),
        covers(b, meet(a, b)),
        covers(a, c) && covers(b, c) ==> covers(meet(a, b), c),
        covers(join_limits(a, b), a),
        covers(join_limits(a, b), b),
        covers(c, a) && covers(c, b) ==> covers(c, join_limits(a, b)),
{
}

/// Intersection and union are commutative, associative and idempotent, and
/// each absorbs the other.
pub proof fn lemma_intersection_union_lattice(a: StrategyConstraints, b: StrategyConstraints, c: StrategyConstraints)
    ensures
        meet(a, b) == meet(b, a),
        join_limits(a, b) == join_limits(b, a),
        meet(meet(a, b), c) == meet(a, meet(b, c)),
        join_limits(join_limits(a, b), c) == join_limits(a, join_limits(b, c)),
        meet(a, a) == a,
        join_limits(a, a) == a,
        meet(a, join_limits(a, b)) == a,
        join_limits(a, meet(a, b)) == a,
        covers(a, b) <==> meet(a, b) == b,
        covers(a, b) <==> join_limits(a, b) == a,
{
}

/// The presets are ordered: relaxed covers moderate, which covers strict;
/// professional covers mass screening, which covers moderate; the
/// backtest-optimisation preset equals the moderate one.
pub proof fn lemma_presets_ordered()
    ensures
        covers(constraints(10, 6, 3), constraints(6, 4, 2)),
        covers(constraints(6, 4, 2), constraints(3, 2, 1)),
        !covers(constraints(3, 2, 1), constraints(6, 4, 2)),
        !covers(constraints(6, 4, 2), constraints(10, 6, 3)),
        covers(constraints(12, 8, 3), constraints(8, 5, 3)),
        covers(constraints(8, 5, 3), constraints(6, 4, 2)),
{
}

} // verus!
