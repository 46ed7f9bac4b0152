//! Limits that keep a strategy's indicators diverse: how many may come from
//! each indicator category, and caps on similarity and complexity scores.
//!
//! Scores are doubles given by their IEEE-754 bit patterns.

use vstd::prelude::*;

verus! {

/// The kind of market behaviour an indicator measures.
#[derive(Debug, Clone, Copy, PartialEq, Eq, Hash, Structural)]
pub enum IndicatorCategory {
    Trend,
    Momentum,
    Volatility,
    Volume,
}

/// 0.7 as a double.
pub const MODERATE_SIMILARITY_BITS: u64 = 0x3FE6_6666_6666_6666;
/// 15.0 as a double.
pub const MODERATE_COMPLEXITY_BITS: u64 = 0x402E_0000_0000_0000;
/// 0.5 as a double.
pub const STRICT_SIMILARITY_BITS: u64 = 0x3FE0_0000_0000_0000;
/// 10.0 as a double.
pub const STRICT_COMPLEXITY_BITS: u64 = 0x4024_0000_0000_0000;
/// 0.85 as a double.
pub const RELAXED_SIMILARITY_BITS: u64 = 0x3FEB_3333_3333_3333;
/// 25.0 as a double.
pub const RELAXED_COMPLEXITY_BITS: u64 = 0x4039_0000_0000_0000;

/// Per-category limits and score caps.
pub struct SemanticConstraints {
    /// Limit per category; a later entry for a category replaces an earlier one.
    pub max_per_category: Vec<(IndicatorCategory, usize)>,
    /// Largest similarity allowed between two indicators (0.0 to 1.0).
    pub max_similarity_score: u64,
    /// Largest complexity score allowed for a strategy.
    pub max_complexity_score: u64,
}

/// The limit the last entry for `c` sets, if any.
pub open spec fn category_limit(entries: Seq<(IndicatorCategory, usize)>, c: IndicatorCategory) -> Option<usize>
    decreases entries.len(),
{
    if entries.len() == 0 {
        None
    } else if entries.last().0 == c {
        Some(entries.last().1)
    } else {
        category_limit(entries.drop_last(), c)
    }
}

/// The limit for `c`: the one set for it, else 1.
pub open spec fn limit_of(entries: Seq<(IndicatorCategory, usize)>, c: IndicatorCategory) -> usize {
    match category_limit(entries, c) {
        Some(n) => n,
        None => 1,
    }
}

/// The limits of a preset: trend, momentum, volume and volatility.
pub open spec fn preset_limits(trend: usize, momentum: usize, volume: usize, volatility: usize) -> Seq<(IndicatorCategory, usize)> {
    seq![
        (IndicatorCategory::Trend, trend),
        (IndicatorCategory::Momentum, momentum),
        (IndicatorCategory::Volume, volume),
        (IndicatorCategory::Volatility, volatility),
    ]
}

fn preset(trend: usize, momentum: usize, volume: usize, volatility: usize) -> (r: Vec<(IndicatorCategory, usize)>)
    ensures
        r@ == preset_limits(trend, momentum, volume, volatility),
{
    let r = vec![
        (IndicatorCategory::Trend, trend),
        (IndicatorCategory::Momentum, momentum),
        (IndicatorCategory::Volume, volume),
        (IndicatorCategory::Volatility, volatility),
    ];
    proof {
        assert(r@ =~= preset_limits(trend, momentum, volume, volatility));
    }
    r
}

impl SemanticConstraints {
    /// Constraints with the given limits and caps.
    pub fn new(
        max_per_category: Vec<(IndicatorCategory, usize)>,
        max_similarity_score: u64,
        max_complexity_score: u64,
    ) -> (r: Self)
        ensures
            r.max_per_category@ == max_per_category@,
            r.max_similarity_score == max_similarity_score,
            r.max_complexity_score == max_complexity_score,
    {
        SemanticConstraints { max_per_category, max_similarity_score, max_complexity_score }
    }

    /// Two trend, two momentum, one volume and one volatility indicator;
    /// similarity up to 0.7, complexity up to 15.
    pub fn moderate() -> (r: Self)
        ensures
            r.max_per_category@ == preset_limits(2, 2, 1, 1),
            r.max_similarity_score == MODERATE_SIMILARITY_BITS,
            r.max_complexity_score == MODERATE_COMPLEXITY_BITS,
    {
        Self::new(preset(2, 2, 1, 1), MODERATE_SIMILARITY_BITS, MODERATE_COMPLEXITY_BITS)
    }

    /// One indicator of each category; similarity up to 0.5, complexity up to 10.
    pub fn strict() -> (r: Self)
        ensures
            r.max_per_category@ == preset_limits(1, 1, 1, 1),
            r.max_similarity_score == STRICT_SIMILARITY_BITS,
            r.max_complexity_score == STRICT_COMPLEXITY_BITS,
    {
        Self::new(preset(1, 1, 1, 1), STRICT_SIMILARITY_BITS, STRICT_COMPLEXITY_BITS)
    }

    /// Three trend, three momentum, two volume and two volatility indicators;
    /// similarity up to 0.85, complexity up to 25.
    pub fn relaxed() -> (r: Self)
        ensures
            r.max_per_category@ == preset_limits(3, 3, 2, 2),
            r.max_similarity_score == RELAXED_SIMILARITY_BITS,
            r.max_complexity_score == RELAXED_COMPLEXITY_BITS,
    {
        Self::new(preset(3, 3, 2, 2), RELAXED_SIMILARITY_BITS, RELAXED_COMPLEXITY_BITS)
    }

    /// Loading a correlation matrix is not implemented yet; it succeeds and
    /// changes nothing.
    pub fn load_correlation_matrix(&mut self) -> (r: Result<(), String>)
        ensures
            r is Ok,
            final(self).max_per_category@ == old(self).max_per_category@,
            final(self).max_similarity_score == old(self).max_similarity_score,
            final(self).max_complexity_score == old(self).max_complexity_score,
    {
        Ok(())
    }

    /// Similarity of two indicators; not measured yet, so always 0.0.
    pub fn calculate_similarity(&self, indicator1: &str, indicator2: &str) -> (r: u64)
        ensures
            r == 0,
    {
        0
    }

    /// Checking a combination of indicators is not implemented yet; every
    /// combination is accepted.
    pub fn validate_indicator_combination(&self, indicators: &[String]) -> (r: Result<(), Vec<String>>)
        ensures
            r is Ok,
    {
        Ok(())
    }

    /// The limit for a category: the last one set for it, else 1.
    pub fn limit_for_category(&self, category: &IndicatorCategory) -> (r: usize)
        ensures
            r == limit_of(self.max_per_category@, *category),
    {
        let entries = &self.max_per_category;
        let mut i: usize = entries.len();
        proof {
            assert(entries@.take(i as int) =~= entries@);
        }
        while i > 0
            invariant
                i <= entries@.len(),
                entries@ == self.max_per_category@,
                category_limit(entries@, *category) == category_limit(entries@.take(i as int), *category),
            decreases i,
        {
            proof {
                assert(entries@.take(i as int).drop_last() =~= entries@.take(i - 1));
            }
            let (c, n) = entries[i - 1];
            proof {
                assert(entries@.take(i as int).last() == entries@[i - 1]);
            }
            if c == *category {
                return n;
            }
            i = i - 1;
        }
        1
    }

    /// Whether a category may be used at all: its limit is above zero.
    pub fn allows_category(&self, category: &IndicatorCategory) -> (r: bool)
        ensures
            r == (limit_of(self.max_per_category@, *category) > 0),
    {
        self.limit_for_category(category) > 0
    }
}

impl Default for SemanticConstraints {
    fn default() -> (r: Self)
        ensures
            r.max_per_category@ == preset_limits(2, 2, 1, 1),
            r.max_similarity_score == MODERATE_SIMILARITY_BITS,
            r.max_complexity_score == MODERATE_COMPLEXITY_BITS,
    {
        Self::moderate()
    }
}

/// The presets tighten in order: every limit and cap of `strict` is at most
/// that of `moderate`, and each of those at most that of `relaxed`; the score
/// caps strictly so.
pub proof fn lemma_semantic_presets_ordered(c: IndicatorCategory)
    ensures
        limit_of(preset_limits(1, 1, 1, 1), c) <= limit_of(preset_limits(2, 2, 1, 1), c),
        limit_of(preset_limits(2, 2, 1, 1), c) <= limit_of(preset_limits(3, 3, 2, 2), c),
        limit_of(preset_limits(1, 1, 1, 1), c) < limit_of(preset_limits(3, 3, 2, 2), c),
        crate::doubles::double_lt(STRICT_SIMILARITY_BITS, MODERATE_SIMILARITY_BITS),
        crate::doubles::double_lt(MODERATE_SIMILARITY_BITS, RELAXED_SIMILARITY_BITS),
        crate::doubles::double_lt(STRICT_COMPLEXITY_BITS, MODERATE_COMPLEXITY_BITS),
        crate::doubles::double_lt(MODERATE_COMPLEXITY_BITS, RELAXED_COMPLEXITY_BITS),
{
    reveal_with_fuel(category_limit, 5);
}

} // verus!
