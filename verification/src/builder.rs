//! Fluent construction of strategies and conditions.

use vstd::prelude::*;
use crate::timeframe::TimeFrame;
use crate::nodes::{
    Comparison, Condition, ConditionModel, ConditionValue, IndicatorModel, IndicatorType,
    LogicalOperator, ParamValue, RuleSet, StrategyAST, TimeframeCategory, ValueModel,
    condition_models, recategorized,
};

verus! {

/// Bit pattern of the double 0.0.
pub const ZERO_BITS: u64 = 0x0000_0000_0000_0000;
/// Bit pattern of the double 1.5.
pub const ONE_AND_HALF_BITS: u64 = 0x3FF8_0000_0000_0000;
/// Bit pattern of the double 30.0.
pub const THIRTY_BITS: u64 = 0x403E_0000_0000_0000;
/// Bit pattern of the double 50.0.
pub const FIFTY_BITS: u64 = 0x4049_0000_0000_0000;
/// Bit pattern of the double 70.0.
pub const SEVENTY_BITS: u64 = 0x4051_8000_0000_0000;

/// Builds a strategy step by step.
pub struct StrategyBuilder {
    strategy: StrategyAST,
}

/// Whether `b` is `a` with `cs` appended to the entry conditions.
pub open spec fn entry_extended(a: StrategyAST, b: StrategyAST, cs: Seq<ConditionModel>) -> bool {
    &&& b.name == a.name
    &&& b.primary_timeframe == a.primary_timeframe
    &&& b.entry_rules.operator == a.entry_rules.operator
    &&& condition_models(b.entry_rules.conditions@) == condition_models(a.entry_rules.conditions@) + cs
    &&& b.exit_rules.operator == a.exit_rules.operator
    &&& condition_models(b.exit_rules.conditions@) == condition_models(a.exit_rules.conditions@)
}

/// Whether `b` is `a` with `cs` appended to the exit conditions.
pub open spec fn exit_extended(a: StrategyAST, b: StrategyAST, cs: Seq<ConditionModel>) -> bool {
    &&& b.name == a.name
    &&& b.primary_timeframe == a.primary_timeframe
    &&& b.entry_rules.operator == a.entry_rules.operator
    &&& condition_models(b.entry_rules.conditions@) == condition_models(a.entry_rules.conditions@)
    &&& b.exit_rules.operator == a.exit_rules.operator
    &&& condition_models(b.exit_rules.conditions@) == condition_models(a.exit_rules.conditions@) + cs
}

/// Whether `b` is `a` with the given operators.
pub open spec fn operators_set(a: StrategyAST, b: StrategyAST, entry: LogicalOperator, exit: LogicalOperator) -> bool {
    &&& b.name == a.name
    &&& b.primary_timeframe == a.primary_timeframe
    &&& b.entry_rules.operator == entry
    &&& condition_models(b.entry_rules.conditions@) == condition_models(a.entry_rules.conditions@)
    &&& b.exit_rules.operator == exit
    &&& condition_models(b.exit_rules.conditions@) == condition_models(a.exit_rules.conditions@)
}

pub open spec fn recategorized_all(cs: Seq<(Condition, TimeframeCategory)>) -> Seq<ConditionModel> {
    cs.map_values(|p: (Condition, TimeframeCategory)| recategorized(p.0@, p.1))
}

fn push_recategorized(target: &mut Vec<Condition>, conditions: Vec<(Condition, TimeframeCategory)>)
    ensures
        condition_models(final(target)@) == condition_models(old(target)@) + recategorized_all(conditions@),
{
    let ghost start = condition_models(target@);
    let ghost all = conditions@;
    let total = conditions.len();
    let mut rest = conditions;
    let mut done: usize = 0;
    while rest.len() > 0
        invariant
            done <= all.len(),
            all.len() == total,
            rest@ == all.subrange(done as int, all.len() as int),
            condition_models(target@) == start + recategorized_all(all.take(done as int)),
        decreases rest.len(),
    {
        proof {
            assert(rest@.len() == all.len() - done);
        }
        let (mut c, cat) = rest.remove(0);
        let ghost before = target@;
        proof {
            assert(all[done as int] == (c, cat));
        }
        let ghost orig = c@;
        c.indicator.timeframe_category = cat;
        target.push(c);
        proof {
            assert(condition_models(target@) =~= condition_models(before).push(recategorized(orig, cat)));
            assert(all.take(done + 1) =~= all.take(done as int).push(all[done as int]));
            assert(recategorized_all(all.take(done + 1)) =~= recategorized_all(all.take(done as int)).push(
                recategorized(orig, cat),
            ));
            assert(rest@ =~= all.subrange(done + 1, all.len() as int));
        }
        done = done + 1;
    }
    proof {
        assert(all.take(done as int) =~= all);
    }
}

impl StrategyBuilder {
    /// The strategy built so far.
    pub closed spec fn built(self) -> StrategyAST {
        self.strategy
    }

    /// A builder for an empty strategy (both operators And).
    pub fn new(name: String, primary_timeframe: TimeFrame) -> (r: Self)
        ensures
            r.built().name == name,
            r.built().primary_timeframe == primary_timeframe,
            r.built().entry_rules.operator == LogicalOperator::And,
            r.built().entry_rules.conditions@.len() == 0,
            r.built().exit_rules.operator == LogicalOperator::And,
            r.built().exit_rules.conditions@.len() == 0,
    {
        StrategyBuilder { strategy: StrategyAST::new(name, primary_timeframe) }
    }

    /// Appends an entry condition as given.
    pub fn add_entry_condition(self, condition: Condition) -> (r: Self)
        ensures
            entry_extended(self.built(), r.built(), seq![condition@]),
    {
        let mut b = self;
        b.strategy.entry_rules.conditions.push(condition);
        proof {
            assert(condition_models(b.strategy.entry_rules.conditions@) =~= condition_models(
                self.strategy.entry_rules.conditions@,
            ) + seq![condition@]);
        }
        b
    }

    /// Appends an entry condition whose indicator is moved to `timeframe_category`.
    pub fn add_entry_condition_with_timeframe(self, condition: Condition, timeframe_category: TimeframeCategory) -> (r: Self)
        ensures
            entry_extended(self.built(), r.built(), seq![recategorized(condition@, timeframe_category)]),
    {
        let mut c = condition;
        c.indicator.timeframe_category = timeframe_category;
        let mut b = self;
        b.strategy.entry_rules.conditions.push(c);
        proof {
            assert(condition_models(b.strategy.entry_rules.conditions@) =~= condition_models(
                self.strategy.entry_rules.conditions@,
            ) + seq![recategorized(condition@, timeframe_category)]);
        }
        b
    }

    /// Appends an exit condition as given.
    pub fn add_exit_condition(self, condition: Condition) -> (r: Self)
        ensures
            exit_extended(self.built(), r.built(), seq![condition@]),
    {
        let mut b = self;
        b.strategy.exit_rules.conditions.push(condition);
        proof {
            assert(condition_models(b.strategy.exit_rules.conditions@) =~= condition_models(
                self.strategy.exit_rules.conditions@,
            ) + seq![condition@]);
        }
        b
    }

    /// Appends an exit condition whose indicator is moved to `timeframe_category`.
    pub fn add_exit_condition_with_timeframe(self, condition: Condition, timeframe_category: TimeframeCategory) -> (r: Self)
        ensures
            exit_extended(self.built(), r.built(), seq![recategorized(condition@, timeframe_category)]),
    {
        let mut c = condition;
        c.indicator.timeframe_category = timeframe_category;
        let mut b = self;
        b.strategy.exit_rules.conditions.push(c);
        proof {
            assert(condition_models(b.strategy.exit_rules.conditions@) =~= condition_models(
                self.strategy.exit_rules.conditions@,
            ) + seq![recategorized(condition@, timeframe_category)]);
        }
        b
    }

    /// Appends entry conditions, each moved to its paired category, in order.
    pub fn add_entry_conditions_multi_tf(self, conditions: Vec<(Condition, TimeframeCategory)>) -> (r: Self)
        ensures
            entry_extended(self.built(), r.built(), recategorized_all(conditions@)),
    {
        let mut b = self;
        push_recategorized(&mut b.strategy.entry_rules.conditions, conditions);
        b
    }

    /// Appends exit conditions, each moved to its paired category, in order.
    pub fn add_exit_conditions_multi_tf(self, conditions: Vec<(Condition, TimeframeCategory)>) -> (r: Self)
        ensures
            exit_extended(self.built(), r.built(), recategorized_all(conditions@)),
    {
        let mut b = self;
        push_recategorized(&mut b.strategy.exit_rules.conditions, conditions);
        b
    }

    /// Sets the operator of the entry rules.
    pub fn entry_operator(self, operator: LogicalOperator) -> (r: Self)
        ensures
            operators_set(self.built(), r.built(), operator, self.built().exit_rules.operator),
    {
        let mut b = self;
        b.strategy.entry_rules.operator = operator;
        b
    }

    /// Sets the operator of the exit rules.
    pub fn exit_operator(self, operator: LogicalOperator) -> (r: Self)
        ensures
            operators_set(self.built(), r.built(), self.built().entry_rules.operator, operator),
    {
        let mut b = self;
        b.strategy.exit_rules.operator = operator;
        b
    }

    /// The strategy built.
    pub fn build(self) -> (r: StrategyAST)
        ensures
            r == self.built(),
    {
        self.strategy
    }
}

} // verus!

verus! {

/// Builds single conditions.
pub struct ConditionBuilder;

/// The model of a condition built from its parts.
pub open spec fn condition_of(
    name: Seq<char>,
    params: Seq<ParamValue>,
    cat: TimeframeCategory,
    comparison: Comparison,
    value: ValueModel,
) -> ConditionModel {
    ConditionModel {
        indicator: IndicatorModel { name, params, category: cat },
        comparison,
        value,
    }
}

/// The model of an indicator built from its parts.
pub open spec fn indicator_of(name: Seq<char>, params: Seq<ParamValue>, cat: TimeframeCategory) -> IndicatorModel {
    IndicatorModel { name, params, category: cat }
}

fn make_condition(name: &str, params: Vec<ParamValue>, cat: TimeframeCategory, comparison: Comparison, value: ConditionValue) -> (r: Condition)
    ensures
        r@ == condition_of(name@, params@, cat, comparison, value@),
{
    Condition { indicator: IndicatorType::new(name, params, cat), comparison, value }
}

impl ConditionBuilder {
    /// indicator > value, indicator in the given category.
    pub fn above_with_timeframe(name: &str, params: Vec<ParamValue>, value: u64, timeframe_category: TimeframeCategory) -> (r: Condition)
        ensures
            r@ == condition_of(name@, params@, timeframe_category, Comparison::GreaterThan, ValueModel::Number(value)),
    {
        make_condition(name, params, timeframe_category, Comparison::GreaterThan, ConditionValue::Number(value))
    }

    /// indicator > value, indicator in the Current category.
    pub fn above(name: &str, params: Vec<ParamValue>, value: u64) -> (r: Condition)
        ensures
            r@ == condition_of(name@, params@, TimeframeCategory::Current, Comparison::GreaterThan, ValueModel::Number(value)),
    {
        Self::above_with_timeframe(name, params, value, TimeframeCategory::Current)
    }

    /// indicator < value, indicator in the given category.
    pub fn below_with_timeframe(name: &str, params: Vec<ParamValue>, value: u64, timeframe_category: TimeframeCategory) -> (r: Condition)
        ensures
            r@ == condition_of(name@, params@, timeframe_category, Comparison::LessThan, ValueModel::Number(value)),
    {
        make_condition(name, params, timeframe_category, Comparison::LessThan, ConditionValue::Number(value))
    }

    /// indicator < value, indicator in the Current category.
    pub fn below(name: &str, params: Vec<ParamValue>, value: u64) -> (r: Condition)
        ensures
            r@ == condition_of(name@, params@, TimeframeCategory::Current, Comparison::LessThan, ValueModel::Number(value)),
    {
        Self::below_with_timeframe(name, params, value, TimeframeCategory::Current)
    }

    /// indicator = value, indicator in the Current category.
    pub fn equals(name: &str, params: Vec<ParamValue>, value: u64) -> (r: Condition)
        ensures
            r@ == condition_of(name@, params@, TimeframeCategory::Current, Comparison::Equals, ValueModel::Number(value)),
    {
        make_condition(name, params, TimeframeCategory::Current, Comparison::Equals, ConditionValue::Number(value))
    }

    /// indicator1 > indicator2, each in its own category.
    pub fn indicator_above_multi_tf(
        name1: &str,
        params1: Vec<ParamValue>,
        timeframe1: TimeframeCategory,
        name2: &str,
        params2: Vec<ParamValue>,
        timeframe2: TimeframeCategory,
    ) -> (r: Condition)
        ensures
            r@ == condition_of(name1@, params1@, timeframe1, Comparison::GreaterThan,
                ValueModel::Indicator(indicator_of(name2@, params2@, timeframe2))),
    {
        let other = IndicatorType::new(name2, params2, timeframe2);
        make_condition(name1, params1, timeframe1, Comparison::GreaterThan, ConditionValue::Indicator(other))
    }

    /// indicator1 > indicator2, both in the Current category.
    pub fn indicator_above(name1: &str, params1: Vec<ParamValue>, name2: &str, params2: Vec<ParamValue>) -> (r: Condition)
        ensures
            r@ == condition_of(name1@, params1@, TimeframeCategory::Current, Comparison::GreaterThan,
                ValueModel::Indicator(indicator_of(name2@, params2@, TimeframeCategory::Current))),
    {
        Self::indicator_above_multi_tf(name1, params1, TimeframeCategory::Current, name2, params2, TimeframeCategory::Current)
    }

    /// indicator1 < indicator2, each in its own category.
    pub fn indicator_below_multi_tf(
        name1: &str,
        params1: Vec<ParamValue>,
        timeframe1: TimeframeCategory,
        name2: &str,
        params2: Vec<ParamValue>,
        timeframe2: TimeframeCategory,
    ) -> (r: Condition)
        ensures
            r@ == condition_of(name1@, params1@, timeframe1, Comparison::LessThan,
                ValueModel::Indicator(indicator_of(name2@, params2@, timeframe2))),
    {
        let other = IndicatorType::new(name2, params2, timeframe2);
        make_condition(name1, params1, timeframe1, Comparison::LessThan, ConditionValue::Indicator(other))
    }

    /// indicator1 < indicator2, both in the Current category.
    pub fn indicator_below(name1: &str, params1: Vec<ParamValue>, name2: &str, params2: Vec<ParamValue>) -> (r: Condition)
        ensures
            r@ == condition_of(name1@, params1@, TimeframeCategory::Current, Comparison::LessThan,
                ValueModel::Indicator(indicator_of(name2@, params2@, TimeframeCategory::Current))),
    {
        Self::indicator_below_multi_tf(name1, params1, TimeframeCategory::Current, name2, params2, TimeframeCategory::Current)
    }

    /// indicator crosses above value, Current category.
    pub fn crosses_above_value(name: &str, params: Vec<ParamValue>, value: u64) -> (r: Condition)
        ensures
            r@ == condition_of(name@, params@, TimeframeCategory::Current, Comparison::CrossesAbove, ValueModel::Number(value)),
    {
        make_condition(name, params, TimeframeCategory::Current, Comparison::CrossesAbove, ConditionValue::Number(value))
    }

    /// indicator crosses below value, Current category.
    pub fn crosses_below_value(name: &str, params: Vec<ParamValue>, value: u64) -> (r: Condition)
        ensures
            r@ == condition_of(name@, params@, TimeframeCategory::Current, Comparison::CrossesBelow, ValueModel::Number(value)),
    {
        make_condition(name, params, TimeframeCategory::Current, Comparison::CrossesBelow, ConditionValue::Number(value))
    }

    /// indicator1 crosses above indicator2, each in its own category.
    pub fn crosses_above_multi_tf(
        name1: &str,
        params1: Vec<ParamValue>,
        timeframe1: TimeframeCategory,
        name2: &str,
        params2: Vec<ParamValue>,
        timeframe2: TimeframeCategory,
    ) -> (r: Condition)
        ensures
            r@ == condition_of(name1@, params1@, timeframe1, Comparison::CrossesAbove,
                ValueModel::Indicator(indicator_of(name2@, params2@, timeframe2))),
    {
        let other = IndicatorType::new(name2, params2, timeframe2);
        make_condition(name1, params1, timeframe1, Comparison::CrossesAbove, ConditionValue::Indicator(other))
    }

    /// indicator1 crosses above indicator2, both Current.
    pub fn crosses_above(name1: &str, params1: Vec<ParamValue>, name2: &str, params2: Vec<ParamValue>) -> (r: Condition)
        ensures
            r@ == condition_of(name1@, params1@, TimeframeCategory::Current, Comparison::CrossesAbove,
                ValueModel::Indicator(indicator_of(name2@, params2@, TimeframeCategory::Current))),
    {
        Self::crosses_above_multi_tf(name1, params1, TimeframeCategory::Current, name2, params2, TimeframeCategory::Current)
    }

    /// indicator1 crosses below indicator2, each in its own category.
    pub fn crosses_below_multi_tf(
        name1: &str,
        params1: Vec<ParamValue>,
        timeframe1: TimeframeCategory,
        name2: &str,
        params2: Vec<ParamValue>,
        timeframe2: TimeframeCategory,
    ) -> (r: Condition)
        ensures
            r@ == condition_of(name1@, params1@, timeframe1, Comparison::CrossesBelow,
                ValueModel::Indicator(indicator_of(name2@, params2@, timeframe2))),
    {
        let other = IndicatorType::new(name2, params2, timeframe2);
        make_condition(name1, params1, timeframe1, Comparison::CrossesBelow, ConditionValue::Indicator(other))
    }

    /// indicator1 crosses below indicator2, both Current.
    pub fn crosses_below(name1: &str, params1: Vec<ParamValue>, name2: &str, params2: Vec<ParamValue>) -> (r: Condition)
        ensures
            r@ == condition_of(name1@, params1@, TimeframeCategory::Current, Comparison::CrossesBelow,
                ValueModel::Indicator(indicator_of(name2@, params2@, TimeframeCategory::Current))),
    {
        Self::crosses_below_multi_tf(name1, params1, TimeframeCategory::Current, name2, params2, TimeframeCategory::Current)
    }

    /// indicator > price, Current category.
    pub fn above_price(name: &str, params: Vec<ParamValue>) -> (r: Condition)
        ensures
            r@ == condition_of(name@, params@, TimeframeCategory::Current, Comparison::GreaterThan, ValueModel::Price),
    {
        make_condition(name, params, TimeframeCategory::Current, Comparison::GreaterThan, ConditionValue::Price)
    }

    /// indicator > price, given category.
    pub fn above_price_with_timeframe(name: &str, params: Vec<ParamValue>, timeframe_category: TimeframeCategory) -> (r: Condition)
        ensures
            r@ == condition_of(name@, params@, timeframe_category, Comparison::GreaterThan, ValueModel::Price),
    {
        make_condition(name, params, timeframe_category, Comparison::GreaterThan, ConditionValue::Price)
    }

    /// indicator < price, Current category.
    pub fn below_price(name: &str, params: Vec<ParamValue>) -> (r: Condition)
        ensures
            r@ == condition_of(name@, params@, TimeframeCategory::Current, Comparison::LessThan, ValueModel::Price),
    {
        make_condition(name, params, TimeframeCategory::Current, Comparison::LessThan, ConditionValue::Price)
    }

    /// indicator < price, given category.
    pub fn below_price_with_timeframe(name: &str, params: Vec<ParamValue>, timeframe_category: TimeframeCategory) -> (r: Condition)
        ensures
            r@ == condition_of(name@, params@, timeframe_category, Comparison::LessThan, ValueModel::Price),
    {
        make_condition(name, params, timeframe_category, Comparison::LessThan, ConditionValue::Price)
    }

    /// Price crosses above the indicator: recorded as the indicator crossing
    /// below the price.
    pub fn price_crosses_above(name: &str, params: Vec<ParamValue>) -> (r: Condition)
        ensures
            r@ == condition_of(name@, params@, TimeframeCategory::Current, Comparison::CrossesBelow, ValueModel::Price),
    {
        make_condition(name, params, TimeframeCategory::Current, Comparison::CrossesBelow, ConditionValue::Price)
    }

    /// Price crosses below the indicator: recorded as the indicator crossing
    /// above the price.
    pub fn price_crosses_below(name: &str, params: Vec<ParamValue>) -> (r: Condition)
        ensures
            r@ == condition_of(name@, params@, TimeframeCategory::Current, Comparison::CrossesAbove, ValueModel::Price),
    {
        make_condition(name, params, TimeframeCategory::Current, Comparison::CrossesAbove, ConditionValue::Price)
    }
}

} // verus!

verus! {

/// Entry conditions of the multi-timeframe golden cross.
pub open spec fn golden_cross_entry(short: ParamValue, long: ParamValue, rsi: ParamValue) -> Seq<ConditionModel> {
    seq![
        condition_of("ema"@, seq![short], TimeframeCategory::Current, Comparison::CrossesAbove,
            ValueModel::Indicator(indicator_of("ema"@, seq![long], TimeframeCategory::Current))),
        condition_of("rsi"@, seq![rsi], TimeframeCategory::Current, Comparison::GreaterThan, ValueModel::Number(FIFTY_BITS)),
        condition_of("ema"@, seq![long], TimeframeCategory::Medium, Comparison::GreaterThan, ValueModel::Number(ZERO_BITS)),
    ]
}

/// Exit conditions of the multi-timeframe golden cross.
pub open spec fn golden_cross_exit(short: ParamValue, long: ParamValue, rsi: ParamValue) -> Seq<ConditionModel> {
    seq![
        condition_of("ema"@, seq![short], TimeframeCategory::Current, Comparison::CrossesBelow,
            ValueModel::Indicator(indicator_of("ema"@, seq![long], TimeframeCategory::Current))),
        condition_of("rsi"@, seq![rsi], TimeframeCategory::Current, Comparison::GreaterThan, ValueModel::Number(SEVENTY_BITS)),
    ]
}

/// Entry conditions of the multi-timeframe mean reversion.
pub open spec fn mean_reversion_entry(rsi: ParamValue, sma: ParamValue) -> Seq<ConditionModel> {
    seq![
        condition_of("rsi"@, seq![rsi], TimeframeCategory::Current, Comparison::LessThan, ValueModel::Number(THIRTY_BITS)),
        condition_of("sma"@, seq![sma], TimeframeCategory::Medium, Comparison::GreaterThan, ValueModel::Price),
        condition_of("volume"@, Seq::empty(), TimeframeCategory::Current, Comparison::GreaterThan, ValueModel::Number(ONE_AND_HALF_BITS)),
    ]
}

/// Exit conditions of the multi-timeframe mean reversion.
pub open spec fn mean_reversion_exit(rsi: ParamValue, sma: ParamValue) -> Seq<ConditionModel> {
    seq![
        condition_of("rsi"@, seq![rsi], TimeframeCategory::Current, Comparison::GreaterThan, ValueModel::Number(FIFTY_BITS)),
        condition_of("sma"@, seq![sma], TimeframeCategory::Medium, Comparison::LessThan, ValueModel::Price),
    ]
}

fn single(p: ParamValue) -> (v: Vec<ParamValue>)
    ensures
        v@ == seq![p],
{
    let v = vec![p];
    proof {
        assert(v@ =~= seq![p]);
    }
    v
}

impl StrategyBuilder {
    /// Golden cross over two timeframes: short EMA crossing the long EMA and
    /// RSI above 50 on the Current timeframe, long EMA above 0 on the Medium
    /// timeframe to enter (all required); short EMA crossing below the long
    /// EMA or RSI above 70 to exit (either suffices). The periods are given as
    /// parameter values.
    pub fn golden_cross_multi_tf(
        name: String,
        primary_timeframe: TimeFrame,
        short_period: ParamValue,
        long_period: ParamValue,
        rsi_period: ParamValue,
    ) -> (r: Self)
        ensures
            r.built().name == name,
            r.built().primary_timeframe == primary_timeframe,
            r.built().entry_rules.operator == LogicalOperator::And,
            condition_models(r.built().entry_rules.conditions@) == golden_cross_entry(short_period, long_period, rsi_period),
            r.built().exit_rules.operator == LogicalOperator::Or,
            condition_models(r.built().exit_rules.conditions@) == golden_cross_exit(short_period, long_period, rsi_period),
            ({
            let e = condition_models(r.built().entry_rules.conditions@);
            &&& e.len() == 3
            &&& e[0].indicator.name == "ema"@ && e[0].indicator.params == seq![short_period]
            &&& e[0].indicator.category == TimeframeCategory::Current && e[0].comparison == Comparison::CrossesAbove
            &&& e[0].value == ValueModel::Indicator((IndicatorModel { name: "ema"@, params: seq![long_period], category: TimeframeCategory::Current }))
            &&& e[1].indicator.name == "rsi"@ && e[1].indicator.params == seq![rsi_period]
            &&& e[1].indicator.category == TimeframeCategory::Current && e[1].comparison == Comparison::GreaterThan
            &&& e[1].value == ValueModel::Number(FIFTY_BITS)
            &&& e[2].indicator.name == "ema"@ && e[2].indicator.params == seq![long_period]
            &&& e[2].indicator.category == TimeframeCategory::Medium && e[2].comparison == Comparison::GreaterThan
            &&& e[2].value == ValueModel::Number(ZERO_BITS)
        }),
            ({
            let x = condition_models(r.built().exit_rules.conditions@);
            &&& x.len() == 2
            &&& x[0].indicator.name == "ema"@ && x[0].indicator.params == seq![short_period]
            &&& x[0].indicator.category == TimeframeCategory::Current && x[0].comparison == Comparison::CrossesBelow
            &&& x[0].value == ValueModel::Indicator((IndicatorModel { name: "ema"@, params: seq![long_period], category: TimeframeCategory::Current }))
            &&& x[1].indicator.name == "rsi"@ && x[1].indicator.params == seq![rsi_period]
            &&& x[1].indicator.category == TimeframeCategory::Current && x[1].comparison == Comparison::GreaterThan
            &&& x[1].value == ValueModel::Number(SEVENTY_BITS)
        }),
    {
        let b = Self::new(name, primary_timeframe);
        let c1 = ConditionBuilder::crosses_above("ema", single(short_period.clone()), "ema", single(long_period.clone()));
        let b = b.add_entry_condition_with_timeframe(c1, TimeframeCategory::Current);
        let c2 = ConditionBuilder::above("rsi", single(rsi_period.clone()), FIFTY_BITS);
        let b = b.add_entry_condition_with_timeframe(c2, TimeframeCategory::Current);
        let c3 = ConditionBuilder::above("ema", single(long_period.clone()), ZERO_BITS);
        let b = b.add_entry_condition_with_timeframe(c3, TimeframeCategory::Medium);
        let c4 = ConditionBuilder::crosses_below("ema", single(short_period), "ema", single(long_period));
        let b = b.add_exit_condition_with_timeframe(c4, TimeframeCategory::Current);
        let c5 = ConditionBuilder::above("rsi", single(rsi_period), SEVENTY_BITS);
        let b = b.add_exit_condition_with_timeframe(c5, TimeframeCategory::Current);
        let b = b.entry_operator(LogicalOperator::And);
        let b = b.exit_operator(LogicalOperator::Or);
        proof {
            assert(condition_models(b.built().entry_rules.conditions@) =~= golden_cross_entry(short_period, long_period, rsi_period));
            assert(condition_models(b.built().exit_rules.conditions@) =~= golden_cross_exit(short_period, long_period, rsi_period));
        }
        b
    }

    /// Mean reversion over two timeframes: RSI below 30 (Current), SMA above
    /// the price (Medium) and volume above 1.5 (Current) to enter (all
    /// required); RSI above 50 (Current) or SMA below the price (Medium) to
    /// exit. The volume period is not used.
    pub fn mean_reversion_multi_tf(
        name: String,
        primary_timeframe: TimeFrame,
        rsi_period: ParamValue,
        sma_period: ParamValue,
        volume_period: ParamValue,
    ) -> (r: Self)
        ensures
            r.built().name == name,
            r.built().primary_timeframe == primary_timeframe,
            r.built().entry_rules.operator == LogicalOperator::And,
            condition_models(r.built().entry_rules.conditions@) == mean_reversion_entry(rsi_period, sma_period),
            r.built().exit_rules.operator == LogicalOperator::Or,
            condition_models(r.built().exit_rules.conditions@) == mean_reversion_exit(rsi_period, sma_period),
            ({
            let e = condition_models(r.built().entry_rules.conditions@);
            &&& e.len() == 3
            &&& e[0].indicator.name == "rsi"@ && e[0].indicator.params == seq![rsi_period]
            &&& e[0].indicator.category == TimeframeCategory::Current && e[0].comparison == Comparison::LessThan
            &&& e[0].value == ValueModel::Number(THIRTY_BITS)
            &&& e[1].indicator.name == "sma"@ && e[1].indicator.params == seq![sma_period]
            &&& e[1].indicator.category == TimeframeCategory::Medium && e[1].comparison == Comparison::GreaterThan
            &&& e[1].value == ValueModel::Price
            &&& e[2].indicator.name == "volume"@ && e[2].indicator.params == Seq::<ParamValue>::empty()
            &&& e[2].indicator.category == TimeframeCategory::Current && e[2].comparison == Comparison::GreaterThan
            &&& e[2].value == ValueModel::Number(ONE_AND_HALF_BITS)
        }),
            ({
            let x = condition_models(r.built().exit_rules.conditions@);
            &&& x.len() == 2
            &&& x[0].indicator.name == "rsi"@ && x[0].indicator.params == seq![rsi_period]
            &&& x[0].indicator.category == TimeframeCategory::Current && x[0].comparison == Comparison::GreaterThan
            &&& x[0].value == ValueModel::Number(FIFTY_BITS)
            &&& x[1].indicator.name == "sma"@ && x[1].indicator.params == seq![sma_period]
            &&& x[1].indicator.category == TimeframeCategory::Medium && x[1].comparison == Comparison::LessThan
            &&& x[1].value == ValueModel::Price
        }),
    {
        let b = Self::new(name, primary_timeframe);
        let c1 = ConditionBuilder::below("rsi", single(rsi_period.clone()), THIRTY_BITS);
        let b = b.add_entry_condition_with_timeframe(c1, TimeframeCategory::Current);
        let c2 = ConditionBuilder::above_price("sma", single(sma_period.clone()));
        let b = b.add_entry_condition_with_timeframe(c2, TimeframeCategory::Medium);
        let c3 = ConditionBuilder::above("volume", Vec::new(), ONE_AND_HALF_BITS);
        let b = b.add_entry_condition_with_timeframe(c3, TimeframeCategory::Current);
        let c4 = ConditionBuilder::above("rsi", single(rsi_period), FIFTY_BITS);
        let b = b.add_exit_condition_with_timeframe(c4, TimeframeCategory::Current);
        let c5 = ConditionBuilder::below_price("sma", single(sma_period));
        let b = b.add_exit_condition_with_timeframe(c5, TimeframeCategory::Medium);
        let b = b.entry_operator(LogicalOperator::And);
        let b = b.exit_operator(LogicalOperator::Or);
        proof {
            assert(condition_models(b.built().entry_rules.conditions@) =~= mean_reversion_entry(rsi_period, sma_period));
            assert(condition_models(b.built().exit_rules.conditions@) =~= mean_reversion_exit(rsi_period, sma_period));
        }
        b
    }
}

} // verus!
