//! Strategy syntax tree with timeframe categories relative to the strategy's
//! primary timeframe.

use vstd::prelude::*;
use crate::timeframe::{TimeFrame, debug_name, millis, rank};
use crate::text::{decimal, push_usize};

verus! {

/// Timeframe of an indicator relative to the strategy's primary timeframe.
#[derive(Debug, Clone, Copy, PartialEq, Eq, Hash, Structural)]
pub enum TimeframeCategory {
    /// The primary timeframe itself
    Current,
    /// A few times the primary timeframe
    Medium,
    /// Twelve to twenty-four times the primary timeframe
    High,
}

/// The absolute timeframe that a category stands for, given the primary one.
///
/// | Primary | Current | Medium | High |
/// |---------|---------|--------|------|
/// | 1m      | 1m      | 5m     | 1h   |
/// | 5m      | 5m      | 15m    | 1h   |
/// | 15m     | 15m     | 1h     | 4h   |
/// | 30m     | 30m     | 1h     | 4h   |
/// | 1h      | 1h      | 4h     | 1d   |
/// | 4h      | 4h      | 1d     | 1w   |
/// | 1d      | 1d      | 1w     | 1M   |
/// | 1w      | 1w      | 1M     | 1M   |
/// | 1M      | 1M      | 1M     | 1M   |
pub open spec fn absolute_timeframe(cat: TimeframeCategory, primary: TimeFrame) -> TimeFrame {
    match cat {
        TimeframeCategory::Current => primary,
        TimeframeCategory::Medium => match primary {
            TimeFrame::M1 => TimeFrame::M5,
            TimeFrame::M5 => TimeFrame::M15,
            TimeFrame::M15 => TimeFrame::H1,
            TimeFrame::M30 => TimeFrame::H1,
            TimeFrame::H1 => TimeFrame::H4,
            TimeFrame::H4 => TimeFrame::D1,
            TimeFrame::D1 => TimeFrame::W1,
            TimeFrame::W1 => TimeFrame::MN1,
            TimeFrame::MN1 => TimeFrame::MN1,
        },
        TimeframeCategory::High => match primary {
            TimeFrame::M1 => TimeFrame::H1,
            TimeFrame::M5 => TimeFrame::H1,
            TimeFrame::M15 => TimeFrame::H4,
            TimeFrame::M30 => TimeFrame::H4,
            TimeFrame::H1 => TimeFrame::D1,
            TimeFrame::H4 => TimeFrame::W1,
            TimeFrame::D1 => TimeFrame::MN1,
            TimeFrame::W1 => TimeFrame::MN1,
            TimeFrame::MN1 => TimeFrame::MN1,
        },
    }
}

/// The documented mapping table, row by row: Current is the primary
/// timeframe itself, and Medium and High are as listed.
pub proof fn lemma_category_table(primary: TimeFrame)
    ensures
        absolute_timeframe(TimeframeCategory::Current, primary) == primary,
        absolute_timeframe(TimeframeCategory::Medium, TimeFrame::M1) == TimeFrame::M5,
        absolute_timeframe(TimeframeCategory::High, TimeFrame::M1) == TimeFrame::H1,
        absolute_timeframe(TimeframeCategory::Medium, TimeFrame::M5) == TimeFrame::M15,
        absolute_timeframe(TimeframeCategory::High, TimeFrame::M5) == TimeFrame::H1,
        absolute_timeframe(TimeframeCategory::Medium, TimeFrame::M15) == TimeFrame::H1,
        absolute_timeframe(TimeframeCategory::High, TimeFrame::M15) == TimeFrame::H4,
        absolute_timeframe(TimeframeCategory::Medium, TimeFrame::M30) == TimeFrame::H1,
        absolute_timeframe(TimeframeCategory::High, TimeFrame::M30) == TimeFrame::H4,
        absolute_timeframe(TimeframeCategory::Medium, TimeFrame::H1) == TimeFrame::H4,
        absolute_timeframe(TimeframeCategory::High, TimeFrame::H1) == TimeFrame::D1,
        absolute_timeframe(TimeframeCategory::Medium, TimeFrame::H4) == TimeFrame::D1,
        absolute_timeframe(TimeframeCategory::High, TimeFrame::H4) == TimeFrame::W1,
        absolute_timeframe(TimeframeCategory::Medium, TimeFrame::D1) == TimeFrame::W1,
        absolute_timeframe(TimeframeCategory::High, TimeFrame::D1) == TimeFrame::MN1,
        absolute_timeframe(TimeframeCategory::Medium, TimeFrame::W1) == TimeFrame::MN1,
        absolute_timeframe(TimeframeCategory::High, TimeFrame::W1) == TimeFrame::MN1,
        absolute_timeframe(TimeframeCategory::Medium, TimeFrame::MN1) == TimeFrame::MN1,
        absolute_timeframe(TimeframeCategory::High, TimeFrame::MN1) == TimeFrame::MN1,
{
}

/// Medium is the next timeframe above the primary one, 30 minutes left out
/// (MN1 stays MN1): it is above the primary one, and no other timeframe but
/// 30 minutes lies strictly between them.
pub proof fn lemma_medium_is_next_timeframe(primary: TimeFrame, t: TimeFrame)
    ensures
        primary != TimeFrame::MN1 ==> rank(absolute_timeframe(TimeframeCategory::Medium, primary)) > rank(primary),
        primary == TimeFrame::MN1 ==> absolute_timeframe(TimeframeCategory::Medium, primary) == TimeFrame::MN1,
        absolute_timeframe(TimeframeCategory::Medium, primary) != TimeFrame::M30,
        rank(primary) < rank(t) && t != TimeFrame::M30 ==> rank(absolute_timeframe(TimeframeCategory::Medium, primary))
            <= rank(t),
{
}

/// Readable name of a category; also what `{:?}` prints.
pub open spec fn category_name(cat: TimeframeCategory) -> Seq<char> {
    match cat {
        TimeframeCategory::Current => "Current"@,
        TimeframeCategory::Medium => "Medium"@,
        TimeframeCategory::High => "High"@,
    }
}

/// The three categories in ascending order.
pub open spec fn all_categories() -> Seq<TimeframeCategory> {
    seq![TimeframeCategory::Current, TimeframeCategory::Medium, TimeframeCategory::High]
}

impl TimeframeCategory {
    /// All categories: Current, Medium, High.
    pub fn all() -> (r: Vec<TimeframeCategory>)
        ensures
            r@ == all_categories(),
    {
        vec![TimeframeCategory::Current, TimeframeCategory::Medium, TimeframeCategory::High]
    }

    /// The absolute timeframe of this category for the given primary timeframe.
    pub fn to_absolute_timeframe(&self, primary_timeframe: TimeFrame) -> (r: TimeFrame)
        ensures
            r == absolute_timeframe(*self, primary_timeframe),
    {
        match self {
            TimeframeCategory::Current => primary_timeframe,
            TimeframeCategory::Medium => match primary_timeframe {
                TimeFrame::M1 => TimeFrame::M5,
                TimeFrame::M5 => TimeFrame::M15,
                TimeFrame::M15 => TimeFrame::H1,
                TimeFrame::M30 => TimeFrame::H1,
                TimeFrame::H1 => TimeFrame::H4,
                TimeFrame::H4 => TimeFrame::D1,
                TimeFrame::D1 => TimeFrame::W1,
                TimeFrame::W1 => TimeFrame::MN1,
                TimeFrame::MN1 => TimeFrame::MN1,
            },
            TimeframeCategory::High => match primary_timeframe {
                TimeFrame::M1 => TimeFrame::H1,
                TimeFrame::M5 => TimeFrame::H1,
                TimeFrame::M15 => TimeFrame::H4,
                TimeFrame::M30 => TimeFrame::H4,
                TimeFrame::H1 => TimeFrame::D1,
                TimeFrame::H4 => TimeFrame::W1,
                TimeFrame::D1 => TimeFrame::MN1,
                TimeFrame::W1 => TimeFrame::MN1,
                TimeFrame::MN1 => TimeFrame::MN1,
            },
        }
    }

    /// Readable name: "Current", "Medium" or "High".
    pub fn display_name(&self) -> (r: &'static str)
        ensures
            r@ == category_name(*self),
    {
        match self {
            TimeframeCategory::Current => "Current",
            TimeframeCategory::Medium => "Medium",
            TimeframeCategory::High => "High",
        }
    }
}

/// The Current category stands for the primary timeframe itself, and the
/// categories never go down in duration: Current <= Medium <= High.
pub proof fn lemma_categories_ascend(primary: TimeFrame)
    ensures
        absolute_timeframe(TimeframeCategory::Current, primary) == primary,
        millis(absolute_timeframe(TimeframeCategory::Current, primary))
            <= millis(absolute_timeframe(TimeframeCategory::Medium, primary)),
        millis(absolute_timeframe(TimeframeCategory::Medium, primary))
            <= millis(absolute_timeframe(TimeframeCategory::High, primary)),
{
}

/// Medium is strictly longer than Current for every primary timeframe but the
/// month, and High strictly longer than Medium for every primary timeframe but
/// the week and the month; at those the two coincide.
pub proof fn lemma_categories_strictly_ascend(primary: TimeFrame)
    ensures
        primary != TimeFrame::MN1 <==> millis(absolute_timeframe(TimeframeCategory::Current, primary))
            < millis(absolute_timeframe(TimeframeCategory::Medium, primary)),
        (primary != TimeFrame::W1 && primary != TimeFrame::MN1) <==> millis(
            absolute_timeframe(TimeframeCategory::Medium, primary),
        ) < millis(absolute_timeframe(TimeframeCategory::High, primary)),
{
}

/// Logical operator joining the conditions of a rule set.
#[derive(Debug, Clone, Copy, PartialEq, Eq, Structural)]
pub enum LogicalOperator {
    And,
    Or,
}

/// Comparison between an indicator and a value.
#[derive(Debug, Clone, Copy, PartialEq, Eq, Structural)]
pub enum Comparison {
    GreaterThan,
    LessThan,
    CrossesAbove,
    CrossesBelow,
    Equals,
}

/// A numeric indicator parameter: its IEEE-754 double bit pattern, and its
/// renderings as `{:?}`, `{:.1}` and `{:.2}` print the double. The library
/// holds no floating-point numbers, so whoever builds a value supplies the
/// three texts; nothing here ties them to the bits, and the contracts that
/// speak of a parameter's text speak of these fields.
pub struct ParamValue {
    pub bits: u64,
    pub debug_text: String,
    pub one_decimal: String,
    pub two_decimals: String,
}

impl ParamValue {
    /// A parameter from its bit pattern and its three renderings.
    pub fn new(bits: u64, debug_text: String, one_decimal: String, two_decimals: String) -> (r: ParamValue)
        ensures
            r.bits == bits,
            r.debug_text == debug_text,
            r.one_decimal == one_decimal,
            r.two_decimals == two_decimals,
    {
        ParamValue { bits, debug_text, one_decimal, two_decimals }
    }
}

impl Clone for ParamValue {
    fn clone(&self) -> (r: Self)
        ensures
            r == *self,
    {
        ParamValue {
            bits: self.bits,
            debug_text: self.debug_text.clone(),
            one_decimal: self.one_decimal.clone(),
            two_decimals: self.two_decimals.clone(),
        }
    }
}

/// What an indicator is, as the contracts see it.
pub struct IndicatorModel {
    pub name: Seq<char>,
    pub params: Seq<ParamValue>,
    pub category: TimeframeCategory,
}

/// An indicator with its parameters and timeframe category.
pub struct IndicatorType {
    /// Indicator name ("sma", "rsi", "macd", ...)
    pub name: String,
    /// Parameters in order
    pub params: Vec<ParamValue>,
    /// Timeframe category relative to the primary timeframe
    pub timeframe_category: TimeframeCategory,
}

impl View for IndicatorType {
    type V = IndicatorModel;

    open spec fn view(&self) -> IndicatorModel {
        IndicatorModel { name: self.name@, params: self.params@, category: self.timeframe_category }
    }
}

fn clone_params(params: &Vec<ParamValue>) -> (r: Vec<ParamValue>)
    ensures
        r@ == params@,
{
    let r = params.clone();
    proof {
        assert forall|i: int| 0 <= i < params.len() implies r@[i] == params@[i] by {
            assert(vstd::pervasive::cloned::<ParamValue>(params[i], r[i]));
        }
        assert(r@ =~= params@);
    }
    r
}

impl Clone for IndicatorType {
    fn clone(&self) -> (r: Self)
        ensures
            r@ == self@,
    {
        IndicatorType {
            name: self.name.clone(),
            params: clone_params(&self.params),
            timeframe_category: self.timeframe_category,
        }
    }
}

/// `texts` joined with `sep` between consecutive items.
pub open spec fn join(texts: Seq<Seq<char>>, sep: Seq<char>) -> Seq<char>
    decreases texts.len(),
{
    if texts.len() == 0 {
        Seq::empty()
    } else if texts.len() == 1 {
        texts[0]
    } else {
        join(texts.drop_last(), sep) + sep + texts.last()
    }
}

pub open spec fn one_decimal_texts(params: Seq<ParamValue>) -> Seq<Seq<char>> {
    params.map_values(|p: ParamValue| p.one_decimal@)
}

pub open spec fn debug_texts(params: Seq<ParamValue>) -> Seq<Seq<char>> {
    params.map_values(|p: ParamValue| p.debug_text@)
}

/// The parameter list as `display` shows it: empty, or "(a, b, c)".
pub open spec fn params_display(params: Seq<ParamValue>) -> Seq<char> {
    if params.len() == 0 {
        Seq::empty()
    } else {
        "("@ + join(one_decimal_texts(params), ", "@) + ")"@
    }
}

/// "name(params)@Category"
pub open spec fn indicator_display(i: IndicatorModel) -> Seq<char> {
    i.name + params_display(i.params) + "@"@ + category_name(i.category)
}

/// "name(params)@TF", with the absolute timeframe's variant name.
pub open spec fn indicator_display_absolute(i: IndicatorModel, primary: TimeFrame) -> Seq<char> {
    i.name + params_display(i.params) + "@"@ + debug_name(absolute_timeframe(i.category, primary))
}

/// Appends `texts` joined by ", " to `s`.
pub(crate) fn push_joined(s: &mut String, params: &Vec<ParamValue>, use_debug: bool)
    ensures
        final(s)@ == old(s)@ + join(
            if use_debug { debug_texts(params@) } else { one_decimal_texts(params@) },
            ", "@,
        ),
{
    let ghost texts = if use_debug { debug_texts(params@) } else { one_decimal_texts(params@) };
    let ghost start = s@;
    let mut i: usize = 0;
    while i < params.len()
        invariant
            i <= params.len(),
            texts.len() == params@.len(),
            texts == (if use_debug { debug_texts(params@) } else { one_decimal_texts(params@) }),
            s@ == start + join(texts.take(i as int), ", "@),
        decreases params.len() - i,
    {
        let p = &params[i];
        if i > 0 {
            s.append(", ");
        }
        if use_debug {
            s.append(p.debug_text.as_str());
        } else {
            s.append(p.one_decimal.as_str());
        }
        proof {
            assert(texts.take(i + 1).drop_last() =~= texts.take(i as int));
            assert(texts.take(i + 1).last() == texts[i as int]);
            if i == 0 {
                assert(texts.take(0) =~= Seq::<Seq<char>>::empty());
            }
        }
        i = i + 1;
    }
    proof {
        assert(texts.take(params.len() as int) =~= texts);
    }
}

/// Appends the parameter list as `display` shows it.
fn push_params_display(s: &mut String, params: &Vec<ParamValue>)
    ensures
        final(s)@ == old(s)@ + params_display(params@),
{
    if params.len() == 0 {
        proof {
            assert(params_display(params@) =~= Seq::<char>::empty());
        }
    } else {
        s.append("(");
        push_joined(s, params, false);
        s.append(")");
    }
}

impl IndicatorType {
    /// An indicator with the given name, parameters and category.
    pub fn new(name: &str, params: Vec<ParamValue>, timeframe_category: TimeframeCategory) -> (r: IndicatorType)
        ensures
            r@ == (IndicatorModel { name: name@, params: params@, category: timeframe_category }),
    {
        IndicatorType { name: String::from_str(name), params, timeframe_category }
    }

    /// An indicator in the Current category.
    pub fn new_legacy(name: &str, params: Vec<ParamValue>) -> (r: IndicatorType)
        ensures
            r@ == (IndicatorModel { name: name@, params: params@, category: TimeframeCategory::Current }),
    {
        IndicatorType { name: String::from_str(name), params, timeframe_category: TimeframeCategory::Current }
    }

    /// The indicator's name.
    pub fn name(&self) -> (r: &str)
        ensures
            r@ == self.name@,
    {
        self.name.as_str()
    }

    /// The indicator's parameters.
    pub fn params(&self) -> (r: &[ParamValue])
        ensures
            r@ == self.params@,
    {
        self.params.as_slice()
    }

    /// The indicator's timeframe category.
    pub fn timeframe_category(&self) -> (r: TimeframeCategory)
        ensures
            r == self.timeframe_category,
    {
        self.timeframe_category
    }

    /// The absolute timeframe of the indicator for a primary timeframe.
    pub fn absolute_timeframe(&self, primary_timeframe: TimeFrame) -> (r: TimeFrame)
        ensures
            r == absolute_timeframe(self.timeframe_category, primary_timeframe),
    {
        self.timeframe_category.to_absolute_timeframe(primary_timeframe)
    }

    /// Whether the indicator is in the given category.
    pub fn uses_timeframe_category(&self, category: TimeframeCategory) -> (r: bool)
        ensures
            r == (self.timeframe_category == category),
    {
        self.timeframe_category == category
    }

    /// "name(p1, p2)@Category", parameters with one decimal; no brackets when
    /// there are no parameters.
    pub fn display(&self) -> (r: String)
        ensures
            r@ == indicator_display(self@),
    {
        let mut s = String::from_str(self.name.as_str());
        push_params_display(&mut s, &self.params);
        s.append("@");
        s.append(self.timeframe_category.display_name());
        s
    }

    /// "name(p1, p2)@TF" with the absolute timeframe's variant name.
    pub fn display_with_absolute_timeframe(&self, primary_timeframe: TimeFrame) -> (r: String)
        ensures
            r@ == indicator_display_absolute(self@, primary_timeframe),
    {
        let mut s = String::from_str(self.name.as_str());
        push_params_display(&mut s, &self.params);
        s.append("@");
        let tf = self.absolute_timeframe(primary_timeframe);
        s.append(tf.debug_str());
        s
    }
}

} // verus!

verus! {

/// Value an indicator is compared with.
pub enum ConditionValue {
    /// A number, as an IEEE-754 double bit pattern
    Number(u64),
    /// Another indicator
    Indicator(IndicatorType),
    /// The current price
    Price,
}

/// A single condition: indicator, comparison, value.
pub struct Condition {
    pub indicator: IndicatorType,
    pub comparison: Comparison,
    pub value: ConditionValue,
}

/// Conditions joined by a logical operator.
pub struct RuleSet {
    pub operator: LogicalOperator,
    pub conditions: Vec<Condition>,
}

/// A complete strategy: name, primary timeframe, entry and exit rules.
pub struct StrategyAST {
    pub name: String,
    /// Primary timeframe; categories are relative to it
    pub primary_timeframe: TimeFrame,
    pub entry_rules: RuleSet,
    pub exit_rules: RuleSet,
}

/// The indicators a condition uses: its own, then the compared one if any.
pub open spec fn condition_indicators(c: Condition) -> Seq<IndicatorModel> {
    match c.value {
        ConditionValue::Indicator(other) => seq![c.indicator@, other@],
        _ => seq![c.indicator@],
    }
}

/// The indicators of a list of conditions, in order.
pub open spec fn conditions_indicators(cs: Seq<Condition>) -> Seq<IndicatorModel>
    decreases cs.len(),
{
    if cs.len() == 0 {
        Seq::empty()
    } else {
        conditions_indicators(cs.drop_last()) + condition_indicators(cs.last())
    }
}

/// The indicators of a strategy: entry conditions first, then exit conditions.
pub open spec fn strategy_indicators(s: StrategyAST) -> Seq<IndicatorModel> {
    conditions_indicators(s.entry_rules.conditions@) + conditions_indicators(s.exit_rules.conditions@)
}

/// Number of indicators in `inds` with category `cat`.
pub open spec fn count_category(inds: Seq<IndicatorModel>, cat: TimeframeCategory) -> nat
    decreases inds.len(),
{
    if inds.len() == 0 {
        0
    } else {
        count_category(inds.drop_last(), cat) + (if inds.last().category == cat { 1nat } else { 0nat })
    }
}

/// Number of conditions of a strategy.
pub open spec fn complexity_of(s: StrategyAST) -> nat {
    s.entry_rules.conditions@.len() + s.exit_rules.conditions@.len()
}

/// Whether a strategy is small enough that counting its indicators cannot
/// overflow a machine word.
pub open spec fn size_fits(s: StrategyAST) -> bool {
    2 * complexity_of(s) <= usize::MAX
}

/// Whether some indicator of the strategy is in category `cat`.
pub open spec fn uses_category(s: StrategyAST, cat: TimeframeCategory) -> bool {
    count_category(strategy_indicators(s), cat) > 0
}

/// The categories a strategy uses, in ascending order, each once.
pub open spec fn used_categories(s: StrategyAST) -> Seq<TimeframeCategory> {
    (if uses_category(s, TimeframeCategory::Current) { seq![TimeframeCategory::Current] } else { Seq::empty() })
    + (if uses_category(s, TimeframeCategory::Medium) { seq![TimeframeCategory::Medium] } else { Seq::empty() })
    + (if uses_category(s, TimeframeCategory::High) { seq![TimeframeCategory::High] } else { Seq::empty() })
}

/// Each used category with its absolute timeframe.
pub open spec fn category_mapping(s: StrategyAST) -> Seq<(TimeframeCategory, TimeFrame)> {
    used_categories(s).map_values(
        |c: TimeframeCategory| (c, absolute_timeframe(c, s.primary_timeframe)),
    )
}

/// Each used category with the number of indicators in it.
pub open spec fn category_stats(s: StrategyAST) -> Seq<(TimeframeCategory, nat)> {
    used_categories(s).map_values(
        |c: TimeframeCategory| (c, count_category(strategy_indicators(s), c)),
    )
}

pub proof fn lemma_conditions_indicators_len(cs: Seq<Condition>)
    ensures
        cs.len() <= conditions_indicators(cs).len() <= 2 * cs.len(),
    decreases cs.len(),
{
    if cs.len() > 0 {
        lemma_conditions_indicators_len(cs.drop_last());
    }
}

pub proof fn lemma_count_category_bound(inds: Seq<IndicatorModel>, cat: TimeframeCategory)
    ensures
        count_category(inds, cat) <= inds.len(),
    decreases inds.len(),
{
    if inds.len() > 0 {
        lemma_count_category_bound(inds.drop_last(), cat);
    }
}

pub proof fn lemma_count_category_append(a: Seq<IndicatorModel>, b: Seq<IndicatorModel>, cat: TimeframeCategory)
    ensures
        count_category(a + b, cat) == count_category(a, cat) + count_category(b, cat),
    decreases b.len(),
{
    if b.len() == 0 {
        assert(a + b =~= a);
    } else {
        lemma_count_category_append(a, b.drop_last(), cat);
        assert((a + b).drop_last() =~= a + b.drop_last());
    }
}

/// The three categories' counts add up to the number of indicators.
pub proof fn lemma_count_categories_total(inds: Seq<IndicatorModel>)
    ensures
        count_category(inds, TimeframeCategory::Current) + count_category(inds, TimeframeCategory::Medium)
            + count_category(inds, TimeframeCategory::High) == inds.len(),
    decreases inds.len(),
{
    if inds.len() > 0 {
        lemma_count_categories_total(inds.drop_last());
    }
}

} // verus!

verus! {

/// The models of a list of indicator references.
pub open spec fn models(v: Seq<&IndicatorType>) -> Seq<IndicatorModel> {
    v.map_values(|i: &IndicatorType| i@)
}

/// An indicator's identity: its name, its parameters as `{:?}` prints them
/// and its category, as "name([p1, p2])@Category".
pub open spec fn identity_text(i: IndicatorModel) -> Seq<char> {
    i.name + "(["@ + join(debug_texts(i.params), ", "@) + "])@"@ + category_name(i.category)
}

/// Whether some indicator of `inds` has the identity `k`.
pub open spec fn has_identity(inds: Seq<IndicatorModel>, k: Seq<char>) -> bool {
    exists|j: int| 0 <= j < inds.len() && identity_text(#[trigger] inds[j]) == k
}

/// The indicators of `inds` whose identity did not occur before, in order.
pub open spec fn distinct_indicators(inds: Seq<IndicatorModel>) -> Seq<IndicatorModel>
    decreases inds.len(),
{
    if inds.len() == 0 {
        Seq::empty()
    } else {
        let earlier = distinct_indicators(inds.drop_last());
        if has_identity(earlier, identity_text(inds.last())) {
            earlier
        } else {
            earlier.push(inds.last())
        }
    }
}

/// The unique indicators a strategy uses, in order of first use.
pub open spec fn unique_indicators(s: StrategyAST) -> Seq<IndicatorModel> {
    distinct_indicators(strategy_indicators(s))
}

/// Each distinct indicator is the first use of its identity, and they come in
/// the order of those first uses: the identity of an earlier one is used before
/// any use of the identity of a later one.
pub proof fn lemma_distinct_indicators_first_uses(inds: Seq<IndicatorModel>)
    ensures
        forall|j: int|
            0 <= j < distinct_indicators(inds).len() ==> exists|t: int|
                0 <= t < inds.len() && #[trigger] distinct_indicators(inds)[j] == inds[t] && forall|u: int|
                    0 <= u < t ==> identity_text(#[trigger] inds[u]) != identity_text(inds[t]),
        forall|a: int, b: int, t: int|
            0 <= a < b < distinct_indicators(inds).len() && 0 <= t < inds.len() && identity_text(#[trigger] inds[t])
                == identity_text(#[trigger] distinct_indicators(inds)[b]) ==> exists|u: int|
                0 <= u < t && identity_text(#[trigger] inds[u]) == identity_text(#[trigger] distinct_indicators(inds)[a]),
    decreases inds.len(),
{
    if inds.len() > 0 {
        let n = inds.len() - 1;
        let rest = inds.drop_last();
        lemma_distinct_indicators_first_uses(rest);
        lemma_distinct_indicators(rest);
        let earlier = distinct_indicators(rest);
        let out = distinct_indicators(inds);
        let last = inds[n];
        assert(inds.last() == last);
        assert forall|u: int| 0 <= u < n implies #[trigger] inds[u] == rest[u] by {}
        let pushed = !has_identity(earlier, identity_text(last));
        if pushed {
            assert forall|u: int| 0 <= u < n implies identity_text(#[trigger] inds[u]) != identity_text(last) by {
                assert(has_identity(earlier, identity_text(rest[u])));
            }
        }
        assert forall|j: int| 0 <= j < out.len() implies exists|t: int|
            0 <= t < inds.len() && #[trigger] out[j] == inds[t] && forall|u: int|
                0 <= u < t ==> identity_text(#[trigger] inds[u]) != identity_text(inds[t]) by {
            if j < earlier.len() {
                assert(out[j] == earlier[j]);
                let t = choose|t: int|
                    0 <= t < rest.len() && #[trigger] earlier[j] == rest[t] && forall|u: int|
                        0 <= u < t ==> identity_text(#[trigger] rest[u]) != identity_text(rest[t]);
                assert(out[j] == inds[t]);
                assert forall|u: int| 0 <= u < t implies identity_text(#[trigger] inds[u]) != identity_text(inds[t]) by {
                    assert(identity_text(rest[u]) != identity_text(rest[t]));
                }
            } else {
                assert(out[j] == inds[n]);
            }
        }
        assert forall|a: int, b: int, t: int|
            0 <= a < b < out.len() && 0 <= t < inds.len() && identity_text(#[trigger] inds[t]) == identity_text(
                #[trigger] out[b],
            ) implies exists|u: int| 0 <= u < t && identity_text(#[trigger] inds[u]) == identity_text(#[trigger] out[a]) by {
            assert(out[a] == earlier[a]);
            let ta = choose|ta: int|
                0 <= ta < rest.len() && #[trigger] earlier[a] == rest[ta] && forall|u: int|
                    0 <= u < ta ==> identity_text(#[trigger] rest[u]) != identity_text(rest[ta]);
            if b < earlier.len() {
                assert(out[b] == earlier[b]);
                if t < n {
                    assert(identity_text(rest[t]) == identity_text(earlier[b]));
                    let u = choose|u: int| 0 <= u < t && identity_text(#[trigger] rest[u]) == identity_text(#[trigger] earlier[a]);
                    assert(inds[u] == rest[u]);
                } else {
                    let tb = choose|tb: int|
                        0 <= tb < rest.len() && #[trigger] earlier[b] == rest[tb] && forall|u: int|
                            0 <= u < tb ==> identity_text(#[trigger] rest[u]) != identity_text(rest[tb]);
                    assert(identity_text(rest[tb]) == identity_text(earlier[b]));
                    let u = choose|u: int| 0 <= u < tb && identity_text(#[trigger] rest[u]) == identity_text(#[trigger] earlier[a]);
                    assert(inds[u] == rest[u]);
                }
            } else {
                assert(out[b] == last);
                if t < n {
                    assert(identity_text(inds[t]) != identity_text(last));
                }
                assert(inds[ta] == rest[ta]);
                assert(identity_text(inds[ta]) == identity_text(out[a]));
            }
        }
    }
}

/// The distinct indicators have pairwise different identities, every
/// identity of the input occurs among them, and each of them is one of the
/// input's.
pub proof fn lemma_distinct_indicators(inds: Seq<IndicatorModel>)
    ensures
        forall|a: int, b: int|
            0 <= a < b < distinct_indicators(inds).len() ==> identity_text(#[trigger] distinct_indicators(inds)[a])
                != identity_text(#[trigger] distinct_indicators(inds)[b]),
        forall|k: int| 0 <= k < inds.len() ==> has_identity(distinct_indicators(inds), identity_text(#[trigger] inds[k])),
        forall|k: int| 0 <= k < distinct_indicators(inds).len() ==> inds.contains(#[trigger] distinct_indicators(inds)[k]),
        distinct_indicators(inds).len() <= inds.len(),
    decreases inds.len(),
{
    if inds.len() > 0 {
        let rest = inds.drop_last();
        lemma_distinct_indicators(rest);
        let earlier = distinct_indicators(rest);
        let out = distinct_indicators(inds);
        assert forall|k: int| 0 <= k < inds.len() implies has_identity(out, identity_text(#[trigger] inds[k])) by {
            if k < rest.len() {
                assert(rest[k] == inds[k]);
                assert(has_identity(earlier, identity_text(rest[k])));
                let j = choose|j: int| 0 <= j < earlier.len() && identity_text(#[trigger] earlier[j]) == identity_text(rest[k]);
                assert(out[j] == earlier[j]);
            } else if !has_identity(earlier, identity_text(inds.last())) {
                assert(out[earlier.len() as int] == inds.last());
            }
        }
        assert forall|k: int| 0 <= k < out.len() implies inds.contains(#[trigger] out[k]) by {
            if k < earlier.len() {
                assert(out[k] == earlier[k]);
                assert(rest.contains(earlier[k]));
                let w = choose|w: int| 0 <= w < rest.len() && rest[w] == earlier[k];
                assert(inds[w] == rest[w]);
            } else {
                assert(out[k] == inds[inds.len() - 1]);
            }
        }
    }
}

/// The identity text of an indicator.
pub(crate) fn identity_key(ind: &IndicatorType) -> (r: String)
    ensures
        r@ == identity_text(ind@),
{
    let mut s = String::from_str(ind.name.as_str());
    s.append("([");
    push_joined(&mut s, &ind.params, true);
    s.append("])@");
    s.append(ind.timeframe_category.display_name());
    s
}

fn push_condition_indicators<'a>(out: &mut Vec<&'a IndicatorType>, conds: &'a Vec<Condition>)
    ensures
        models(final(out)@) == models(old(out)@) + conditions_indicators(conds@),
{
    let ghost start = models(out@);
    let mut i: usize = 0;
    while i < conds.len()
        invariant
            i <= conds.len(),
            models(out@) == start + conditions_indicators(conds@.take(i as int)),
        decreases conds.len() - i,
    {
        let c = &conds[i];
        proof {
            assert(conds@.take(i + 1).drop_last() =~= conds@.take(i as int));
            assert(conds@.take(i + 1).last() == *c);
        }
        let ghost before = out@;
        out.push(&c.indicator);
        proof {
            assert(models(out@) =~= models(before).push(c.indicator@));
        }
        match &c.value {
            ConditionValue::Indicator(other) => {
                let ghost mid = out@;
                out.push(other);
                proof {
                    assert(models(out@) =~= models(mid).push(other@));
                    assert(condition_indicators(*c) =~= seq![c.indicator@, other@]);
                    assert(models(out@) =~= start + conditions_indicators(conds@.take(i + 1)));
                }
            },
            _ => {
                proof {
                    assert(condition_indicators(*c) =~= seq![c.indicator@]);
                    assert(models(out@) =~= start + conditions_indicators(conds@.take(i + 1)));
                }
            },
        }
        i = i + 1;
    }
    proof {
        assert(conds@.take(conds.len() as int) =~= conds@);
    }
}

/// Counts per category of the indicators in `inds`.
fn category_counts(inds: &Vec<&IndicatorType>) -> (r: (usize, usize, usize))
    ensures
        r.0 == count_category(models(inds@), TimeframeCategory::Current),
        r.1 == count_category(models(inds@), TimeframeCategory::Medium),
        r.2 == count_category(models(inds@), TimeframeCategory::High),
{
    let mut current: usize = 0;
    let mut medium: usize = 0;
    let mut high: usize = 0;
    let mut i: usize = 0;
    while i < inds.len()
        invariant
            i <= inds.len(),
            current == count_category(models(inds@).take(i as int), TimeframeCategory::Current),
            medium == count_category(models(inds@).take(i as int), TimeframeCategory::Medium),
            high == count_category(models(inds@).take(i as int), TimeframeCategory::High),
            current + medium + high == i,
        decreases inds.len() - i,
    {
        proof {
            assert(models(inds@).take(i + 1).drop_last() =~= models(inds@).take(i as int));
        }
        match inds[i].timeframe_category {
            TimeframeCategory::Current => { current = current + 1; },
            TimeframeCategory::Medium => { medium = medium + 1; },
            TimeframeCategory::High => { high = high + 1; },
        }
        i = i + 1;
    }
    proof {
        assert(models(inds@).take(inds.len() as int) =~= models(inds@));
    }
    (current, medium, high)
}

impl StrategyAST {
    /// An empty strategy: both rule sets joined by And, without conditions.
    pub fn new(name: String, primary_timeframe: TimeFrame) -> (r: StrategyAST)
        ensures
            r.name == name,
            r.primary_timeframe == primary_timeframe,
            r.entry_rules.operator == LogicalOperator::And,
            r.entry_rules.conditions@.len() == 0,
            r.exit_rules.operator == LogicalOperator::And,
            r.exit_rules.conditions@.len() == 0,
    {
        StrategyAST {
            name,
            primary_timeframe,
            entry_rules: RuleSet { operator: LogicalOperator::And, conditions: Vec::new() },
            exit_rules: RuleSet { operator: LogicalOperator::And, conditions: Vec::new() },
        }
    }

    /// Number of conditions, entry and exit together.
    pub fn complexity(&self) -> (r: usize)
        requires
            size_fits(*self),
        ensures
            r == complexity_of(*self),
    {
        self.entry_rules.conditions.len() + self.exit_rules.conditions.len()
    }

    /// Every indicator the strategy uses, with repetitions: for each entry
    /// condition its indicator and then the compared indicator if any, then
    /// the same for the exit conditions.
    pub(crate) fn indicator_uses(&self) -> (r: Vec<&IndicatorType>)
        ensures
            models(r@) == strategy_indicators(*self),
    {
        let mut out: Vec<&IndicatorType> = Vec::new();
        proof {
            assert(models(out@) =~= Seq::<IndicatorModel>::empty());
        }
        push_condition_indicators(&mut out, &self.entry_rules.conditions);
        push_condition_indicators(&mut out, &self.exit_rules.conditions);
        proof {
            assert(models(out@) =~= strategy_indicators(*self));
        }
        out
    }

    /// The unique indicators of the strategy, in order of first use (entry
    /// conditions, then exit conditions; each condition's indicator before the
    /// one it is compared with). Two indicators are the same when they have
    /// the same name, the same parameters as `{:?}` prints them and the same
    /// category.
    pub fn all_indicators(&self) -> (r: Vec<&IndicatorType>)
        ensures
            models(r@) == unique_indicators(*self),
            forall|a: int, b: int|
                0 <= a < b < r@.len() ==> identity_text(#[trigger] r@[a]@) != identity_text(#[trigger] r@[b]@),
            forall|k: int|
                0 <= k < strategy_indicators(*self).len() ==> has_identity(
                    models(r@),
                    identity_text(#[trigger] strategy_indicators(*self)[k]),
                ),
            forall|k: int| 0 <= k < r@.len() ==> strategy_indicators(*self).contains(#[trigger] r@[k]@),
    {
        let uses = self.indicator_uses();
        let ghost inds = models(uses@);
        let mut out: Vec<&IndicatorType> = Vec::new();
        let mut keys: Vec<String> = Vec::new();
        let mut i: usize = 0;
        while i < uses.len()
            invariant
                i <= uses@.len(),
                inds == models(uses@),
                inds == strategy_indicators(*self),
                models(out@) == distinct_indicators(inds.take(i as int)),
                keys@.len() == out@.len(),
                forall|j: int| 0 <= j < keys@.len() ==> #[trigger] keys@[j]@ == identity_text(out@[j]@),
            decreases uses@.len() - i,
        {
            let ghost earlier = distinct_indicators(inds.take(i as int));
            proof {
                assert(inds.take(i + 1).drop_last() =~= inds.take(i as int));
                assert(inds.take(i + 1).last() == inds[i as int]);
                assert(inds[i as int] == uses@[i as int]@);
            }
            let ind = uses[i];
            let key = identity_key(ind);
            let mut found = false;
            let mut j: usize = 0;
            while j < keys.len()
                invariant
                    j <= keys@.len(),
                    keys@.len() == out@.len(),
                    models(out@) == earlier,
                    forall|t: int| 0 <= t < keys@.len() ==> #[trigger] keys@[t]@ == identity_text(out@[t]@),
                    found ==> has_identity(earlier, key@),
                    !found ==> forall|t: int| 0 <= t < j ==> identity_text(#[trigger] earlier[t]) != key@,
                decreases keys@.len() - j,
            {
                proof {
                    assert(earlier[j as int] == out@[j as int]@);
                }
                if keys[j] == key {
                    found = true;
                }
                j = j + 1;
            }
            if !found {
                proof {
                    assert forall|t: int| 0 <= t < earlier.len() implies identity_text(#[trigger] earlier[t]) != key@ by {
                        assert(earlier[t] == out@[t]@);
                    }
                }
                out.push(ind);
                keys.push(key);
                proof {
                    assert(models(out@) =~= earlier.push(inds[i as int]));
                }
            }
            i = i + 1;
        }
        proof {
            assert(inds.take(i as int) =~= inds);
            lemma_distinct_indicators(inds);
            assert forall|a: int, b: int| 0 <= a < b < out@.len() implies identity_text(#[trigger] out@[a]@)
                != identity_text(#[trigger] out@[b]@) by {
                assert(models(out@)[a] == out@[a]@);
                assert(models(out@)[b] == out@[b]@);
            }
            assert forall|k: int| 0 <= k < out@.len() implies inds.contains(#[trigger] out@[k]@) by {
                assert(models(out@)[k] == out@[k]@);
            }
        }
        out
    }

    /// Counts of indicators per category (Current, Medium, High).
    pub(crate) fn counts(&self) -> (r: (usize, usize, usize))
        ensures
            r.0 == count_category(strategy_indicators(*self), TimeframeCategory::Current),
            r.1 == count_category(strategy_indicators(*self), TimeframeCategory::Medium),
            r.2 == count_category(strategy_indicators(*self), TimeframeCategory::High),
    {
        let inds = self.indicator_uses();
        category_counts(&inds)
    }

    /// The categories the strategy uses, in ascending order, each once.
    pub fn used_timeframe_categories(&self) -> (r: Vec<TimeframeCategory>)
        ensures
            r@ == used_categories(*self),
    {
        let (c, m, h) = self.counts();
        let mut r: Vec<TimeframeCategory> = Vec::new();
        if c > 0 {
            r.push(TimeframeCategory::Current);
        }
        if m > 0 {
            r.push(TimeframeCategory::Medium);
        }
        if h > 0 {
            r.push(TimeframeCategory::High);
        }
        proof {
            assert(r@ =~= used_categories(*self));
        }
        r
    }

    /// Each used category with its absolute timeframe, in ascending category order.
    pub fn timeframe_mapping(&self) -> (r: Vec<(TimeframeCategory, TimeFrame)>)
        ensures
            r@ == category_mapping(*self),
    {
        let cats = self.used_timeframe_categories();
        let mut r: Vec<(TimeframeCategory, TimeFrame)> = Vec::new();
        let mut i: usize = 0;
        while i < cats.len()
            invariant
                i <= cats.len(),
                cats@ == used_categories(*self),
                r@ == cats@.take(i as int).map_values(
                    |c: TimeframeCategory| (c, absolute_timeframe(c, self.primary_timeframe)),
                ),
            decreases cats.len() - i,
        {
            let c = cats[i];
            r.push((c, c.to_absolute_timeframe(self.primary_timeframe)));
            proof {
                assert(r@ =~= cats@.take(i + 1).map_values(
                    |c: TimeframeCategory| (c, absolute_timeframe(c, self.primary_timeframe)),
                ));
            }
            i = i + 1;
        }
        proof {
            assert(cats@.take(cats.len() as int) =~= cats@);
        }
        r
    }

    /// Whether the strategy uses more than one category.
    pub fn is_multi_timeframe(&self) -> (r: bool)
        ensures
            r == (used_categories(*self).len() > 1),
    {
        self.used_timeframe_categories().len() > 1
    }

    /// Number of categories the strategy uses.
    pub fn timeframe_count(&self) -> (r: usize)
        ensures
            r == used_categories(*self).len(),
    {
        self.used_timeframe_categories().len()
    }

    /// Each used category with the number of its indicators, in ascending
    /// category order.
    pub fn indicator_stats_by_timeframe(&self) -> (r: Vec<(TimeframeCategory, usize)>)
        ensures
            r@.len() == category_stats(*self).len(),
            forall|i: int|
                0 <= i < r@.len() ==> r@[i].0 == (#[trigger] category_stats(*self)[i]).0 && r@[i].1
                    == category_stats(*self)[i].1,
    {
        let (c, m, h) = self.counts();
        let mut r: Vec<(TimeframeCategory, usize)> = Vec::new();
        if c > 0 {
            r.push((TimeframeCategory::Current, c));
        }
        if m > 0 {
            r.push((TimeframeCategory::Medium, m));
        }
        if h > 0 {
            r.push((TimeframeCategory::High, h));
        }
        r
    }
}

} // verus!

verus! {

/// "Category@TF(count) " for one used category.
pub open spec fn stat_entry_text(s: StrategyAST, c: TimeframeCategory) -> Seq<char> {
    entry_text(c, s.primary_timeframe, count_category(strategy_indicators(s), c))
}

/// "Category@TF(n) " for a category, a primary timeframe and a count.
pub open spec fn entry_text(c: TimeframeCategory, primary: TimeFrame, n: nat) -> Seq<char> {
    category_name(c) + "@"@ + debug_name(absolute_timeframe(c, primary)) + "("@ + decimal(n) + ") "@
}

/// The category line for the given counts of Current, Medium and High indicators.
pub open spec fn timeframes_line(primary: TimeFrame, cur: nat, med: nat, high: nat) -> Seq<char> {
    if (if cur > 0 { 1int } else { 0int }) + (if med > 0 { 1int } else { 0int }) + (if high > 0 { 1int } else { 0int }) > 1 {
        "Multi-timeframe: "@ + (if cur > 0 { entry_text(TimeframeCategory::Current, primary, cur) } else { Seq::empty() })
            + (if med > 0 { entry_text(TimeframeCategory::Medium, primary, med) } else { Seq::empty() })
            + (if high > 0 { entry_text(TimeframeCategory::High, primary, high) } else { Seq::empty() }) + "\n"@
    } else {
        "Single timeframe\n"@
    }
}

proof fn lemma_summary_timeframes_counts(s: StrategyAST)
    ensures
        summary_timeframes(s) == timeframes_line(
            s.primary_timeframe,
            count_category(strategy_indicators(s), TimeframeCategory::Current),
            count_category(strategy_indicators(s), TimeframeCategory::Medium),
            count_category(strategy_indicators(s), TimeframeCategory::High),
        ),
{
    lemma_used_categories_len(s);
}

/// The stat entry of a category when the strategy uses it, else nothing.
pub open spec fn entry_if_used(s: StrategyAST, c: TimeframeCategory) -> Seq<char> {
    if uses_category(s, c) {
        stat_entry_text(s, c)
    } else {
        Seq::empty()
    }
}

/// The stat entries of the used categories, in ascending category order.
pub open spec fn category_entries(s: StrategyAST) -> Seq<char> {
    entry_if_used(s, TimeframeCategory::Current) + entry_if_used(s, TimeframeCategory::Medium) + entry_if_used(
        s,
        TimeframeCategory::High,
    )
}

/// The summary `display_summary` renders.
pub open spec fn summary_text(s: StrategyAST) -> Seq<char> {
    summary_header(s) + summary_timeframes(s) + summary_complexity(s)
}

proof fn lemma_used_categories_len(s: StrategyAST)
    ensures
        used_categories(s).len() == (if uses_category(s, TimeframeCategory::Current) { 1int } else { 0int }) + (
        if uses_category(s, TimeframeCategory::Medium) { 1int } else { 0int }) + (if uses_category(
            s,
            TimeframeCategory::High,
        ) { 1int } else { 0int }),
{
}

/// "Strategy: name (Primary: TF)" and a line break.
pub open spec fn summary_header(s: StrategyAST) -> Seq<char> {
    "Strategy: "@ + s.name@ + " (Primary: "@ + debug_name(s.primary_timeframe) + ")\n"@
}

/// The category line: each used category's entry when there are several.
pub open spec fn summary_timeframes(s: StrategyAST) -> Seq<char> {
    if used_categories(s).len() > 1 {
        "Multi-timeframe: "@ + category_entries(s) + "\n"@
    } else {
        "Single timeframe\n"@
    }
}

/// "Complexity: n conditions (e entry, x exit)".
pub open spec fn summary_complexity(s: StrategyAST) -> Seq<char> {
    "Complexity: "@ + decimal(complexity_of(s)) + " conditions ("@ + decimal(s.entry_rules.conditions@.len())
        + " entry, "@ + decimal(s.exit_rules.conditions@.len()) + " exit)"@
}

/// Appends "Category@TF(n) " for a category and the primary timeframe.
fn push_stat_entry(s: &mut String, c: TimeframeCategory, primary: TimeFrame, n: usize)
    ensures
        final(s)@ == old(s)@ + entry_text(c, primary, n as nat),
{
    s.append(c.display_name());
    s.append("@");
    s.append(c.to_absolute_timeframe(primary).debug_str());
    s.append("(");
    push_usize(s, n);
    s.append(") ");
    proof {
        assert(s@ =~= old(s)@ + category_name(c) + "@"@ + debug_name(absolute_timeframe(c, primary)) + "("@
            + decimal(n as nat) + ") "@);
    }
}

fn push_timeframes_line(s: &mut String, primary: TimeFrame, c0: usize, m0: usize, h0: usize)
    ensures
        final(s)@ == old(s)@ + timeframes_line(primary, c0 as nat, m0 as nat, h0 as nat),
{
    let used: usize = (if c0 > 0 { 1 } else { 0 }) + (if m0 > 0 { 1 } else { 0 }) + (if h0 > 0 { 1 } else { 0 });
    if used > 1 {
        s.append("Multi-timeframe: ");
        let ghost start = s@;
        if c0 > 0 {
            push_stat_entry(s, TimeframeCategory::Current, primary, c0);
        }
        let ghost after_current = s@;
        if m0 > 0 {
            push_stat_entry(s, TimeframeCategory::Medium, primary, m0);
        }
        let ghost after_medium = s@;
        if h0 > 0 {
            push_stat_entry(s, TimeframeCategory::High, primary, h0);
        }
        s.append("\n");
        proof {
            assert(s@ =~= old(s)@ + timeframes_line(primary, c0 as nat, m0 as nat, h0 as nat));
        }
    } else {
        s.append("Single timeframe\n");
        proof {
            assert(s@ =~= old(s)@ + timeframes_line(primary, c0 as nat, m0 as nat, h0 as nat));
        }
    }
}

impl StrategyAST {
    /// A readable summary: name and primary timeframe; for multi-timeframe
    /// strategies each used category with its absolute timeframe and indicator
    /// count, in ascending category order; and the number of conditions.
    pub fn display_summary(&self) -> (r: String)
        requires
            size_fits(*self),
        ensures
            r@ == summary_text(*self),
    {
        let mut s = String::from_str("Strategy: ");
        s.append(self.name.as_str());
        s.append(" (Primary: ");
        s.append(self.primary_timeframe.debug_str());
        s.append(")\n");
        proof {
            assert(s@ =~= summary_header(*self));
        }
        let (c0, m0, h0) = self.counts();
        proof {
            lemma_summary_timeframes_counts(*self);
        }
        push_timeframes_line(&mut s, self.primary_timeframe, c0, m0, h0);
        self.push_complexity_line(&mut s);
        proof {
            assert(s@ =~= summary_text(*self));
        }
        s
    }

    fn push_complexity_line(&self, s: &mut String)
        requires
            size_fits(*self),
        ensures
            final(s)@ == old(s)@ + summary_complexity(*self),
    {
        s.append("Complexity: ");
        push_usize(s, self.complexity());
        s.append(" conditions (");
        push_usize(s, self.entry_rules.conditions.len());
        s.append(" entry, ");
        push_usize(s, self.exit_rules.conditions.len());
        s.append(" exit)");
        proof {
            assert(s@ =~= old(s)@ + summary_complexity(*self));
        }
    }
}

} // verus!

verus! {

/// What a condition's value is, as the contracts see it.
pub enum ValueModel {
    Number(u64),
    Indicator(IndicatorModel),
    Price,
}

/// What a condition is, as the contracts see it.
pub struct ConditionModel {
    pub indicator: IndicatorModel,
    pub comparison: Comparison,
    pub value: ValueModel,
}

impl View for ConditionValue {
    type V = ValueModel;

    open spec fn view(&self) -> ValueModel {
        match self {
            ConditionValue::Number(b) => ValueModel::Number(*b),
            ConditionValue::Indicator(i) => ValueModel::Indicator(i@),
            ConditionValue::Price => ValueModel::Price,
        }
    }
}

impl View for Condition {
    type V = ConditionModel;

    open spec fn view(&self) -> ConditionModel {
        ConditionModel { indicator: self.indicator@, comparison: self.comparison, value: self.value@ }
    }
}

/// The models of a list of conditions.
pub open spec fn condition_models(cs: Seq<Condition>) -> Seq<ConditionModel> {
    cs.map_values(|c: Condition| c@)
}

/// A condition model with its own indicator moved to category `cat`.
pub open spec fn recategorized(c: ConditionModel, cat: TimeframeCategory) -> ConditionModel {
    ConditionModel {
        indicator: IndicatorModel { name: c.indicator.name, params: c.indicator.params, category: cat },
        comparison: c.comparison,
        value: c.value,
    }
}

} // verus!
