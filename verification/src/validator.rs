//! Validation of strategies against constraints and an indicator registry,
//! with errors, warnings and informational notes.

use vstd::prelude::*;
use crate::text::{decimal, push_usize, usize_text};
use crate::doubles::{double_less_than, double_lt};
use crate::timeframe::{TimeFrame, debug_name, rank};
use crate::nodes::{
    IndicatorModel, IndicatorType, ParamValue, StrategyAST, TimeframeCategory, category_name,
    debug_texts, distinct_indicators, identity_text, join, models, unique_indicators,
};

verus! {

/// Outcome of a validation: Ok, or the error messages.
pub type ValidationResult = Result<(), Vec<String>>;

/// The texts of a list of strings.
pub open spec fn texts(v: Seq<String>) -> Seq<Seq<char>> {
    v.map_values(|s: String| s@)
}

/// A validation report: errors, warnings and informational notes.
pub struct ValidationReport {
    pub errors: Vec<String>,
    pub warnings: Vec<String>,
    pub info: Vec<String>,
}

impl ValidationReport {
    /// An empty report.
    pub fn new() -> (r: Self)
        ensures
            r.errors@.len() == 0,
            r.warnings@.len() == 0,
            r.info@.len() == 0,
    {
        ValidationReport { errors: Vec::new(), warnings: Vec::new(), info: Vec::new() }
    }

    /// Whether the report holds no error.
    pub fn is_valid(&self) -> (r: bool)
        ensures
            r == (self.errors@.len() == 0),
    {
        self.errors.len() == 0
    }

    /// Appends an error.
    pub fn add_error(&mut self, message: String)
        ensures
            final(self).errors@ == old(self).errors@.push(message),
            final(self).warnings@ == old(self).warnings@,
            final(self).info@ == old(self).info@,
    {
        self.errors.push(message);
    }

    /// Appends a warning.
    pub fn add_warning(&mut self, message: String)
        ensures
            final(self).errors@ == old(self).errors@,
            final(self).warnings@ == old(self).warnings@.push(message),
            final(self).info@ == old(self).info@,
    {
        self.warnings.push(message);
    }

    /// Appends an informational note.
    pub fn add_info(&mut self, message: String)
        ensures
            final(self).errors@ == old(self).errors@,
            final(self).warnings@ == old(self).warnings@,
            final(self).info@ == old(self).info@.push(message),
    {
        self.info.push(message);
    }

    /// Ok when there is no error, else the errors.
    pub fn to_result(&self) -> (r: ValidationResult)
        ensures
            self.errors@.len() == 0 ==> r is Ok,
            self.errors@.len() > 0 ==> (r matches Err(e) && texts(e@) == texts(self.errors@)),
    {
        if self.errors.len() == 0 {
            Ok(())
        } else {
            let e = clone_strings(&self.errors);
            Err(e)
        }
    }
}

fn clone_strings(v: &Vec<String>) -> (r: Vec<String>)
    ensures
        texts(r@) == texts(v@),
{
    let mut r: Vec<String> = Vec::new();
    let mut i: usize = 0;
    while i < v.len()
        invariant
            i <= v.len(),
            texts(r@) == texts(v@.take(i as int)),
        decreases v.len() - i,
    {
        let s = v[i].clone();
        proof {
            assert(s == v@[i as int]);
        }
        let ghost before = r@;
        r.push(s);
        proof {
            assert(v@.take(i + 1) =~= v@.take(i as int).push(v@[i as int]));
            assert(texts(r@) =~= texts(before).push(s@));
            assert(texts(v@.take(i + 1)) =~= texts(v@.take(i as int)).push(v@[i as int]@));
        }
        i = i + 1;
    }
    proof {
        assert(v@.take(v.len() as int) =~= v@);
    }
    r
}

// ---------------------------------------------------------------------------
// Indicator registry

/// Allowed range of one indicator parameter.
pub struct ParameterDef {
    pub name: String,
    pub min: ParamValue,
    pub max: ParamValue,
}

/// Name and parameter definitions of a registered indicator.
pub struct IndicatorMetadata {
    pub name: String,
    pub parameters: Vec<ParameterDef>,
}

/// The indicators known to the validator.
pub struct IndicatorRegistry {
    pub indicators: Vec<IndicatorMetadata>,
}

/// Index of the first registered indicator named `name`, if any.
pub open spec fn lookup_index(reg: Seq<IndicatorMetadata>, name: Seq<char>) -> Option<int>
    decreases reg.len(),
{
    if reg.len() == 0 {
        None
    } else {
        match lookup_index(reg.drop_last(), name) {
            Some(i) => Some(i),
            None => if reg.last().name@ == name { Some(reg.len() - 1) } else { None },
        }
    }
}

proof fn lemma_lookup_index_bounds(reg: Seq<IndicatorMetadata>, name: Seq<char>)
    ensures
        lookup_index(reg, name) matches Some(i) ==> 0 <= i < reg.len() && reg[i].name@ == name,
        lookup_index(reg, name) is None ==> forall|j: int| 0 <= j < reg.len() ==> reg[j].name@ != name,
    decreases reg.len(),
{
    if reg.len() > 0 {
        lemma_lookup_index_bounds(reg.drop_last(), name);
        assert forall|j: int| 0 <= j < reg.len() - 1 implies reg[j] == reg.drop_last()[j] by {}
    }
}

impl IndicatorRegistry {
    /// The first registered indicator with the given name.
    pub fn get(&self, name: &str) -> (r: Option<&IndicatorMetadata>)
        ensures
            match lookup_index(self.indicators@, name@) {
                Some(i) => r == Some(&self.indicators@[i]),
                None => r is None,
            },
    {
        let target = String::from_str(name);
        let mut i: usize = 0;
        while i < self.indicators.len()
            invariant
                target@ == name@,
                i <= self.indicators.len(),
                lookup_index(self.indicators@.take(i as int), name@) is None,
            decreases self.indicators.len() - i,
        {
            proof {
                assert(self.indicators@.take(i + 1).drop_last() =~= self.indicators@.take(i as int));
            }
            if self.indicators[i].name == target {
                proof {
                    assert(lookup_index(self.indicators@.take(i + 1), name@) == Some(i as int));
                    lemma_lookup_prefix(self.indicators@, name@, i as int + 1);
                }
                return Some(&self.indicators[i]);
            }
            i = i + 1;
        }
        proof {
            assert(self.indicators@.take(i as int) =~= self.indicators@);
        }
        None
    }
}

proof fn lemma_lookup_prefix(reg: Seq<IndicatorMetadata>, name: Seq<char>, k: int)
    requires
        0 <= k <= reg.len(),
        lookup_index(reg.take(k), name) is Some,
    ensures
        lookup_index(reg, name) == lookup_index(reg.take(k), name),
    decreases reg.len() - k,
{
    if k < reg.len() {
        assert(reg.take(k + 1).drop_last() =~= reg.take(k));
        lemma_lookup_prefix(reg, name, k + 1);
    } else {
        assert(reg.take(k) =~= reg);
    }
}

} // verus!

verus! {

// ---------------------------------------------------------------------------
// Indicator keys: name, parameters and category

/// "name([p1, p2])@Category", parameters as `{:?}` prints them: the text by
/// which two indicators count as the same.
pub open spec fn key_text(i: IndicatorModel) -> Seq<char> {
    identity_text(i)
}

/// The keys of the indicators of a strategy, in order.
pub open spec fn strategy_keys(s: StrategyAST) -> Seq<Seq<char>> {
    crate::nodes::strategy_indicators(s).map_values(|i: IndicatorModel| key_text(i))
}

/// The distinct items of `keys`, in order of first occurrence.
pub open spec fn first_occurrences(keys: Seq<Seq<char>>) -> Seq<Seq<char>>
    decreases keys.len(),
{
    if keys.len() == 0 {
        Seq::empty()
    } else {
        let d = first_occurrences(keys.drop_last());
        if d.contains(keys.last()) {
            d
        } else {
            d.push(keys.last())
        }
    }
}

/// Number of occurrences of `k` in `keys`.
pub open spec fn occurrences(keys: Seq<Seq<char>>, k: Seq<char>) -> nat
    decreases keys.len(),
{
    if keys.len() == 0 {
        0
    } else {
        occurrences(keys.drop_last(), k) + (if keys.last() == k { 1nat } else { 0nat })
    }
}

pub proof fn lemma_first_occurrences_contains(keys: Seq<Seq<char>>, k: Seq<char>)
    ensures
        first_occurrences(keys).contains(k) <==> keys.contains(k),
    decreases keys.len(),
{
    if keys.len() > 0 {
        lemma_first_occurrences_contains(keys.drop_last(), k);
        if keys.drop_last().contains(k) {
            let j = choose|j: int| 0 <= j < keys.drop_last().len() && keys.drop_last()[j] == k;
            assert(keys[j] == k);
        }
        if keys.contains(k) {
            let j = choose|j: int| 0 <= j < keys.len() && keys[j] == k;
            if j < keys.len() - 1 {
                assert(keys.drop_last()[j] == k);
            }
        }
        let d = first_occurrences(keys.drop_last());
        if !d.contains(keys.last()) {
            assert(d.push(keys.last())[d.len() as int] == keys.last());
            if d.push(keys.last()).contains(k) && k != keys.last() {
                let j = choose|j: int| 0 <= j < d.push(keys.last()).len() && d.push(keys.last())[j] == k;
                assert(d[j] == k);
            }
            if d.contains(k) {
                let j = choose|j: int| 0 <= j < d.len() && d[j] == k;
                assert(d.push(keys.last())[j] == k);
            }
        }
    }
}

pub proof fn lemma_first_occurrences_bounds(keys: Seq<Seq<char>>)
    ensures
        first_occurrences(keys).len() <= keys.len(),
        forall|i: int, j: int|
            0 <= i < j < first_occurrences(keys).len() ==> first_occurrences(keys)[i]
                != first_occurrences(keys)[j],
    decreases keys.len(),
{
    if keys.len() > 0 {
        lemma_first_occurrences_bounds(keys.drop_last());
        let d = first_occurrences(keys.drop_last());
        if !d.contains(keys.last()) {
            assert forall|i: int, j: int| 0 <= i < j < d.push(keys.last()).len() implies d.push(keys.last())[i]
                != d.push(keys.last())[j] by {
                if j == d.len() {
                    assert(d[i] != keys.last());
                }
            }
        }
    }
}

pub proof fn lemma_occurrences_bound(keys: Seq<Seq<char>>, k: Seq<char>)
    ensures
        occurrences(keys, k) <= keys.len(),
    decreases keys.len(),
{
    if keys.len() > 0 {
        lemma_occurrences_bound(keys.drop_last(), k);
    }
}

/// The key of one indicator.
fn indicator_key(ind: &IndicatorType) -> (r: String)
    ensures
        r@ == key_text(ind@),
{
    let mut s = String::from_str(ind.name.as_str());
    s.append("([");
    crate::nodes::push_joined(&mut s, &ind.params, true);
    s.append("])@");
    s.append(ind.timeframe_category.display_name());
    s
}

/// The keys of the indicators of a strategy.
fn keys_of(strategy: &StrategyAST) -> (r: Vec<String>)
    ensures
        texts(r@) == strategy_keys(*strategy),
{
    let inds = strategy.indicator_uses();
    let mut r: Vec<String> = Vec::new();
    let mut i: usize = 0;
    while i < inds.len()
        invariant
            i <= inds.len(),
            models(inds@) == crate::nodes::strategy_indicators(*strategy),
            texts(r@) == models(inds@).take(i as int).map_values(|m: IndicatorModel| key_text(m)),
        decreases inds.len() - i,
    {
        let k = indicator_key(inds[i]);
        let ghost before = r@;
        r.push(k);
        proof {
            assert(texts(r@) =~= texts(before).push(k@));
            assert(models(inds@).take(i + 1) =~= models(inds@).take(i as int).push(inds@[i as int]@));
            assert(texts(r@) =~= models(inds@).take(i + 1).map_values(|m: IndicatorModel| key_text(m)));
        }
        i = i + 1;
    }
    proof {
        assert(models(inds@).take(inds.len() as int) =~= models(inds@));
    }
    r
}

/// The distinct keys in order of first occurrence, with their counts.
fn tally(keys: &Vec<String>) -> (r: (Vec<String>, Vec<usize>))
    ensures
        texts(r.0@) == first_occurrences(texts(keys@)),
        r.1@.len() == r.0@.len(),
        forall|j: int| 0 <= j < r.1@.len() ==> r.1@[j] == occurrences(texts(keys@), #[trigger] texts(r.0@)[j]),
{
    let ghost ks = texts(keys@);
    let mut distinct: Vec<String> = Vec::new();
    let mut counts: Vec<usize> = Vec::new();
    let mut i: usize = 0;
    while i < keys.len()
        invariant
            i <= keys.len(),
            ks == texts(keys@),
            texts(distinct@) == first_occurrences(ks.take(i as int)),
            counts@.len() == distinct@.len(),
            forall|j: int| 0 <= j < counts@.len() ==> counts@[j] == occurrences(ks.take(i as int), #[trigger] texts(distinct@)[j]),
            forall|j: int| 0 <= j < counts@.len() ==> counts@[j] <= i,
        decreases keys.len() - i,
    {
        let key = &keys[i];
        let ghost prefix = ks.take(i as int);
        let ghost next = ks.take(i + 1);
        proof {
            assert(next.drop_last() =~= prefix);
            assert(next.last() == key@);
        }
        let mut j: usize = 0;
        let mut found = false;
        while j < distinct.len()
            invariant_except_break
                !found,
            invariant
                j <= distinct@.len(),
                forall|m: int| 0 <= m < j ==> distinct@[m]@ != key@,
            ensures
                found ==> j < distinct@.len() && distinct@[j as int]@ == key@,
                !found ==> j == distinct@.len(),
            decreases distinct.len() - j,
        {
            if distinct[j] == *key {
                found = true;
                break;
            }
            j = j + 1;
        }
        if found {
            proof {
                assert(texts(distinct@)[j as int] == key@);
                assert(first_occurrences(prefix).contains(key@));
                assert(first_occurrences(next) == first_occurrences(prefix));
            }
            let c = counts[j];
            counts.set(j, c + 1);
            proof {
                assert forall|m: int| 0 <= m < counts@.len() implies counts@[m] == occurrences(next, #[trigger] texts(distinct@)[m]) by {
                    if m != j {
                        assert(texts(distinct@)[m] != key@) by {
                            lemma_first_occurrences_bounds(prefix);
                        }
                    }
                }
            }
        } else {
            proof {
                assert forall|m: int| 0 <= m < texts(distinct@).len() implies texts(distinct@)[m] != key@ by {
                    assert(distinct@[m]@ != key@);
                }
                assert(!first_occurrences(prefix).contains(key@));
            }
            let ghost before = distinct@;
            distinct.push(key.clone());
            counts.push(1);
            proof {
                assert(texts(distinct@) =~= texts(before).push(key@));
                assert forall|m: int| 0 <= m < counts@.len() implies counts@[m] == occurrences(next, #[trigger] texts(distinct@)[m]) by {
                    if m < before.len() {
                        assert(texts(distinct@)[m] == texts(before)[m]);
                        assert(texts(before)[m] != key@);
                    } else {
                        assert(!prefix.contains(key@)) by {
                            lemma_first_occurrences_contains(prefix, key@);
                        }
                        lemma_occurrences_absent(prefix, key@);
                    }
                }
            }
        }
        i = i + 1;
    }
    proof {
        assert(ks.take(keys.len() as int) =~= ks);
    }
    (distinct, counts)
}

proof fn lemma_occurrences_absent(keys: Seq<Seq<char>>, k: Seq<char>)
    requires
        !keys.contains(k),
    ensures
        occurrences(keys, k) == 0,
    decreases keys.len(),
{
    if keys.len() > 0 {
        assert(keys.last() != k) by {
            assert(keys[keys.len() - 1] == keys.last());
        }
        assert(!keys.drop_last().contains(k)) by {
            if keys.drop_last().contains(k) {
                let j = choose|j: int| 0 <= j < keys.drop_last().len() && keys.drop_last()[j] == k;
                assert(keys[j] == k);
            }
        }
        lemma_occurrences_absent(keys.drop_last(), k);
    }
}

} // verus!

verus! {

// ---------------------------------------------------------------------------
// Findings: what a validation step adds to a report

/// Messages a validation step adds, per kind.
pub struct Findings {
    pub errors: Seq<Seq<char>>,
    pub warnings: Seq<Seq<char>>,
    pub info: Seq<Seq<char>>,
}

pub open spec fn no_findings() -> Findings {
    Findings { errors: Seq::empty(), warnings: Seq::empty(), info: Seq::empty() }
}

/// The findings of `a` followed by those of `b`.
pub open spec fn then(a: Findings, b: Findings) -> Findings {
    Findings { errors: a.errors + b.errors, warnings: a.warnings + b.warnings, info: a.info + b.info }
}

pub open spec fn opt(cond: bool, msg: Seq<char>) -> Seq<Seq<char>> {
    if cond { seq![msg] } else { Seq::empty() }
}

/// Whether `after` is `before` with `f` appended.
pub open spec fn reported(before: ValidationReport, after: ValidationReport, f: Findings) -> bool {
    &&& texts(after.errors@) == texts(before.errors@) + f.errors
    &&& texts(after.warnings@) == texts(before.warnings@) + f.warnings
    &&& texts(after.info@) == texts(before.info@) + f.info
}

pub proof fn lemma_reported_then(a: ValidationReport, b: ValidationReport, c: ValidationReport, f: Findings, g: Findings)
    requires
        reported(a, b, f),
        reported(b, c, g),
    ensures
        reported(a, c, then(f, g)),
{
    assert(texts(a.errors@) + f.errors + g.errors =~= texts(a.errors@) + (f.errors + g.errors));
    assert(texts(a.warnings@) + f.warnings + g.warnings =~= texts(a.warnings@) + (f.warnings + g.warnings));
    assert(texts(a.info@) + f.info + g.info =~= texts(a.info@) + (f.info + g.info));
}

proof fn lemma_reported_none(a: ValidationReport)
    ensures
        reported(a, a, no_findings()),
{
    assert(texts(a.errors@) + Seq::<Seq<char>>::empty() =~= texts(a.errors@));
    assert(texts(a.warnings@) + Seq::<Seq<char>>::empty() =~= texts(a.warnings@));
    assert(texts(a.info@) + Seq::<Seq<char>>::empty() =~= texts(a.info@));
}

fn report_error(report: &mut ValidationReport, message: String)
    ensures
        reported(*old(report), *final(report), Findings { errors: seq![message@], warnings: Seq::empty(), info: Seq::empty() }),
{
    let ghost before = *report;
    report.add_error(message);
    proof {
        assert(texts(report.errors@) =~= texts(before.errors@) + seq![message@]);
        lemma_reported_none(before);
        assert(texts(report.warnings@) =~= texts(before.warnings@) + Seq::<Seq<char>>::empty());
        assert(texts(report.info@) =~= texts(before.info@) + Seq::<Seq<char>>::empty());
    }
}

fn report_warning(report: &mut ValidationReport, message: String)
    ensures
        reported(*old(report), *final(report), Findings { errors: Seq::empty(), warnings: seq![message@], info: Seq::empty() }),
{
    let ghost before = *report;
    report.add_warning(message);
    proof {
        assert(texts(report.warnings@) =~= texts(before.warnings@) + seq![message@]);
        assert(texts(report.errors@) =~= texts(before.errors@) + Seq::<Seq<char>>::empty());
        assert(texts(report.info@) =~= texts(before.info@) + Seq::<Seq<char>>::empty());
    }
}

fn report_info(report: &mut ValidationReport, message: String)
    ensures
        reported(*old(report), *final(report), Findings { errors: Seq::empty(), warnings: Seq::empty(), info: seq![message@] }),
{
    let ghost before = *report;
    report.add_info(message);
    proof {
        assert(texts(report.info@) =~= texts(before.info@) + seq![message@]);
        assert(texts(report.errors@) =~= texts(before.errors@) + Seq::<Seq<char>>::empty());
        assert(texts(report.warnings@) =~= texts(before.warnings@) + Seq::<Seq<char>>::empty());
    }
}

fn text_of(lit: &str) -> (r: String)
    ensures
        r@ == lit@,
{
    String::from_str(lit)
}

} // verus!

verus! {

use crate::constraints::StrategyConstraints;
use crate::nodes::{
    absolute_timeframe, complexity_of, count_category, size_fits, strategy_indicators,
    used_categories, uses_category,
};

// ---------------------------------------------------------------------------
// Basic checks

/// Reducing indicators to their keys and keeping first occurrences gives the
/// keys of the distinct indicators, in the same order.
pub proof fn lemma_first_keys_are_distinct_indicators(inds: Seq<IndicatorModel>)
    ensures
        first_occurrences(inds.map_values(|i: IndicatorModel| key_text(i))) == distinct_indicators(
            inds,
        ).map_values(|i: IndicatorModel| key_text(i)),
    decreases inds.len(),
{
    if inds.len() > 0 {
        let rest = inds.drop_last();
        lemma_first_keys_are_distinct_indicators(rest);
        let keys = inds.map_values(|i: IndicatorModel| key_text(i));
        assert(keys.drop_last() =~= rest.map_values(|i: IndicatorModel| key_text(i)));
        let d = distinct_indicators(rest);
        let dk = d.map_values(|i: IndicatorModel| key_text(i));
        let k = key_text(inds.last());
        if crate::nodes::has_identity(d, k) {
            let j = choose|j: int| 0 <= j < d.len() && identity_text(#[trigger] d[j]) == k;
            assert(dk[j] == k);
        }
        if dk.contains(k) {
            let j = choose|j: int| 0 <= j < dk.len() && dk[j] == k;
            assert(identity_text(d[j]) == k);
        }
        assert(distinct_indicators(inds).map_values(|i: IndicatorModel| key_text(i)) =~= (if dk.contains(k) {
            dk
        } else {
            dk.push(k)
        }));
    }
}

/// The number of distinct indicators that the basic check weighs against the
/// limit is the number of indicators `all_indicators` lists.
pub proof fn lemma_unique_count_is_indicator_list_len(s: StrategyAST)
    ensures
        unique_indicator_count(s) == unique_indicators(s).len(),
{
    lemma_first_keys_are_distinct_indicators(strategy_indicators(s));
}


/// Number of distinct indicators (name, parameters and category) of a strategy.
pub open spec fn unique_indicator_count(s: StrategyAST) -> nat {
    first_occurrences(strategy_keys(s)).len()
}

pub open spec fn basic_findings(s: StrategyAST, c: StrategyConstraints) -> Findings {
    Findings {
        errors: opt(s.name@.len() == 0, "El nombre no puede estar vacío"@) + opt(
            complexity_of(s) > c.max_conditions,
            "Complejidad "@ + decimal(complexity_of(s)) + " excede el máximo permitido "@ + decimal(
                c.max_conditions as nat,
            ),
        ) + opt(
            s.entry_rules.conditions@.len() == 0,
            "Debe tener al menos una condición de entrada"@,
        ) + opt(s.exit_rules.conditions@.len() == 0, "Debe tener al menos una condición de salida"@)
            + opt(
            unique_indicator_count(s) > c.max_indicators,
            "Número de indicadores "@ + decimal(unique_indicator_count(s)) + " excede el máximo "@
                + decimal(c.max_indicators as nat),
        ),
        warnings: Seq::empty(),
        info: seq![
            "Strategy: "@ + s.name@ + " (Primary TF: "@ + debug_name(s.primary_timeframe) + ")"@,
            "Complexity: "@ + decimal(complexity_of(s)) + " conditions ("@ + decimal(
                s.entry_rules.conditions@.len(),
            ) + " entry, "@ + decimal(s.exit_rules.conditions@.len()) + " exit)"@,
        ],
    }
}

// ---------------------------------------------------------------------------
// Multi-timeframe checks

/// Number of used categories whose absolute timeframe is `t`.
pub open spec fn timeframe_multiplicity(s: StrategyAST, t: TimeFrame) -> nat {
    (if uses_category(s, TimeframeCategory::Current) && absolute_timeframe(
        TimeframeCategory::Current,
        s.primary_timeframe,
    ) == t { 1nat } else { 0nat }) + (if uses_category(s, TimeframeCategory::Medium)
        && absolute_timeframe(TimeframeCategory::Medium, s.primary_timeframe) == t { 1nat } else { 0nat })
        + (if uses_category(s, TimeframeCategory::High) && absolute_timeframe(
        TimeframeCategory::High,
        s.primary_timeframe,
    ) == t { 1nat } else { 0nat })
}

/// Warnings for timeframes that several used categories map to, in ascending
/// timeframe order.
pub open spec fn redundancy_warnings(s: StrategyAST, tfs: Seq<TimeFrame>) -> Seq<Seq<char>>
    decreases tfs.len(),
{
    if tfs.len() == 0 {
        Seq::empty()
    } else {
        redundancy_warnings(s, tfs.drop_last()) + opt(
            timeframe_multiplicity(s, tfs.last()) > 1,
            "Timeframe "@ + debug_name(tfs.last()) + " is used by multiple categories (may be redundant)"@,
        )
    }
}

pub open spec fn abs_of(s: StrategyAST, c: TimeframeCategory) -> TimeFrame {
    absolute_timeframe(c, s.primary_timeframe)
}

/// Infos listing each used category's timeframe.
pub open spec fn mapping_infos(s: StrategyAST, cats: Seq<TimeframeCategory>) -> Seq<Seq<char>>
    decreases cats.len(),
{
    if cats.len() == 0 {
        Seq::empty()
    } else {
        mapping_infos(s, cats.drop_last()).push(
            "  "@ + category_name(cats.last()) + " timeframe: "@ + debug_name(abs_of(s, cats.last())),
        )
    }
}

/// Infos listing each used category's indicator count.
pub open spec fn stats_infos(s: StrategyAST, cats: Seq<TimeframeCategory>) -> Seq<Seq<char>>
    decreases cats.len(),
{
    if cats.len() == 0 {
        Seq::empty()
    } else {
        stats_infos(s, cats.drop_last()).push(
            "  "@ + decimal(count_category(strategy_indicators(s), cats.last())) + " indicators in "@
                + category_name(cats.last()) + " timeframe"@,
        )
    }
}

pub open spec fn multi_timeframe_findings(s: StrategyAST, c: StrategyConstraints) -> Findings {
    let cats = used_categories(s);
    let multi = cats.len() > 1;
    let cur = uses_category(s, TimeframeCategory::Current);
    let med = uses_category(s, TimeframeCategory::Medium);
    let high = uses_category(s, TimeframeCategory::High);
    let cur_tf = abs_of(s, TimeframeCategory::Current);
    let med_tf = abs_of(s, TimeframeCategory::Medium);
    let high_tf = abs_of(s, TimeframeCategory::High);
    let high_count = count_category(strategy_indicators(s), TimeframeCategory::High);
    Findings {
        errors: opt(
            cats.len() > c.max_timeframes,
            "Número de timeframes "@ + decimal(cats.len()) + " excede el máximo "@ + decimal(
                c.max_timeframes as nat,
            ),
        ) + opt(
            cur && med && !(rank(med_tf) > rank(cur_tf)),
            "Medium timeframe ("@ + debug_name(med_tf) + ") should be higher than Current timeframe ("@
                + debug_name(cur_tf) + ")"@,
        ) + opt(
            med && high && !(rank(high_tf) > rank(med_tf)),
            "High timeframe ("@ + debug_name(high_tf) + ") should be higher than Medium timeframe ("@
                + debug_name(med_tf) + ")"@,
        ),
        warnings: redundancy_warnings(s, crate::timeframe::all_timeframes()) + opt(
            cats.len() == 1 && cur && strategy_indicators(s).len() >= 3,
            "Strategy uses multiple indicators but only Current timeframe. Consider adding higher timeframe context for trend confirmation."@,
        ) + opt(
            cats.len() == 1 && high,
            "Strategy uses only High timeframe. Consider adding Current timeframe indicators for more frequent signals."@,
        ) + opt(
            high_count > 2,
            "Too many indicators ("@ + decimal(high_count)
                + ") in High timeframe. High timeframe should typically be used for trend context only."@,
        ),
        info: (if multi {
            seq!["✨ Multi-timeframe strategy detected"@] + mapping_infos(s, cats) + stats_infos(s, cats)
        } else {
            seq!["Single timeframe strategy"@]
        }) + opt(
            cur && med && complexity_of(s) <= 6,
            "✅ Good multi-timeframe configuration detected: Current + Medium timeframes with reasonable complexity."@,
        ),
    }
}

/// The timeframe-order checks hold for every primary timeframe from M1 to
/// D1: each used category maps to a higher timeframe than the one below it.
/// From W1 up, Medium and High both map to MN1, so a strategy that uses both
/// is reported.
pub proof fn lemma_timeframe_order_by_primary(s: StrategyAST, c: StrategyConstraints)
    ensures
        rank(s.primary_timeframe) <= rank(TimeFrame::D1) ==> rank(abs_of(s, TimeframeCategory::Medium)) > rank(
            abs_of(s, TimeframeCategory::Current),
        ) && rank(abs_of(s, TimeframeCategory::High)) > rank(abs_of(s, TimeframeCategory::Medium)),
        rank(s.primary_timeframe) > rank(TimeFrame::D1) ==> abs_of(s, TimeframeCategory::Medium) == abs_of(
            s,
            TimeframeCategory::High,
        ),
        rank(s.primary_timeframe) > rank(TimeFrame::D1) && uses_category(s, TimeframeCategory::Medium)
            && uses_category(s, TimeframeCategory::High) ==> multi_timeframe_findings(s, c).errors.len() > 0,
{
}

} // verus!

verus! {

pub open spec fn error_findings(e: Seq<Seq<char>>) -> Findings {
    Findings { errors: e, warnings: Seq::empty(), info: Seq::empty() }
}

pub open spec fn warning_findings(w: Seq<Seq<char>>) -> Findings {
    Findings { errors: Seq::empty(), warnings: w, info: Seq::empty() }
}

pub open spec fn info_findings(i: Seq<Seq<char>>) -> Findings {
    Findings { errors: Seq::empty(), warnings: Seq::empty(), info: i }
}

fn error_if(report: &mut ValidationReport, cond: bool, message: String)
    ensures
        reported(*old(report), *final(report), error_findings(opt(cond, message@))),
{
    if cond {
        report_error(report, message);
    } else {
        proof {
            lemma_reported_none(*report);
            assert(no_findings() == error_findings(opt(cond, message@)));
        }
    }
}

fn warning_if(report: &mut ValidationReport, cond: bool, message: String)
    ensures
        reported(*old(report), *final(report), warning_findings(opt(cond, message@))),
{
    if cond {
        report_warning(report, message);
    } else {
        proof {
            lemma_reported_none(*report);
            assert(no_findings() == warning_findings(opt(cond, message@)));
        }
    }
}

fn info_if(report: &mut ValidationReport, cond: bool, message: String)
    ensures
        reported(*old(report), *final(report), info_findings(opt(cond, message@))),
{
    if cond {
        report_info(report, message);
    } else {
        proof {
            lemma_reported_none(*report);
            assert(no_findings() == info_findings(opt(cond, message@)));
        }
    }
}

/// "<prefix><n><suffix>"
fn number_message(prefix: &str, n: usize, suffix: &str) -> (r: String)
    ensures
        r@ == prefix@ + decimal(n as nat) + suffix@,
{
    let mut s = String::from_str(prefix);
    push_usize(&mut s, n);
    s.append(suffix);
    s
}

/// "<prefix><n><middle><m>"
fn two_number_message(prefix: &str, n: usize, middle: &str, m: usize) -> (r: String)
    ensures
        r@ == prefix@ + decimal(n as nat) + middle@ + decimal(m as nat),
{
    let mut s = String::from_str(prefix);
    push_usize(&mut s, n);
    s.append(middle);
    push_usize(&mut s, m);
    s
}

/// Validates strategies against constraints and an indicator registry.
pub struct StrategyValidator {
    constraints: StrategyConstraints,
}

impl StrategyValidator {
    /// The constraints the validator applies.
    pub closed spec fn limits(self) -> StrategyConstraints {
        self.constraints
    }

    /// A validator applying the given constraints.
    pub fn new(constraints: StrategyConstraints) -> (r: Self)
        ensures
            r.limits() == constraints,
    {
        StrategyValidator { constraints }
    }

    /// Whether `tf1` comes after `tf2` in the order M1 < M5 < ... < MN1.
    pub fn is_timeframe_higher(&self, tf1: &TimeFrame, tf2: &TimeFrame) -> (r: bool)
        ensures
            r == (rank(*tf1) > rank(*tf2)),
    {
        rank_of(*tf1) > rank_of(*tf2)
    }

    /// Number of distinct indicators (name, parameters and category).
    fn count_unique_indicators(&self, strategy: &StrategyAST) -> (r: usize)
        ensures
            r == unique_indicator_count(*strategy),
    {
        let keys = keys_of(strategy);
        let (distinct, _counts) = tally(&keys);
        proof {
            assert(texts(distinct@).len() == distinct@.len());
        }
        distinct.len()
    }

    fn validate_basic_strategy(&self, strategy: &StrategyAST, report: &mut ValidationReport)
        requires
            size_fits(*strategy),
        ensures
            reported(*old(report), *final(report), basic_findings(*strategy, self.limits())),
    {
        let ghost r0 = *report;
        let c = strategy.complexity();
        let max_c = self.constraints.max_conditions;
        error_if(report, strategy.name.as_str().is_empty(), text_of("El nombre no puede estar vacío"));
        let ghost r1 = *report;
        error_if(report, c > max_c, two_number_message("Complejidad ", c, " excede el máximo permitido ", max_c));
        let ghost r2 = *report;
        error_if(report, strategy.entry_rules.conditions.len() == 0, text_of("Debe tener al menos una condición de entrada"));
        let ghost r3 = *report;
        error_if(report, strategy.exit_rules.conditions.len() == 0, text_of("Debe tener al menos una condición de salida"));
        let ghost r4 = *report;
        let u = self.count_unique_indicators(strategy);
        let max_i = self.constraints.max_indicators;
        error_if(report, u > max_i, two_number_message("Número de indicadores ", u, " excede el máximo ", max_i));
        let ghost r5 = *report;
        let mut s = String::from_str("Strategy: ");
        s.append(strategy.name.as_str());
        s.append(" (Primary TF: ");
        s.append(strategy.primary_timeframe.debug_str());
        s.append(")");
        report_info(report, s);
        let ghost r6 = *report;
        let mut t = number_message("Complexity: ", c, " conditions (");
        push_usize(&mut t, strategy.entry_rules.conditions.len());
        t.append(" entry, ");
        push_usize(&mut t, strategy.exit_rules.conditions.len());
        t.append(" exit)");
        report_info(report, t);
        proof {
            let f = basic_findings(*strategy, self.limits());
            assert(texts(report.errors@) =~= texts(r0.errors@) + f.errors);
            assert(texts(report.warnings@) =~= texts(r0.warnings@) + f.warnings);
            assert(texts(report.info@) =~= texts(r0.info@) + f.info);
        }
    }
}

fn rank_of(tf: TimeFrame) -> (r: u8)
    ensures
        r == rank(tf),
{
    match tf {
        TimeFrame::M1 => 0,
        TimeFrame::M5 => 1,
        TimeFrame::M15 => 2,
        TimeFrame::M30 => 3,
        TimeFrame::H1 => 4,
        TimeFrame::H4 => 5,
        TimeFrame::D1 => 6,
        TimeFrame::W1 => 7,
        TimeFrame::MN1 => 8,
    }
}

} // verus!

verus! {

fn multiplicity(strategy: &StrategyAST, cur: bool, med: bool, high: bool, t: TimeFrame) -> (r: usize)
    requires
        cur == uses_category(*strategy, TimeframeCategory::Current),
        med == uses_category(*strategy, TimeframeCategory::Medium),
        high == uses_category(*strategy, TimeframeCategory::High),
    ensures
        r == timeframe_multiplicity(*strategy, t),
{
    let p = strategy.primary_timeframe;
    let mut n: usize = 0;
    if cur && TimeframeCategory::Current.to_absolute_timeframe(p) == t {
        n = n + 1;
    }
    if med && TimeframeCategory::Medium.to_absolute_timeframe(p) == t {
        n = n + 1;
    }
    if high && TimeframeCategory::High.to_absolute_timeframe(p) == t {
        n = n + 1;
    }
    n
}

impl StrategyValidator {
    fn validate_multi_timeframe(&self, strategy: &StrategyAST, report: &mut ValidationReport)
        requires
            size_fits(*strategy),
        ensures
            reported(*old(report), *final(report), multi_timeframe_findings(*strategy, self.limits())),
    {
        let ghost s = *strategy;
        let ghost r0 = *report;
        let ghost f = multi_timeframe_findings(s, self.limits());
        let cats = strategy.used_timeframe_categories();
        let (nc, nm, nh) = strategy.counts();
        let cur = nc > 0;
        let med = nm > 0;
        let high = nh > 0;
        let p = strategy.primary_timeframe;
        let n = cats.len();
        error_if(report, n > self.constraints.max_timeframes,
            two_number_message("Número de timeframes ", n, " excede el máximo ", self.constraints.max_timeframes));
        let ghost r1 = *report;
        if n > 1 {
            report_info(report, text_of("✨ Multi-timeframe strategy detected"));
            let ghost r1a = *report;
            let mut i: usize = 0;
            while i < n
                invariant
                    i <= n,
                    n == cats@.len(),
                    cats@ == used_categories(s),
                    *strategy == s,
                    p == s.primary_timeframe,
                    texts(report.errors@) == texts(r1a.errors@),
                    texts(report.warnings@) == texts(r1a.warnings@),
                    texts(report.info@) == texts(r1a.info@) + mapping_infos(s, cats@.take(i as int)),
                decreases n - i,
            {
                let c = cats[i];
                let mut m = String::from_str("  ");
                m.append(c.display_name());
                m.append(" timeframe: ");
                m.append(c.to_absolute_timeframe(p).debug_str());
                report_info(report, m);
                proof {
                    assert(cats@.take(i + 1).drop_last() =~= cats@.take(i as int));
                    assert(texts(report.info@) =~= texts(r1a.info@) + mapping_infos(s, cats@.take(i + 1)));
                }
                i = i + 1;
            }
            proof {
                assert(cats@.take(n as int) =~= cats@);
            }
            let ghost r1b = *report;
            let mut i: usize = 0;
            while i < n
                invariant
                    i <= n,
                    n == cats@.len(),
                    cats@ == used_categories(s),
                    *strategy == s,
                    nc == count_category(strategy_indicators(s), TimeframeCategory::Current),
                    nm == count_category(strategy_indicators(s), TimeframeCategory::Medium),
                    nh == count_category(strategy_indicators(s), TimeframeCategory::High),
                    texts(report.errors@) == texts(r1b.errors@),
                    texts(report.warnings@) == texts(r1b.warnings@),
                    texts(report.info@) == texts(r1b.info@) + stats_infos(s, cats@.take(i as int)),
                decreases n - i,
            {
                let c = cats[i];
                let k = match c {
                    TimeframeCategory::Current => nc,
                    TimeframeCategory::Medium => nm,
                    TimeframeCategory::High => nh,
                };
                let mut m = number_message("  ", k, " indicators in ");
                m.append(c.display_name());
                m.append(" timeframe");
                report_info(report, m);
                proof {
                    assert(cats@.take(i + 1).drop_last() =~= cats@.take(i as int));
                    assert(texts(report.info@) =~= texts(r1b.info@) + stats_infos(s, cats@.take(i + 1)));
                }
                i = i + 1;
            }
            proof {
                assert(cats@.take(n as int) =~= cats@);
            }
        } else {
            report_info(report, text_of("Single timeframe strategy"));
        }
        let ghost r2 = *report;
        proof {
            assert(texts(r2.info@) =~= texts(r1.info@) + (if n > 1 {
                seq!["✨ Multi-timeframe strategy detected"@] + mapping_infos(s, used_categories(s)) + stats_infos(s, used_categories(s))
            } else {
                seq!["Single timeframe strategy"@]
            }));
        }
        // Timeframes shared by several categories.
        let all = TimeFrame::all();
        let mut i: usize = 0;
        while i < all.len()
            invariant
                i <= all@.len(),
                all@ == crate::timeframe::all_timeframes(),
                *strategy == s,
                cur == uses_category(s, TimeframeCategory::Current),
                med == uses_category(s, TimeframeCategory::Medium),
                high == uses_category(s, TimeframeCategory::High),
                texts(report.errors@) == texts(r2.errors@),
                texts(report.info@) == texts(r2.info@),
                texts(report.warnings@) == texts(r2.warnings@) + redundancy_warnings(s, all@.take(i as int)),
            decreases all@.len() - i,
        {
            let t = all[i];
            let k = multiplicity(strategy, cur, med, high, t);
            if k > 1 {
                let mut m = String::from_str("Timeframe ");
                m.append(t.debug_str());
                m.append(" is used by multiple categories (may be redundant)");
                report_warning(report, m);
            }
            proof {
                assert(all@.take(i + 1).drop_last() =~= all@.take(i as int));
                assert(texts(report.warnings@) =~= texts(r2.warnings@) + redundancy_warnings(s, all@.take(i + 1)));
            }
            i = i + 1;
        }
        proof {
            assert(all@.take(all@.len() as int) =~= all@);
        }
        let ghost r3 = *report;
        let cur_tf = TimeframeCategory::Current.to_absolute_timeframe(p);
        let med_tf = TimeframeCategory::Medium.to_absolute_timeframe(p);
        let high_tf = TimeframeCategory::High.to_absolute_timeframe(p);
        let bad_medium = cur && med && !self.is_timeframe_higher(&med_tf, &cur_tf);
        let mut m1 = String::from_str("Medium timeframe (");
        m1.append(med_tf.debug_str());
        m1.append(") should be higher than Current timeframe (");
        m1.append(cur_tf.debug_str());
        m1.append(")");
        error_if(report, bad_medium, m1);
        let ghost r4 = *report;
        let bad_high = med && high && !self.is_timeframe_higher(&high_tf, &med_tf);
        let mut m2 = String::from_str("High timeframe (");
        m2.append(high_tf.debug_str());
        m2.append(") should be higher than Medium timeframe (");
        m2.append(med_tf.debug_str());
        m2.append(")");
        error_if(report, bad_high, m2);
        let ghost r5 = *report;
        proof {
            crate::nodes::lemma_count_categories_total(strategy_indicators(s));
            crate::nodes::lemma_conditions_indicators_len(s.entry_rules.conditions@);
            crate::nodes::lemma_conditions_indicators_len(s.exit_rules.conditions@);
        }
        let total = nc + nm + nh;
        warning_if(report, n == 1 && cur && total >= 3,
            text_of("Strategy uses multiple indicators but only Current timeframe. Consider adding higher timeframe context for trend confirmation."));
        let ghost r6 = *report;
        warning_if(report, n == 1 && high,
            text_of("Strategy uses only High timeframe. Consider adding Current timeframe indicators for more frequent signals."));
        let ghost r7 = *report;
        warning_if(report, nh > 2,
            number_message("Too many indicators (", nh, ") in High timeframe. High timeframe should typically be used for trend context only."));
        let ghost r8 = *report;
        info_if(report, cur && med && strategy.complexity() <= 6,
            text_of("✅ Good multi-timeframe configuration detected: Current + Medium timeframes with reasonable complexity."));
        proof {
            assert(texts(report.errors@) =~= texts(r0.errors@) + f.errors);
            assert(texts(report.warnings@) =~= texts(r0.warnings@) + f.warnings);
            assert(texts(report.info@) =~= texts(r0.info@) + f.info);
        }
    }
}

} // verus!

verus! {

use crate::nodes::{Condition, ConditionValue, indicator_display};

// ---------------------------------------------------------------------------
// Indicator checks against the registry

/// "<kind> #<n>", the location of the n-th condition (from 1).
pub open spec fn location_text(kind: Seq<char>, n: nat) -> Seq<char> {
    kind + " #"@ + decimal(n)
}

pub open spec fn below_min_error(loc: Seq<char>, name: Seq<char>, j: int, d: ParameterDef, v: ParamValue) -> Seq<Seq<char>> {
    opt(
        double_lt(v.bits, d.min.bits),
        loc + ": '"@ + name + "' parámetro "@ + decimal((j + 1) as nat) + " ('"@ + d.name@ + "') = "@
            + v.two_decimals@ + " está por debajo del mínimo "@ + d.min.two_decimals@,
    )
}

pub open spec fn above_max_error(loc: Seq<char>, name: Seq<char>, j: int, d: ParameterDef, v: ParamValue) -> Seq<Seq<char>> {
    opt(
        double_lt(d.max.bits, v.bits),
        loc + ": '"@ + name + "' parámetro "@ + decimal((j + 1) as nat) + " ('"@ + d.name@ + "') = "@
            + v.two_decimals@ + " está por encima del máximo "@ + d.max.two_decimals@,
    )
}

/// Range errors of the first `k` parameters, in order.
pub open spec fn range_errors(loc: Seq<char>, name: Seq<char>, defs: Seq<ParameterDef>, vals: Seq<ParamValue>, k: nat) -> Seq<Seq<char>>
    decreases k,
{
    if k == 0 {
        Seq::empty()
    } else {
        let j = k - 1;
        range_errors(loc, name, defs, vals, (k - 1) as nat) + below_min_error(loc, name, j, defs[j], vals[j])
            + above_max_error(loc, name, j, defs[j], vals[j])
    }
}

/// What checking one indicator at location `loc` reports.
pub open spec fn indicator_findings(ind: IndicatorModel, loc: Seq<char>, reg: Seq<IndicatorMetadata>) -> Findings {
    match lookup_index(reg, ind.name) {
        None => error_findings(seq![loc + ": Indicador '"@ + ind.name + "' no encontrado en el registry"@]),
        Some(i) => {
            let defs = reg[i].parameters@;
            if ind.params.len() != defs.len() {
                error_findings(
                    seq![
                        loc + ": '"@ + ind.name + "' requiere "@ + decimal(defs.len()) + " parámetros, pero se proporcionaron "@
                            + decimal(ind.params.len()),
                    ],
                )
            } else {
                Findings {
                    errors: range_errors(loc, ind.name, defs, ind.params, defs.len()),
                    warnings: Seq::empty(),
                    info: seq![loc + ": "@ + indicator_display(ind) + " @ "@ + category_name(ind.category) + " timeframe"@],
                }
            }
        },
    }
}

/// Warnings about comparing indicators of different categories.
pub open spec fn cross_findings(a: IndicatorModel, b: IndicatorModel, loc: Seq<char>) -> Findings {
    warning_findings(
        opt(
            a.category != b.category,
            loc + ": Comparing indicators from different timeframes ("@ + category_name(a.category) + " vs "@
                + category_name(b.category) + "). Ensure this is intentional for your strategy logic."@,
        ) + opt(
            a.category == TimeframeCategory::High && b.category == TimeframeCategory::Current,
            loc + ": Comparing High timeframe indicator with Current timeframe. This may cause lookahead bias in backtesting."@,
        ),
    )
}

/// What checking one condition at location `loc` reports.
pub open spec fn condition_findings(c: Condition, loc: Seq<char>, reg: Seq<IndicatorMetadata>) -> Findings {
    match c.value {
        ConditionValue::Indicator(other) => then(
            indicator_findings(c.indicator@, loc, reg),
            then(
                indicator_findings(other@, loc + " (valor de comparación)"@, reg),
                cross_findings(c.indicator@, other@, loc),
            ),
        ),
        _ => indicator_findings(c.indicator@, loc, reg),
    }
}

/// What checking a list of conditions reports, located as "<kind> #n".
pub open spec fn conditions_findings(cs: Seq<Condition>, kind: Seq<char>, reg: Seq<IndicatorMetadata>) -> Findings
    decreases cs.len(),
{
    if cs.len() == 0 {
        no_findings()
    } else {
        then(
            conditions_findings(cs.drop_last(), kind, reg),
            condition_findings(cs.last(), location_text(kind, cs.len()), reg),
        )
    }
}

fn validate_indicator(ind: &IndicatorType, loc: &String, registry: &IndicatorRegistry, report: &mut ValidationReport)
    ensures
        reported(*old(report), *final(report), indicator_findings(ind@, loc@, registry.indicators@)),
{
    let ghost r0 = *report;
    let ghost reg = registry.indicators@;
    proof {
        lemma_lookup_index_bounds(reg, ind.name@);
    }
    match registry.get(ind.name.as_str()) {
        None => {
            let mut m = String::from_str(loc.as_str());
            m.append(": Indicador '");
            m.append(ind.name.as_str());
            m.append("' no encontrado en el registry");
            report_error(report, m);
        },
        Some(meta) => {
            let expected = meta.parameters.len();
            let actual = ind.params.len();
            if actual != expected {
                let mut m = String::from_str(loc.as_str());
                m.append(": '");
                m.append(ind.name.as_str());
                m.append("' requiere ");
                push_usize(&mut m, expected);
                m.append(" parámetros, pero se proporcionaron ");
                push_usize(&mut m, actual);
                report_error(report, m);
                return;
            }
            let ghost defs = meta.parameters@;
            let mut j: usize = 0;
            while j < expected
                invariant
                    j <= expected,
                    expected == defs.len(),
                    actual == expected,
                    ind.params@.len() == actual,
                    defs == meta.parameters@,
                    texts(report.warnings@) == texts(r0.warnings@),
                    texts(report.info@) == texts(r0.info@),
                    texts(report.errors@) == texts(r0.errors@) + range_errors(loc@, ind.name@, defs, ind.params@, j as nat),
                decreases expected - j,
            {
                let d = &meta.parameters[j];
                let v = &ind.params[j];
                let ghost e0 = texts(report.errors@);
                if double_less_than(v.bits, d.min.bits) {
                    let mut m = String::from_str(loc.as_str());
                    m.append(": '");
                    m.append(ind.name.as_str());
                    m.append("' parámetro ");
                    push_usize(&mut m, j + 1);
                    m.append(" ('");
                    m.append(d.name.as_str());
                    m.append("') = ");
                    m.append(v.two_decimals.as_str());
                    m.append(" está por debajo del mínimo ");
                    m.append(d.min.two_decimals.as_str());
                    report_error(report, m);
                }
                let ghost e1 = texts(report.errors@);
                proof {
                    assert(e1 =~= e0 + below_min_error(loc@, ind.name@, j as int, defs[j as int], ind.params@[j as int]));
                }
                if double_less_than(d.max.bits, v.bits) {
                    let mut m = String::from_str(loc.as_str());
                    m.append(": '");
                    m.append(ind.name.as_str());
                    m.append("' parámetro ");
                    push_usize(&mut m, j + 1);
                    m.append(" ('");
                    m.append(d.name.as_str());
                    m.append("') = ");
                    m.append(v.two_decimals.as_str());
                    m.append(" está por encima del máximo ");
                    m.append(d.max.two_decimals.as_str());
                    report_error(report, m);
                }
                proof {
                    assert(texts(report.errors@) =~= e1 + above_max_error(loc@, ind.name@, j as int, defs[j as int], ind.params@[j as int]));
                    assert(texts(report.errors@) =~= texts(r0.errors@) + range_errors(loc@, ind.name@, defs, ind.params@, (j + 1) as nat));
                }
                j = j + 1;
            }
            let mut m = String::from_str(loc.as_str());
            m.append(": ");
            let d = ind.display();
            m.append(d.as_str());
            m.append(" @ ");
            m.append(ind.timeframe_category.display_name());
            m.append(" timeframe");
            report_info(report, m);
            proof {
                let f = indicator_findings(ind@, loc@, reg);
                assert(texts(report.errors@) =~= texts(r0.errors@) + f.errors);
                assert(texts(report.warnings@) =~= texts(r0.warnings@) + f.warnings);
                assert(texts(report.info@) =~= texts(r0.info@) + f.info);
            }
        },
    }
}

} // verus!

verus! {

use crate::nodes::LogicalOperator;

fn validate_condition(cond: &Condition, loc: &String, registry: &IndicatorRegistry, report: &mut ValidationReport)
    ensures
        reported(*old(report), *final(report), condition_findings(*cond, loc@, registry.indicators@)),
{
    let ghost r0 = *report;
    validate_indicator(&cond.indicator, loc, registry, report);
    let ghost r1 = *report;
    match &cond.value {
        ConditionValue::Indicator(other) => {
            let mut loc2 = String::from_str(loc.as_str());
            loc2.append(" (valor de comparación)");
            validate_indicator(other, &loc2, registry, report);
            let ghost r2 = *report;
            let a = cond.indicator.timeframe_category;
            let b = other.timeframe_category;
            let mut m1 = String::from_str(loc.as_str());
            m1.append(": Comparing indicators from different timeframes (");
            m1.append(a.display_name());
            m1.append(" vs ");
            m1.append(b.display_name());
            m1.append("). Ensure this is intentional for your strategy logic.");
            warning_if(report, a != b, m1);
            let ghost r3 = *report;
            let mut m2 = String::from_str(loc.as_str());
            m2.append(": Comparing High timeframe indicator with Current timeframe. This may cause lookahead bias in backtesting.");
            warning_if(report, a == TimeframeCategory::High && b == TimeframeCategory::Current, m2);
            proof {
                let f = condition_findings(*cond, loc@, registry.indicators@);
                assert(texts(report.errors@) =~= texts(r0.errors@) + f.errors);
                assert(texts(report.warnings@) =~= texts(r0.warnings@) + f.warnings);
                assert(texts(report.info@) =~= texts(r0.info@) + f.info);
            }
        },
        _ => {},
    }
}

fn validate_conditions(conditions: &Vec<Condition>, rule_type: &str, registry: &IndicatorRegistry, report: &mut ValidationReport)
    ensures
        reported(*old(report), *final(report), conditions_findings(conditions@, rule_type@, registry.indicators@)),
{
    let ghost r0 = *report;
    let ghost reg = registry.indicators@;
    let mut idx: usize = 0;
    proof {
        lemma_reported_none(r0);
        assert(conditions@.take(0) =~= Seq::<Condition>::empty());
    }
    while idx < conditions.len()
        invariant
            idx <= conditions@.len(),
            reg == registry.indicators@,
            reported(r0, *report, conditions_findings(conditions@.take(idx as int), rule_type@, reg)),
        decreases conditions.len() - idx,
    {
        let ghost r1 = *report;
        let mut loc = String::from_str(rule_type);
        loc.append(" #");
        push_usize(&mut loc, idx + 1);
        validate_condition(&conditions[idx], &loc, registry, report);
        proof {
            assert(conditions@.take(idx + 1).drop_last() =~= conditions@.take(idx as int));
            assert(conditions@.take(idx + 1).last() == conditions@[idx as int]);
            lemma_reported_then(r0, r1, *report, conditions_findings(conditions@.take(idx as int), rule_type@, reg),
                condition_findings(conditions@[idx as int], loc@, reg));
        }
        idx = idx + 1;
    }
    proof {
        assert(conditions@.take(conditions.len() as int) =~= conditions@);
    }
}

} // verus!

verus! {

// ---------------------------------------------------------------------------
// Quality analysis

/// Warnings for keys occurring more than three times, in order of first occurrence.
pub open spec fn duplicate_warnings(distinct: Seq<Seq<char>>, keys: Seq<Seq<char>>) -> Seq<Seq<char>>
    decreases distinct.len(),
{
    if distinct.len() == 0 {
        Seq::empty()
    } else {
        duplicate_warnings(distinct.drop_last(), keys) + opt(
            occurrences(keys, distinct.last()) > 3,
            "Indicador "@ + distinct.last() + " aparece "@ + decimal(occurrences(keys, distinct.last()))
                + " veces (posible redundancia)"@,
        )
    }
}

pub open spec fn strategy_duplicate_warnings(s: StrategyAST) -> Seq<Seq<char>> {
    duplicate_warnings(first_occurrences(strategy_keys(s)), strategy_keys(s))
}

pub open spec fn complexity_warnings(s: StrategyAST) -> Seq<Seq<char>> {
    let n = s.entry_rules.conditions@.len();
    opt(
        s.entry_rules.operator == LogicalOperator::And && n > 5,
        "Entrada tiene "@ + decimal(n) + " condiciones AND (puede ser demasiado restrictivo)"@,
    ) + opt(
        s.entry_rules.operator == LogicalOperator::Or && n > 7,
        "Entrada tiene "@ + decimal(n) + " condiciones OR (puede generar muchas señales)"@,
    ) + opt(
        used_categories(s).len() > 1 && complexity_of(s) > 8,
        "Multi-timeframe strategy with high complexity. Consider simplifying for better performance."@,
    )
}

/// Balance of a multi-timeframe strategy's indicators across categories.
/// The proportions are compared as exact fractions: fewer than 3/10 of the
/// indicators in Current, more than 2/5 in High, more than 3/5 in Medium.
pub open spec fn balance_findings(s: StrategyAST) -> Findings {
    let inds = strategy_indicators(s);
    let total = inds.len();
    let cur = count_category(inds, TimeframeCategory::Current);
    let med = count_category(inds, TimeframeCategory::Medium);
    let high = count_category(inds, TimeframeCategory::High);
    if used_categories(s).len() > 1 {
        Findings {
            errors: Seq::empty(),
            warnings: opt(
                10 * cur < 3 * total && total > 2,
                "Low proportion of Current timeframe indicators. Consider adding more for signal generation."@,
            ) + opt(
                5 * high > 2 * total && total > 3,
                "High proportion of High timeframe indicators. Consider using fewer for trend context only."@,
            ),
            info: opt(
                5 * med > 3 * total && total > 3,
                "Good balance: Medium timeframe indicators provide good intermediate context."@,
            ),
        }
    } else {
        no_findings()
    }
}

pub open spec fn quality_findings(s: StrategyAST) -> Findings {
    then(
        warning_findings(strategy_duplicate_warnings(s) + complexity_warnings(s)),
        balance_findings(s),
    )
}

/// Everything validating `s` against `c` and the registry `reg` reports.
pub open spec fn validation_findings(s: StrategyAST, c: StrategyConstraints, reg: Seq<IndicatorMetadata>) -> Findings {
    then(
        then(basic_findings(s, c), multi_timeframe_findings(s, c)),
        then(
            then(
                conditions_findings(s.entry_rules.conditions@, "entrada"@, reg),
                conditions_findings(s.exit_rules.conditions@, "salida"@, reg),
            ),
            quality_findings(s),
        ),
    )
}

impl StrategyValidator {
    /// Warnings for indicators (same name, parameters and category) that occur
    /// more than three times, in order of first occurrence.
    pub fn check_duplicates(&self, strategy: &StrategyAST) -> (r: Vec<String>)
        ensures
            texts(r@) == strategy_duplicate_warnings(*strategy),
    {
        let keys = keys_of(strategy);
        let (distinct, counts) = tally(&keys);
        let ghost ks = texts(keys@);
        let ghost ds = texts(distinct@);
        let mut warnings: Vec<String> = Vec::new();
        let mut j: usize = 0;
        while j < distinct.len()
            invariant
                j <= distinct@.len(),
                ks == strategy_keys(*strategy),
                ds == texts(distinct@),
                ds == first_occurrences(ks),
                counts@.len() == distinct@.len(),
                forall|m: int| 0 <= m < counts@.len() ==> counts@[m] == occurrences(ks, #[trigger] ds[m]),
                texts(warnings@) == duplicate_warnings(ds.take(j as int), ks),
            decreases distinct.len() - j,
        {
            let n = counts[j];
            proof {
                assert(n == occurrences(ks, ds[j as int]));
                assert(ds.take(j + 1).drop_last() =~= ds.take(j as int));
                assert(ds.take(j + 1).last() == ds[j as int]);
            }
            if n > 3 {
                let mut m = String::from_str("Indicador ");
                m.append(distinct[j].as_str());
                m.append(" aparece ");
                push_usize(&mut m, n);
                m.append(" veces (posible redundancia)");
                let ghost before = warnings@;
                warnings.push(m);
                proof {
                    assert(texts(warnings@) =~= texts(before).push(m@));
                }
            }
            proof {
                assert(texts(warnings@) =~= duplicate_warnings(ds.take(j + 1), ks));
            }
            j = j + 1;
        }
        proof {
            assert(ds.take(distinct@.len() as int) =~= ds);
        }
        warnings
    }

    /// Warnings about rule sets that are hard to satisfy or too permissive.
    pub fn check_complexity(&self, strategy: &StrategyAST) -> (r: Vec<String>)
        requires
            size_fits(*strategy),
        ensures
            texts(r@) == complexity_warnings(*strategy),
    {
        let mut warnings: Vec<String> = Vec::new();
        let n = strategy.entry_rules.conditions.len();
        let op = strategy.entry_rules.operator;
        if op == LogicalOperator::And && n > 5 {
            warnings.push(number_message("Entrada tiene ", n, " condiciones AND (puede ser demasiado restrictivo)"));
        }
        let ghost w1 = warnings@;
        if op == LogicalOperator::Or && n > 7 {
            warnings.push(number_message("Entrada tiene ", n, " condiciones OR (puede generar muchas señales)"));
        }
        let ghost w2 = warnings@;
        if strategy.is_multi_timeframe() && strategy.complexity() > 8 {
            warnings.push(text_of("Multi-timeframe strategy with high complexity. Consider simplifying for better performance."));
        }
        proof {
            assert(texts(warnings@) =~= complexity_warnings(*strategy));
        }
        warnings
    }

    fn analyze_multi_timeframe_balance(&self, strategy: &StrategyAST, report: &mut ValidationReport)
        requires
            size_fits(*strategy),
        ensures
            reported(*old(report), *final(report), balance_findings(*strategy)),
    {
        let ghost s = *strategy;
        let ghost r0 = *report;
        proof {
            lemma_reported_none(r0);
            crate::nodes::lemma_count_categories_total(strategy_indicators(s));
            crate::nodes::lemma_conditions_indicators_len(s.entry_rules.conditions@);
            crate::nodes::lemma_conditions_indicators_len(s.exit_rules.conditions@);
        }
        if strategy.is_multi_timeframe() {
            let (nc, nm, nh) = strategy.counts();
            let total = nc + nm + nh;
            let t = total as u128;
            warning_if(report, (nc as u128) * 10 < t * 3 && total > 2,
                text_of("Low proportion of Current timeframe indicators. Consider adding more for signal generation."));
            let ghost r1 = *report;
            warning_if(report, (nh as u128) * 5 > t * 2 && total > 3,
                text_of("High proportion of High timeframe indicators. Consider using fewer for trend context only."));
            let ghost r2 = *report;
            info_if(report, (nm as u128) * 5 > t * 3 && total > 3,
                text_of("Good balance: Medium timeframe indicators provide good intermediate context."));
            proof {
                let f = balance_findings(s);
                assert(texts(report.errors@) =~= texts(r0.errors@) + f.errors);
                assert(texts(report.warnings@) =~= texts(r0.warnings@) + f.warnings);
                assert(texts(report.info@) =~= texts(r0.info@) + f.info);
            }
        }
    }

    fn analyze_strategy_quality(&self, strategy: &StrategyAST, report: &mut ValidationReport)
        requires
            size_fits(*strategy),
        ensures
            reported(*old(report), *final(report), quality_findings(*strategy)),
    {
        let ghost r0 = *report;
        let dups = self.check_duplicates(strategy);
        let complexity = self.check_complexity(strategy);
        let mut i: usize = 0;
        while i < dups.len()
            invariant
                i <= dups@.len(),
                texts(report.errors@) == texts(r0.errors@),
                texts(report.info@) == texts(r0.info@),
                texts(report.warnings@) == texts(r0.warnings@) + texts(dups@).take(i as int),
            decreases dups.len() - i,
        {
            report_warning(report, dups[i].clone());
            proof {
                assert(texts(dups@).take(i + 1) =~= texts(dups@).take(i as int).push(dups@[i as int]@));
            }
            i = i + 1;
        }
        let mut i: usize = 0;
        while i < complexity.len()
            invariant
                i <= complexity@.len(),
                texts(report.errors@) == texts(r0.errors@),
                texts(report.info@) == texts(r0.info@),
                texts(report.warnings@) == texts(r0.warnings@) + texts(dups@) + texts(complexity@).take(i as int),
            decreases complexity.len() - i,
        {
            report_warning(report, complexity[i].clone());
            proof {
                assert(texts(complexity@).take(i + 1) =~= texts(complexity@).take(i as int).push(complexity@[i as int]@));
            }
            i = i + 1;
        }
        proof {
            assert(texts(dups@).take(dups@.len() as int) =~= texts(dups@));
            assert(texts(complexity@).take(complexity@.len() as int) =~= texts(complexity@));
        }
        let ghost r1 = *report;
        self.analyze_multi_timeframe_balance(strategy, report);
        proof {
            let f = quality_findings(*strategy);
            assert(texts(r1.warnings@) =~= texts(r0.warnings@) + (strategy_duplicate_warnings(*strategy) + complexity_warnings(*strategy)));
            assert(texts(report.errors@) =~= texts(r0.errors@) + f.errors);
            assert(texts(report.warnings@) =~= texts(r0.warnings@) + f.warnings);
            assert(texts(report.info@) =~= texts(r0.info@) + f.info);
        }
    }

    /// Full validation with errors, warnings and notes, in this order of
    /// steps: basic checks (name, size, rule sets, distinct indicators),
    /// multi-timeframe checks (number and order of timeframes), every
    /// indicator of the entry then exit conditions against the registry, and
    /// quality analysis (repetitions, rule-set size, category balance).
    pub fn validate_detailed(&self, strategy: &StrategyAST, registry: &IndicatorRegistry) -> (r: ValidationReport)
        requires
            size_fits(*strategy),
        ensures
            texts(r.errors@) == validation_findings(*strategy, self.limits(), registry.indicators@).errors,
            texts(r.warnings@) == validation_findings(*strategy, self.limits(), registry.indicators@).warnings,
            texts(r.info@) == validation_findings(*strategy, self.limits(), registry.indicators@).info,
    {
        let mut report = ValidationReport::new();
        let ghost r0 = report;
        self.validate_basic_strategy(strategy, &mut report);
        let ghost r1 = report;
        self.validate_multi_timeframe(strategy, &mut report);
        let ghost r2 = report;
        validate_conditions(&strategy.entry_rules.conditions, "entrada", registry, &mut report);
        let ghost r3 = report;
        validate_conditions(&strategy.exit_rules.conditions, "salida", registry, &mut report);
        let ghost r4 = report;
        self.analyze_strategy_quality(strategy, &mut report);
        proof {
            let s = *strategy;
            let c = self.limits();
            let reg = registry.indicators@;
            lemma_reported_then(r0, r1, r2, basic_findings(s, c), multi_timeframe_findings(s, c));
            lemma_reported_then(r2, r3, r4, conditions_findings(s.entry_rules.conditions@, "entrada"@, reg),
                conditions_findings(s.exit_rules.conditions@, "salida"@, reg));
            lemma_reported_then(r2, r4, report, then(conditions_findings(s.entry_rules.conditions@, "entrada"@, reg),
                conditions_findings(s.exit_rules.conditions@, "salida"@, reg)), quality_findings(s));
            lemma_reported_then(r0, r2, report, then(basic_findings(s, c), multi_timeframe_findings(s, c)),
                then(then(conditions_findings(s.entry_rules.conditions@, "entrada"@, reg),
                conditions_findings(s.exit_rules.conditions@, "salida"@, reg)), quality_findings(s)));
            assert(texts(report.errors@) =~= validation_findings(s, c, reg).errors);
            assert(texts(report.warnings@) =~= validation_findings(s, c, reg).warnings);
            assert(texts(report.info@) =~= validation_findings(s, c, reg).info);
        }
        report
    }

    /// Ok when full validation finds no error, else the errors.
    pub fn validate(&self, strategy: &StrategyAST, registry: &IndicatorRegistry) -> (r: ValidationResult)
        requires
            size_fits(*strategy),
        ensures
            validation_findings(*strategy, self.limits(), registry.indicators@).errors.len() == 0 ==> r is Ok,
            validation_findings(*strategy, self.limits(), registry.indicators@).errors.len() > 0 ==> (r matches Err(
                e,
            ) && texts(e@) == validation_findings(*strategy, self.limits(), registry.indicators@).errors),
    {
        self.validate_detailed(strategy, registry).to_result()
    }
}

} // verus!

verus! {

// ---------------------------------------------------------------------------
// When a strategy is valid

/// Whether an indicator is registered, has as many parameters as its
/// definition, and each parameter lies within its range.
pub open spec fn indicator_ok(i: IndicatorModel, reg: Seq<IndicatorMetadata>) -> bool {
    match lookup_index(reg, i.name) {
        None => false,
        Some(k) => {
            let defs = reg[k].parameters@;
            &&& i.params.len() == defs.len()
            &&& forall|j: int|
                0 <= j < defs.len() ==> !double_lt(#[trigger] i.params[j].bits, defs[j].min.bits)
                    && !double_lt(defs[j].max.bits, i.params[j].bits)
        },
    }
}

/// Whether the used categories' timeframes strictly ascend.
pub open spec fn timeframes_ascend(s: StrategyAST) -> bool {
    let cur = uses_category(s, TimeframeCategory::Current);
    let med = uses_category(s, TimeframeCategory::Medium);
    let high = uses_category(s, TimeframeCategory::High);
    &&& !(cur && med && !(rank(abs_of(s, TimeframeCategory::Medium)) > rank(abs_of(s, TimeframeCategory::Current))))
    &&& !(med && high && !(rank(abs_of(s, TimeframeCategory::High)) > rank(abs_of(s, TimeframeCategory::Medium))))
}

/// Whether a strategy passes validation.
pub open spec fn strategy_valid(s: StrategyAST, c: StrategyConstraints, reg: Seq<IndicatorMetadata>) -> bool {
    &&& s.name@.len() > 0
    &&& complexity_of(s) <= c.max_conditions
    &&& s.entry_rules.conditions@.len() > 0
    &&& s.exit_rules.conditions@.len() > 0
    &&& unique_indicator_count(s) <= c.max_indicators
    &&& used_categories(s).len() <= c.max_timeframes
    &&& timeframes_ascend(s)
    &&& forall|k: int| 0 <= k < strategy_indicators(s).len() ==> indicator_ok(#[trigger] strategy_indicators(s)[k], reg)
}

proof fn lemma_range_errors_empty(loc: Seq<char>, name: Seq<char>, defs: Seq<ParameterDef>, vals: Seq<ParamValue>, k: nat)
    requires
        k <= defs.len(),
        k <= vals.len(),
    ensures
        range_errors(loc, name, defs, vals, k).len() == 0 <==> forall|j: int|
            0 <= j < k ==> !double_lt(#[trigger] vals[j].bits, defs[j].min.bits) && !double_lt(defs[j].max.bits, vals[j].bits),
    decreases k,
{
    if k > 0 {
        lemma_range_errors_empty(loc, name, defs, vals, (k - 1) as nat);
    }
}

proof fn lemma_indicator_findings_errors(i: IndicatorModel, loc: Seq<char>, reg: Seq<IndicatorMetadata>)
    ensures
        indicator_findings(i, loc, reg).errors.len() == 0 <==> indicator_ok(i, reg),
{
    match lookup_index(reg, i.name) {
        None => {},
        Some(k) => {
            let defs = reg[k].parameters@;
            if i.params.len() == defs.len() {
                lemma_range_errors_empty(loc, i.name, defs, i.params, defs.len());
            }
        },
    }
}

proof fn lemma_condition_findings_errors(c: Condition, loc: Seq<char>, reg: Seq<IndicatorMetadata>)
    ensures
        condition_findings(c, loc, reg).errors.len() == 0 <==> forall|k: int|
            0 <= k < condition_indicators(c).len() ==> indicator_ok(#[trigger] condition_indicators(c)[k], reg),
{
    lemma_indicator_findings_errors(c.indicator@, loc, reg);
    match c.value {
        ConditionValue::Indicator(other) => {
            lemma_indicator_findings_errors(other@, loc + " (valor de comparación)"@, reg);
            assert(condition_indicators(c)[0] == c.indicator@);
            assert(condition_indicators(c)[1] == other@);
        },
        _ => {
            assert(condition_indicators(c)[0] == c.indicator@);
        },
    }
}

proof fn lemma_conditions_findings_errors(cs: Seq<Condition>, kind: Seq<char>, reg: Seq<IndicatorMetadata>)
    ensures
        conditions_findings(cs, kind, reg).errors.len() == 0 <==> forall|k: int|
            0 <= k < conditions_indicators(cs).len() ==> indicator_ok(#[trigger] conditions_indicators(cs)[k], reg),
    decreases cs.len(),
{
    if cs.len() > 0 {
        let prev = cs.drop_last();
        lemma_conditions_findings_errors(prev, kind, reg);
        lemma_condition_findings_errors(cs.last(), location_text(kind, cs.len()), reg);
        let a = conditions_indicators(prev);
        let b = condition_indicators(cs.last());
        assert(conditions_indicators(cs) == a + b);
        if forall|k: int| 0 <= k < (a + b).len() ==> indicator_ok(#[trigger] (a + b)[k], reg) {
            assert forall|k: int| 0 <= k < a.len() implies indicator_ok(#[trigger] a[k], reg) by {
                assert((a + b)[k] == a[k]);
            }
            assert forall|k: int| 0 <= k < b.len() implies indicator_ok(#[trigger] b[k], reg) by {
                assert((a + b)[a.len() + k] == b[k]);
            }
        }
        if (forall|k: int| 0 <= k < a.len() ==> indicator_ok(#[trigger] a[k], reg)) && (forall|k: int|
            0 <= k < b.len() ==> indicator_ok(#[trigger] b[k], reg)) {
            assert forall|k: int| 0 <= k < (a + b).len() implies indicator_ok(#[trigger] (a + b)[k], reg) by {
                if k < a.len() {
                    assert((a + b)[k] == a[k]);
                } else {
                    assert((a + b)[k] == b[k - a.len()]);
                }
            }
        }
    }
}

use crate::nodes::{condition_indicators, conditions_indicators};

proof fn lemma_basic_errors(s: StrategyAST, c: StrategyConstraints)
    ensures
        basic_findings(s, c).errors.len() == 0 <==> (s.name@.len() > 0 && complexity_of(s) <= c.max_conditions
            && s.entry_rules.conditions@.len() > 0 && s.exit_rules.conditions@.len() > 0 && unique_indicator_count(s)
            <= c.max_indicators),
{
}

proof fn lemma_multi_timeframe_errors(s: StrategyAST, c: StrategyConstraints)
    ensures
        multi_timeframe_findings(s, c).errors.len() == 0 <==> (used_categories(s).len() <= c.max_timeframes
            && timeframes_ascend(s)),
{
}

proof fn lemma_quality_no_errors(s: StrategyAST)
    ensures
        quality_findings(s).errors.len() == 0,
{
}

proof fn lemma_indicators_ok_split(a: Seq<IndicatorModel>, b: Seq<IndicatorModel>, reg: Seq<IndicatorMetadata>)
    ensures
        (forall|k: int| 0 <= k < (a + b).len() ==> indicator_ok(#[trigger] (a + b)[k], reg)) <==> ((forall|k: int|
            0 <= k < a.len() ==> indicator_ok(#[trigger] a[k], reg)) && (forall|k: int|
            0 <= k < b.len() ==> indicator_ok(#[trigger] b[k], reg))),
{
    if forall|k: int| 0 <= k < (a + b).len() ==> indicator_ok(#[trigger] (a + b)[k], reg) {
        assert forall|k: int| 0 <= k < a.len() implies indicator_ok(#[trigger] a[k], reg) by {
            assert((a + b)[k] == a[k]);
        }
        assert forall|k: int| 0 <= k < b.len() implies indicator_ok(#[trigger] b[k], reg) by {
            assert((a + b)[a.len() + k] == b[k]);
        }
    }
    if (forall|k: int| 0 <= k < a.len() ==> indicator_ok(#[trigger] a[k], reg)) && (forall|k: int|
        0 <= k < b.len() ==> indicator_ok(#[trigger] b[k], reg)) {
        assert forall|k: int| 0 <= k < (a + b).len() implies indicator_ok(#[trigger] (a + b)[k], reg) by {
            if k < a.len() {
                assert((a + b)[k] == a[k]);
            } else {
                assert((a + b)[k] == b[k - a.len()]);
            }
        }
    }
}

/// A strategy's validation reports no error exactly when it is valid: its
/// name is not empty, it has entry and exit conditions and stays within the
/// limits on conditions, distinct indicators and timeframes, its categories'
/// timeframes strictly ascend, and every indicator is registered with the
/// right number of parameters, each within its range.
pub proof fn lemma_validation_errors_iff_invalid(s: StrategyAST, c: StrategyConstraints, reg: Seq<IndicatorMetadata>)
    ensures
        validation_findings(s, c, reg).errors.len() == 0 <==> strategy_valid(s, c, reg),
{
    let entry = s.entry_rules.conditions@;
    let exit = s.exit_rules.conditions@;
    lemma_basic_errors(s, c);
    lemma_multi_timeframe_errors(s, c);
    lemma_quality_no_errors(s);
    lemma_conditions_findings_errors(entry, "entrada"@, reg);
    lemma_conditions_findings_errors(exit, "salida"@, reg);
    let a = conditions_indicators(entry);
    let b = conditions_indicators(exit);
    assert(strategy_indicators(s) == a + b);
    lemma_indicators_ok_split(a, b, reg);
    let f = validation_findings(s, c, reg);
    assert(f.errors == basic_findings(s, c).errors + multi_timeframe_findings(s, c).errors + (conditions_findings(
        entry,
        "entrada"@,
        reg,
    ).errors + conditions_findings(exit, "salida"@, reg).errors) + quality_findings(s).errors);
}

/// The timeframes of the used categories fail to ascend exactly when Current
/// and Medium are both used with a monthly primary timeframe, or Medium and
/// High are both used with a weekly or monthly one.
pub proof fn lemma_timeframes_ascend_iff(s: StrategyAST)
    ensures
        timeframes_ascend(s) <==> !(uses_category(s, TimeframeCategory::Current) && uses_category(
            s,
            TimeframeCategory::Medium,
        ) && s.primary_timeframe == TimeFrame::MN1) && !(uses_category(s, TimeframeCategory::Medium)
            && uses_category(s, TimeframeCategory::High) && (s.primary_timeframe == TimeFrame::W1
            || s.primary_timeframe == TimeFrame::MN1)),
{
}

} // verus!
