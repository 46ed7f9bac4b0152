use darwinx::builder::{ConditionBuilder, StrategyBuilder};
use darwinx::constraints::StrategyConstraints;
use darwinx::nodes::{
    Comparison, Condition, ConditionValue, IndicatorType, LogicalOperator, ParamValue, StrategyAST,
    TimeframeCategory,
};
use darwinx::timeframe::TimeFrame;

/// A parameter value with the renderings that `{:?}`, `{:.1}` and `{:.2}` give.
fn p(x: f64) -> ParamValue {
    ParamValue::new(x.to_bits(), format!("{:?}", x), format!("{:.1}", x), format!("{:.2}", x))
}

fn ps(xs: &[f64]) -> Vec<ParamValue> {
    xs.iter().map(|x| p(*x)).collect()
}

fn number_of(value: &ConditionValue) -> Option<f64> {
    match value {
        ConditionValue::Number(bits) => Some(f64::from_bits(*bits)),
        _ => None,
    }
}

#[test]
fn test_default_constraints() {
    let constraints = StrategyConstraints::default();
    assert_eq!(constraints.max_conditions, 6);
    assert_eq!(constraints.max_indicators, 4);
    assert_eq!(constraints.max_timeframes, 2);
    assert!(constraints.allows_multi_timeframe());
}

#[test]
fn test_strict_constraints() {
    let constraints = StrategyConstraints::strict();
    assert_eq!(constraints.max_conditions, 3);
    assert_eq!(constraints.max_timeframes, 1);
    assert!(!constraints.allows_multi_timeframe());
    assert!(constraints.max_conditions < StrategyConstraints::default().max_conditions);
}

#[test]
fn test_relaxed_constraints() {
    let constraints = StrategyConstraints::relaxed();
    assert_eq!(constraints.max_conditions, 10);
    assert_eq!(constraints.max_timeframes, 3);
    assert!(constraints.allows_multi_timeframe());
    assert!(constraints.max_conditions > StrategyConstraints::default().max_conditions);
}

#[test]
fn test_new_presets() {
    let massive = StrategyConstraints::massive_screening();
    assert!(massive.allows_multi_timeframe());
    assert_eq!(massive.max_timeframes, 3);

    let professional = StrategyConstraints::professional();
    assert!(professional.allows_multi_timeframe());
    assert!(professional.max_conditions >= massive.max_conditions);

    let backtest = StrategyConstraints::backtest_optimization();
    assert!(backtest.allows_multi_timeframe());
    assert_eq!(backtest.max_timeframes, 2);
}

#[test]
fn test_compatibility() {
    let strict = StrategyConstraints::strict();
    let moderate = StrategyConstraints::moderate();
    let relaxed = StrategyConstraints::relaxed();

    // Relaxed should be compatible with moderate and strict
    assert!(relaxed.is_compatible_with(&moderate));
    assert!(relaxed.is_compatible_with(&strict));

    // Moderate should be compatible with strict
    assert!(moderate.is_compatible_with(&strict));

    // But not the reverse
    assert!(!strict.is_compatible_with(&moderate));
    assert!(!moderate.is_compatible_with(&relaxed));
}

#[test]
fn test_intersection_and_union() {
    let strict = StrategyConstraints::strict();
    let relaxed = StrategyConstraints::relaxed();

    let intersection = strict.intersection(&relaxed);
    assert_eq!(intersection.max_conditions, strict.max_conditions);
    assert_eq!(intersection.max_timeframes, strict.max_timeframes);

    let union = strict.union(&relaxed);
    assert_eq!(union.max_conditions, relaxed.max_conditions);
    assert_eq!(union.max_timeframes, relaxed.max_timeframes);
}

#[test]
fn strategy_test_display() {
    let constraints = StrategyConstraints::moderate();
    let display = constraints.display();
    assert!(display.contains("conditions: 6"));
    assert!(display.contains("indicators: 4"));
    assert!(display.contains("timeframes: 2"));
}

#[test]
fn strategy_test_custom_constraints() {
    let custom = StrategyConstraints::new(15, 10, 4);
    assert_eq!(custom.max_conditions, 15);
    assert_eq!(custom.max_indicators, 10);
    assert_eq!(custom.max_timeframes, 4);
    assert!(custom.allows_multi_timeframe());
}

#[test]
fn constraints_display_exact_and_lattice() {
    assert_eq!(
        StrategyConstraints::moderate().display(),
        "StrategyConstraints { conditions: 6, indicators: 4, timeframes: 2 }"
    );
    let a = StrategyConstraints::new(5, 9, 1);
    let b = StrategyConstraints::new(7, 3, 2);
    let meet = a.intersection(&b);
    let join = a.union(&b);
    assert_eq!((meet.max_conditions, meet.max_indicators, meet.max_timeframes), (5, 3, 1));
    assert_eq!((join.max_conditions, join.max_indicators, join.max_timeframes), (7, 9, 2));
    assert!(join.is_compatible_with(&a) && join.is_compatible_with(&b));
    assert!(a.is_compatible_with(&meet) && b.is_compatible_with(&meet));
    assert!(!a.is_compatible_with(&b) && !b.is_compatible_with(&a));
    assert!(a.is_compatible_with(&a));
    assert_eq!(StrategyConstraints::default(), StrategyConstraints::moderate());
    assert!(!StrategyConstraints::new(1, 1, 1).allows_multi_timeframe());
}

#[test]
fn test_timeframe_category_mapping() {
    // Test 5m primary timeframe
    assert_eq!(TimeframeCategory::Current.to_absolute_timeframe(TimeFrame::M5), TimeFrame::M5);
    assert_eq!(TimeframeCategory::Medium.to_absolute_timeframe(TimeFrame::M5), TimeFrame::M15);
    assert_eq!(TimeframeCategory::High.to_absolute_timeframe(TimeFrame::M5), TimeFrame::H1);

    // Test 1h primary timeframe
    assert_eq!(TimeframeCategory::Current.to_absolute_timeframe(TimeFrame::H1), TimeFrame::H1);
    assert_eq!(TimeframeCategory::Medium.to_absolute_timeframe(TimeFrame::H1), TimeFrame::H4);
    assert_eq!(TimeframeCategory::High.to_absolute_timeframe(TimeFrame::H1), TimeFrame::D1);
}

#[test]
fn category_mapping_never_descends() {
    for tf in TimeFrame::all() {
        let cur = TimeframeCategory::Current.to_absolute_timeframe(tf).to_millis();
        let med = TimeframeCategory::Medium.to_absolute_timeframe(tf).to_millis();
        let high = TimeframeCategory::High.to_absolute_timeframe(tf).to_millis();
        assert_eq!(cur, tf.to_millis());
        assert!(cur <= med && med <= high);
    }
    assert_eq!(TimeframeCategory::Medium.to_absolute_timeframe(TimeFrame::M30), TimeFrame::H1);
    assert_eq!(TimeframeCategory::High.to_absolute_timeframe(TimeFrame::M30), TimeFrame::H4);
    assert_eq!(TimeframeCategory::Medium.to_absolute_timeframe(TimeFrame::MN1), TimeFrame::MN1);
    assert_eq!(TimeframeCategory::all(), vec![TimeframeCategory::Current, TimeframeCategory::Medium, TimeframeCategory::High]);
    assert_eq!(TimeframeCategory::High.display_name(), "High");
}

#[test]
fn test_strategy_creation() {
    let strategy = StrategyAST::new("Multi-TF Test".to_string(), TimeFrame::M5);
    assert_eq!(strategy.name, "Multi-TF Test");
    assert_eq!(strategy.primary_timeframe, TimeFrame::M5);
    assert_eq!(strategy.complexity(), 0);
    assert!(!strategy.is_multi_timeframe());
}

#[test]
fn test_indicator_with_timeframe() {
    let indicator = IndicatorType::new("rsi", ps(&[14.0]), TimeframeCategory::Medium);
    assert_eq!(indicator.name(), "rsi");
    assert_eq!(indicator.timeframe_category(), TimeframeCategory::Medium);
    assert_eq!(indicator.absolute_timeframe(TimeFrame::M5), TimeFrame::M15);
    assert_eq!(indicator.display(), "rsi(14.0)@Medium");
}

#[test]
fn test_multi_timeframe_strategy() {
    let mut strategy = StrategyAST::new("Multi-TF Test".to_string(), TimeFrame::M5);

    // Add indicators from different timeframes
    strategy.entry_rules.conditions.push(Condition {
        indicator: IndicatorType::new("rsi", ps(&[14.0]), TimeframeCategory::Current),
        comparison: Comparison::GreaterThan,
        value: ConditionValue::Number(50.0f64.to_bits()),
    });

    strategy.entry_rules.conditions.push(Condition {
        indicator: IndicatorType::new("ema", ps(&[200.0]), TimeframeCategory::Medium),
        comparison: Comparison::GreaterThan,
        value: ConditionValue::Number(100.0f64.to_bits()),
    });

    assert!(strategy.is_multi_timeframe());
    assert_eq!(strategy.timeframe_count(), 2);

    let mapping = strategy.timeframe_mapping();
    let lookup = |cat: TimeframeCategory| mapping.iter().find(|(c, _)| *c == cat).unwrap().1;
    assert_eq!(lookup(TimeframeCategory::Current), TimeFrame::M5);
    assert_eq!(lookup(TimeframeCategory::Medium), TimeFrame::M15);
}

#[test]
fn test_indicator_display() {
    let rsi = IndicatorType::new("rsi", ps(&[14.0]), TimeframeCategory::Current);
    assert_eq!(rsi.display(), "rsi(14.0)@Current");
    assert_eq!(rsi.display_with_absolute_timeframe(TimeFrame::M5), "rsi(14.0)@M5");

    let macd = IndicatorType::new("macd", ps(&[12.0, 26.0, 9.0]), TimeframeCategory::High);
    assert_eq!(macd.display(), "macd(12.0, 26.0, 9.0)@High");

    let obv = IndicatorType::new("obv", vec![], TimeframeCategory::Medium);
    assert_eq!(obv.display(), "obv@Medium");
}

#[test]
fn nodes_test_backward_compatibility() {
    let indicator = IndicatorType::new_legacy("sma", ps(&[20.0]));
    assert_eq!(indicator.timeframe_category(), TimeframeCategory::Current);

    // An indicator with one period parameter of 14.
    let indicator2 = IndicatorType::new_legacy("rsi", ps(&[14 as f64]));
    assert_eq!(indicator2.timeframe_category(), TimeframeCategory::Current);
}

#[test]
fn test_strategy_summary() {
    let mut strategy = StrategyAST::new("Complex Multi-TF".to_string(), TimeFrame::H1);

    strategy.entry_rules.conditions.push(Condition {
        indicator: IndicatorType::new("rsi", ps(&[14.0]), TimeframeCategory::Current),
        comparison: Comparison::GreaterThan,
        value: ConditionValue::Number(50.0f64.to_bits()),
    });

    strategy.entry_rules.conditions.push(Condition {
        indicator: IndicatorType::new("ema", ps(&[200.0]), TimeframeCategory::High),
        comparison: Comparison::GreaterThan,
        value: ConditionValue::Indicator(IndicatorType::new("sma", ps(&[50.0]), TimeframeCategory::Medium)),
    });

    let summary = strategy.display_summary();
    assert!(summary.contains("Complex Multi-TF"));
    assert!(summary.contains("Multi-timeframe"));
    assert!(summary.contains("H1"));
}

#[test]
fn strategy_statistics_and_indicators() {
    let mut strategy = StrategyAST::new("Stats".to_string(), TimeFrame::H1);
    strategy.entry_rules.conditions.push(Condition {
        indicator: IndicatorType::new("ema", ps(&[200.0]), TimeframeCategory::High),
        comparison: Comparison::GreaterThan,
        value: ConditionValue::Indicator(IndicatorType::new("sma", ps(&[50.0]), TimeframeCategory::Medium)),
    });
    strategy.exit_rules.conditions.push(Condition {
        indicator: IndicatorType::new("rsi", ps(&[14.0]), TimeframeCategory::High),
        comparison: Comparison::LessThan,
        value: ConditionValue::Price,
    });
    assert_eq!(strategy.complexity(), 2);
    let names: Vec<&str> = strategy.all_indicators().iter().map(|i| i.name()).collect();
    assert_eq!(names, vec!["ema", "sma", "rsi"]);
    assert_eq!(strategy.used_timeframe_categories(), vec![TimeframeCategory::Medium, TimeframeCategory::High]);
    assert_eq!(
        strategy.indicator_stats_by_timeframe(),
        vec![(TimeframeCategory::Medium, 1), (TimeframeCategory::High, 2)]
    );
    assert_eq!(
        strategy.timeframe_mapping(),
        vec![(TimeframeCategory::Medium, TimeFrame::H4), (TimeframeCategory::High, TimeFrame::D1)]
    );
    assert!(strategy.is_multi_timeframe());
    assert_eq!(strategy.timeframe_count(), 2);
    assert!(strategy.exit_rules.conditions[0].indicator.uses_timeframe_category(TimeframeCategory::High));
    assert_eq!(strategy.entry_rules.operator, LogicalOperator::And);
}

#[test]
fn test_multi_timeframe_strategy_creation() {
    let strategy = StrategyBuilder::new("Multi-TF Test".to_string(), TimeFrame::M5)
        .add_entry_condition_with_timeframe(
            ConditionBuilder::above("rsi", ps(&[14.0]), 50.0f64.to_bits()),
            TimeframeCategory::Current,
        )
        .add_entry_condition_with_timeframe(
            ConditionBuilder::above("ema", ps(&[200.0]), 100.0f64.to_bits()),
            TimeframeCategory::Medium, // 15m timeframe
        )
        .build();

    assert_eq!(strategy.primary_timeframe, TimeFrame::M5);
    assert_eq!(strategy.entry_rules.conditions.len(), 2);

    // Verify timeframe categories
    assert_eq!(strategy.entry_rules.conditions[0].indicator.timeframe_category, TimeframeCategory::Current);
    assert_eq!(strategy.entry_rules.conditions[1].indicator.timeframe_category, TimeframeCategory::Medium);
}

#[test]
fn test_multi_timeframe_builder() {
    let strategy = StrategyBuilder::new("Multi-TF Test".to_string(), TimeFrame::M5)
        .add_entry_condition_with_timeframe(
            ConditionBuilder::above("rsi", ps(&[14.0]), 50.0f64.to_bits()),
            TimeframeCategory::Current,
        )
        .add_entry_condition_with_timeframe(
            ConditionBuilder::above("ema", ps(&[200.0]), 100.0f64.to_bits()),
            TimeframeCategory::Medium,
        )
        .build();

    assert_eq!(strategy.name, "Multi-TF Test");
    assert_eq!(strategy.primary_timeframe, TimeFrame::M5);
    assert_eq!(strategy.entry_rules.conditions.len(), 2);
    assert!(strategy.is_multi_timeframe());
    assert_eq!(strategy.timeframe_count(), 2);
}

#[test]
fn test_golden_cross_multi_tf() {
    let strategy = StrategyBuilder::golden_cross_multi_tf(
        "Golden Cross Multi-TF".to_string(),
        TimeFrame::H1,
        p(50 as f64),
        p(200 as f64),
        p(14 as f64),
    );

    let built_strategy = strategy.build();
    assert_eq!(built_strategy.name, "Golden Cross Multi-TF");
    assert_eq!(built_strategy.primary_timeframe, TimeFrame::H1);
    assert!(built_strategy.is_multi_timeframe());
    assert_eq!(built_strategy.entry_rules.conditions.len(), 3);
    assert_eq!(built_strategy.exit_rules.conditions.len(), 2);
}

#[test]
fn test_mean_reversion_multi_tf() {
    let strategy = StrategyBuilder::mean_reversion_multi_tf(
        "Mean Reversion Multi-TF".to_string(),
        TimeFrame::M15,
        p(14 as f64),
        p(50 as f64),
        p(20 as f64),
    );

    let built_strategy = strategy.build();
    assert_eq!(built_strategy.name, "Mean Reversion Multi-TF");
    assert_eq!(built_strategy.primary_timeframe, TimeFrame::M15);
    assert!(built_strategy.is_multi_timeframe());
}

#[test]
fn golden_cross_conditions_in_detail() {
    let s = StrategyBuilder::golden_cross_multi_tf("G".to_string(), TimeFrame::H1, p(50.0), p(200.0), p(14.0)).build();
    let entry: Vec<String> = s.entry_rules.conditions.iter().map(|c| c.indicator.display()).collect();
    assert_eq!(entry, vec!["ema(50.0)@Current", "rsi(14.0)@Current", "ema(200.0)@Medium"]);
    assert_eq!(s.entry_rules.conditions[0].comparison, Comparison::CrossesAbove);
    assert_eq!(number_of(&s.entry_rules.conditions[1].value), Some(50.0));
    assert_eq!(number_of(&s.entry_rules.conditions[2].value), Some(0.0));
    assert_eq!(s.entry_rules.operator, LogicalOperator::And);
    assert_eq!(s.exit_rules.operator, LogicalOperator::Or);
    assert_eq!(s.exit_rules.conditions[0].comparison, Comparison::CrossesBelow);
    assert_eq!(number_of(&s.exit_rules.conditions[1].value), Some(70.0));
    assert_eq!(s.timeframe_mapping(), vec![(TimeframeCategory::Current, TimeFrame::H1), (TimeframeCategory::Medium, TimeFrame::H4)]);
}

#[test]
fn test_condition_builder_multi_tf() {
    let condition = ConditionBuilder::above_with_timeframe("rsi", ps(&[14.0]), 70.0f64.to_bits(), TimeframeCategory::Medium);

    assert_eq!(condition.indicator.name(), "rsi");
    assert_eq!(condition.indicator.timeframe_category(), TimeframeCategory::Medium);
    assert_eq!(condition.comparison, Comparison::GreaterThan);
}

#[test]
fn test_multi_tf_indicator_conditions() {
    let condition = ConditionBuilder::indicator_above_multi_tf(
        "ema",
        ps(&[50.0]),
        TimeframeCategory::Current,
        "sma",
        ps(&[200.0]),
        TimeframeCategory::High,
    );

    assert_eq!(condition.indicator.timeframe_category(), TimeframeCategory::Current);

    if let ConditionValue::Indicator(ind) = &condition.value {
        assert_eq!(ind.timeframe_category(), TimeframeCategory::High);
    } else {
        panic!("Expected Indicator value");
    }
}

#[test]
fn test_crosses_multi_tf() {
    let condition = ConditionBuilder::crosses_above_multi_tf(
        "ema",
        ps(&[12.0]),
        TimeframeCategory::Current,
        "ema",
        ps(&[26.0]),
        TimeframeCategory::Medium,
    );

    assert_eq!(condition.comparison, Comparison::CrossesAbove);
    assert_eq!(condition.indicator.timeframe_category(), TimeframeCategory::Current);
}

#[test]
fn test_multiple_conditions_multi_tf() {
    let conditions = vec![
        (ConditionBuilder::above("rsi", ps(&[14.0]), 50.0f64.to_bits()), TimeframeCategory::Current),
        (ConditionBuilder::above("ema", ps(&[200.0]), 100.0f64.to_bits()), TimeframeCategory::High),
    ];

    let strategy = StrategyBuilder::new("Multi Conditions".to_string(), TimeFrame::M5)
        .add_entry_conditions_multi_tf(conditions)
        .build();

    assert_eq!(strategy.entry_rules.conditions.len(), 2);
    assert!(strategy.is_multi_timeframe());
}

#[test]
fn builder_test_backward_compatibility() {
    // Test que los métodos legacy siguen funcionando
    let strategy = StrategyBuilder::new("Legacy Test".to_string(), TimeFrame::H1)
        .add_entry_condition(ConditionBuilder::above("rsi", ps(&[14.0]), 70.0f64.to_bits()))
        .add_exit_condition(ConditionBuilder::below("rsi", ps(&[14.0]), 30.0f64.to_bits()))
        .build();

    assert_eq!(strategy.name, "Legacy Test");
    assert_eq!(strategy.entry_rules.conditions.len(), 1);
    assert_eq!(strategy.exit_rules.conditions.len(), 1);

    // Todos los indicadores deberían estar en Current timeframe por defecto
    assert!(!strategy.is_multi_timeframe());
}

#[test]
fn test_price_conditions_with_timeframe() {
    let condition1 = ConditionBuilder::above_price_with_timeframe("sma", ps(&[20.0]), TimeframeCategory::Medium);

    assert_eq!(condition1.indicator.timeframe_category(), TimeframeCategory::Medium);

    let condition2 = ConditionBuilder::below_price_with_timeframe("ema", ps(&[50.0]), TimeframeCategory::High);

    assert_eq!(condition2.indicator.timeframe_category(), TimeframeCategory::High);
}

#[test]
fn condition_builders_set_comparison_and_value() {
    let c = ConditionBuilder::equals("rsi", ps(&[14.0]), 50.0f64.to_bits());
    assert_eq!(c.comparison, Comparison::Equals);
    assert_eq!(number_of(&c.value), Some(50.0));
    let c = ConditionBuilder::crosses_below_value("macd", ps(&[12.0, 26.0, 9.0]), 0.0f64.to_bits());
    assert_eq!(c.comparison, Comparison::CrossesBelow);
    assert_eq!(c.indicator.timeframe_category(), TimeframeCategory::Current);
    // The price crossing above the indicator is the indicator crossing below it.
    let c = ConditionBuilder::price_crosses_above("sma", ps(&[20.0]));
    assert_eq!(c.comparison, Comparison::CrossesBelow);
    assert!(matches!(c.value, ConditionValue::Price));
    let c = ConditionBuilder::below_price("ema", ps(&[9.0]));
    assert_eq!(c.comparison, Comparison::LessThan);
    // A condition added with a category gives it to its own indicator; the
    // compared indicator keeps its category.
    let s = StrategyBuilder::new("R".to_string(), TimeFrame::M5)
        .add_exit_condition_with_timeframe(
            ConditionBuilder::crosses_above("ema", ps(&[12.0]), "ema", ps(&[26.0])),
            TimeframeCategory::High,
        )
        .exit_operator(LogicalOperator::Or)
        .build();
    assert_eq!(s.exit_rules.conditions[0].indicator.timeframe_category(), TimeframeCategory::High);
    if let ConditionValue::Indicator(ind) = &s.exit_rules.conditions[0].value {
        assert_eq!(ind.timeframe_category(), TimeframeCategory::Current);
    } else {
        panic!("Expected Indicator value");
    }
    assert_eq!(s.exit_rules.operator, LogicalOperator::Or);
}

#[test]
fn test_golden_cross_example_properties() {
    let strategy =
        StrategyBuilder::golden_cross_multi_tf("Test Golden Cross".to_string(), TimeFrame::H1, p(50 as f64), p(200 as f64), p(14 as f64))
            .build();

    assert!(strategy.is_multi_timeframe());
    assert!(strategy.entry_rules.conditions.len() >= 3);
    assert!(strategy.exit_rules.conditions.len() >= 2);
}

#[test]
fn all_indicators_lists_each_indicator_once() {
    let mut strategy = StrategyAST::new("Dup".to_string(), TimeFrame::H1);
    for _ in 0..2 {
        strategy.entry_rules.conditions.push(Condition {
            indicator: IndicatorType::new("rsi", ps(&[14.0]), TimeframeCategory::Current),
            comparison: Comparison::LessThan,
            value: ConditionValue::Number(30.0f64.to_bits()),
        });
    }
    strategy.exit_rules.conditions.push(Condition {
        indicator: IndicatorType::new("rsi", ps(&[21.0]), TimeframeCategory::Current),
        comparison: Comparison::GreaterThan,
        value: ConditionValue::Indicator(IndicatorType::new("rsi", ps(&[14.0]), TimeframeCategory::Current)),
    });
    strategy.exit_rules.conditions.push(Condition {
        indicator: IndicatorType::new("rsi", ps(&[14.0]), TimeframeCategory::High),
        comparison: Comparison::GreaterThan,
        value: ConditionValue::Price,
    });
    let found: Vec<(String, TimeframeCategory)> = strategy
        .all_indicators()
        .iter()
        .map(|i| (format!("{}{:?}", i.name(), i.params().len()), i.timeframe_category()))
        .collect();
    assert_eq!(
        found,
        vec![
            ("rsi1".to_string(), TimeframeCategory::Current),
            ("rsi1".to_string(), TimeframeCategory::Current),
            ("rsi1".to_string(), TimeframeCategory::High),
        ]
    );
    let periods: Vec<String> = strategy.all_indicators().iter().map(|i| i.params()[0].debug_text.clone()).collect();
    assert_eq!(periods, vec!["14.0", "21.0", "14.0"]);
}
