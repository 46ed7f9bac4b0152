use darwinx::builder::{ConditionBuilder, StrategyBuilder};
use darwinx::constraints::StrategyConstraints;
use darwinx::nodes::{ParamValue, TimeframeCategory};
use darwinx::timeframe::TimeFrame;
use darwinx::validator::{IndicatorMetadata, IndicatorRegistry, ParameterDef, StrategyValidator, ValidationReport};

fn p(x: f64) -> ParamValue {
    ParamValue::new(x.to_bits(), format!("{:?}", x), format!("{:.1}", x), format!("{:.2}", x))
}

fn ps(xs: &[f64]) -> Vec<ParamValue> {
    xs.iter().map(|x| p(*x)).collect()
}

fn period_indicator(name: &str, min: f64, max: f64) -> IndicatorMetadata {
    IndicatorMetadata {
        name: name.to_string(),
        parameters: vec![ParameterDef { name: "period".to_string(), min: p(min), max: p(max) }],
    }
}

/// The registry the strategies below are checked against.
fn registry() -> IndicatorRegistry {
    IndicatorRegistry {
        indicators: vec![
            period_indicator("rsi", 2.0, 100.0),
            period_indicator("ema", 2.0, 500.0),
            period_indicator("sma", 2.0, 500.0),
            IndicatorMetadata { name: "volume".to_string(), parameters: vec![] },
        ],
    }
}

#[test]
fn test_multi_timeframe_validation() {
    let strategy = StrategyBuilder::new("Multi-TF Test".to_string(), TimeFrame::M5)
        .add_entry_condition_with_timeframe(
            ConditionBuilder::above("rsi", ps(&[14.0]), 50.0f64.to_bits()),
            TimeframeCategory::Current,
        )
        .add_entry_condition_with_timeframe(
            ConditionBuilder::above("ema", ps(&[200.0]), 100.0f64.to_bits()),
            TimeframeCategory::Medium,
        )
        .add_exit_condition_with_timeframe(
            ConditionBuilder::below("rsi", ps(&[14.0]), 50.0f64.to_bits()),
            TimeframeCategory::Current,
        )
        .build();

    let validator = StrategyValidator::new(StrategyConstraints::default());
    let report = validator.validate_detailed(&strategy, &registry());

    assert!(report.is_valid());
    assert!(report.info.iter().any(|i| i.contains("Multi-timeframe strategy detected")));
}

#[test]
fn test_timeframe_consistency_validation() {
    let strategy = StrategyBuilder::new("Test".to_string(), TimeFrame::H1)
        .add_entry_condition_with_timeframe(
            ConditionBuilder::above("rsi", ps(&[14.0]), 50.0f64.to_bits()),
            TimeframeCategory::Current,
        )
        .add_exit_condition_with_timeframe(
            ConditionBuilder::below("rsi", ps(&[14.0]), 50.0f64.to_bits()),
            TimeframeCategory::Current,
        )
        .build();

    let validator = StrategyValidator::new(StrategyConstraints::default());
    let report = validator.validate_detailed(&strategy, &registry());

    assert!(report.is_valid());
}

#[test]
fn test_cross_timeframe_comparison_warning() {
    let mut strategy = StrategyBuilder::new("Cross-TF Test".to_string(), TimeFrame::M5);

    // Add condition comparing indicators from different timeframes
    let condition = ConditionBuilder::indicator_above_multi_tf(
        "ema",
        ps(&[50.0]),
        TimeframeCategory::Current,
        "sma",
        ps(&[200.0]),
        TimeframeCategory::High,
    );

    strategy = strategy
        .add_entry_condition_with_timeframe(condition, TimeframeCategory::Current)
        .add_exit_condition_with_timeframe(
            ConditionBuilder::below("rsi", ps(&[14.0]), 30.0f64.to_bits()),
            TimeframeCategory::Current,
        );

    let built_strategy = strategy.build();
    let validator = StrategyValidator::new(StrategyConstraints::default());
    let report = validator.validate_detailed(&built_strategy, &registry());

    assert!(report.is_valid());
    // Should have warning about cross-timeframe comparison
    assert!(report.warnings.iter().any(|w| w.contains("different timeframes")));
}

#[test]
fn test_valid_multi_tf_strategy() {
    let strategy =
        StrategyBuilder::golden_cross_multi_tf("Valid Golden Cross".to_string(), TimeFrame::H1, p(50 as f64), p(200 as f64), p(14 as f64))
            .build();

    let validator = StrategyValidator::new(StrategyConstraints::default());
    let result = validator.validate(&strategy, &registry());

    assert!(result.is_ok());
}

#[test]
fn test_too_many_timeframes() {
    let mut strategy = StrategyBuilder::new("Too Many TF".to_string(), TimeFrame::M5);

    // Add indicators from all timeframes to exceed limit
    strategy = strategy
        .add_entry_condition_with_timeframe(
            ConditionBuilder::above("rsi", ps(&[14.0]), 50.0f64.to_bits()),
            TimeframeCategory::Current,
        )
        .add_entry_condition_with_timeframe(
            ConditionBuilder::above("ema", ps(&[50.0]), 100.0f64.to_bits()),
            TimeframeCategory::Medium,
        )
        .add_entry_condition_with_timeframe(
            ConditionBuilder::above("sma", ps(&[200.0]), 100.0f64.to_bits()),
            TimeframeCategory::High,
        )
        .add_exit_condition_with_timeframe(
            ConditionBuilder::below("rsi", ps(&[14.0]), 30.0f64.to_bits()),
            TimeframeCategory::Current,
        );

    let built_strategy = strategy.build();

    // Test with strict constraints that limit timeframes
    let strict_constraints = StrategyConstraints::new(10, 5, 2); // max 2 timeframes
    let validator = StrategyValidator::new(strict_constraints);
    let result = validator.validate(&built_strategy, &registry());

    assert!(result.is_err());
    let errors = result.unwrap_err();
    assert!(errors.iter().any(|e| e.contains("timeframes") && e.contains("excede")));
}

#[test]
fn test_validation_report_structure() {
    let strategy =
        StrategyBuilder::mean_reversion_multi_tf("Report Test".to_string(), TimeFrame::M15, p(14 as f64), p(50 as f64), p(20 as f64))
            .build();

    let validator = StrategyValidator::new(StrategyConstraints::default());
    let report = validator.validate_detailed(&strategy, &registry());

    // Should have info messages
    assert!(!report.info.is_empty());
    assert!(report.info.iter().any(|i| i.contains("Strategy:")));
    assert!(report.info.iter().any(|i| i.contains("Complexity:")));

    // Should be valid
    assert!(report.is_valid());
    assert_eq!(report.to_result(), Ok(()));
}

#[test]
fn validator_test_backward_compatibility() {
    let strategy = StrategyBuilder::new("Legacy Test".to_string(), TimeFrame::H1)
        .add_entry_condition(ConditionBuilder::above("rsi", ps(&[14.0]), 70.0f64.to_bits()))
        .add_exit_condition(ConditionBuilder::below("rsi", ps(&[14.0]), 30.0f64.to_bits()))
        .build();

    let validator = StrategyValidator::new(StrategyConstraints::default());
    let result = validator.validate(&strategy, &registry());

    assert!(result.is_ok());
}

#[test]
fn validation_errors_for_each_rule() {
    // Empty name, no conditions.
    let empty = StrategyBuilder::new(String::new(), TimeFrame::H1).build();
    let errors = StrategyValidator::new(StrategyConstraints::default()).validate(&empty, &registry()).unwrap_err();
    assert!(errors.iter().any(|e| e == "El nombre no puede estar vacío"));
    assert!(errors.iter().any(|e| e == "Debe tener al menos una condición de entrada"));
    assert!(errors.iter().any(|e| e == "Debe tener al menos una condición de salida"));

    // Unknown indicator, wrong parameter count, out-of-range parameters.
    let s = StrategyBuilder::new("Bad".to_string(), TimeFrame::H1)
        .add_entry_condition(ConditionBuilder::above("foo", ps(&[1.0]), 1.0f64.to_bits()))
        .add_entry_condition(ConditionBuilder::above("rsi", ps(&[14.0, 3.0]), 1.0f64.to_bits()))
        .add_exit_condition(ConditionBuilder::below("rsi", ps(&[1.0]), 1.0f64.to_bits()))
        .add_exit_condition(ConditionBuilder::below("ema", ps(&[900.0]), 1.0f64.to_bits()))
        .build();
    let report = StrategyValidator::new(StrategyConstraints::relaxed()).validate_detailed(&s, &registry());
    assert!(!report.is_valid());
    assert!(report.errors.iter().any(|e| e.contains("Indicador 'foo' no encontrado en el registry")));
    assert!(report.errors.iter().any(|e| e.contains("'rsi' requiere 1 parámetros, pero se proporcionaron 2")));
    assert!(report.errors.iter().any(|e| e.contains("= 1.00 está por debajo del mínimo 2.00")));
    assert!(report.errors.iter().any(|e| e.contains("= 900.00 está por encima del máximo 500.00")));
    assert_eq!(report.to_result(), Err(report.errors.clone()));

    // Too many conditions and indicators.
    let many = StrategyBuilder::new("Many".to_string(), TimeFrame::H1)
        .add_entry_condition(ConditionBuilder::above("rsi", ps(&[14.0]), 1.0f64.to_bits()))
        .add_entry_condition(ConditionBuilder::above("ema", ps(&[10.0]), 1.0f64.to_bits()))
        .add_entry_condition(ConditionBuilder::above("sma", ps(&[10.0]), 1.0f64.to_bits()))
        .add_exit_condition(ConditionBuilder::below("rsi", ps(&[7.0]), 1.0f64.to_bits()))
        .build();
    let errors = StrategyValidator::new(StrategyConstraints::strict()).validate(&many, &registry()).unwrap_err();
    assert!(errors.iter().any(|e| e.contains("Complejidad 4 excede el máximo permitido 3")));
    assert!(errors.iter().any(|e| e.contains("Número de indicadores 4 excede el máximo 2")));
}

#[test]
fn duplicates_and_complexity_checks() {
    let validator = StrategyValidator::new(StrategyConstraints::default());
    let twice = StrategyBuilder::new("Twice".to_string(), TimeFrame::H1)
        .add_entry_condition(ConditionBuilder::above("rsi", ps(&[14.0]), 70.0f64.to_bits()))
        .add_exit_condition(ConditionBuilder::below("rsi", ps(&[14.0]), 30.0f64.to_bits()))
        .build();
    assert!(validator.check_duplicates(&twice).is_empty());
    assert!(validator.check_complexity(&twice).is_empty());

    let s = StrategyBuilder::new("Dup".to_string(), TimeFrame::H1)
        .add_entry_condition(ConditionBuilder::above("rsi", ps(&[14.0]), 70.0f64.to_bits()))
        .add_entry_condition(ConditionBuilder::above("rsi", ps(&[14.0]), 60.0f64.to_bits()))
        .add_entry_condition(ConditionBuilder::above("rsi", ps(&[14.0]), 50.0f64.to_bits()))
        .add_entry_condition(ConditionBuilder::above("rsi", ps(&[14.0]), 40.0f64.to_bits()))
        .add_entry_condition(ConditionBuilder::above("ema", ps(&[14.0]), 40.0f64.to_bits()))
        .add_entry_condition(ConditionBuilder::above("sma", ps(&[14.0]), 40.0f64.to_bits()))
        .add_exit_condition(ConditionBuilder::below("rsi", ps(&[9.0]), 30.0f64.to_bits()))
        .build();
    let warnings = validator.check_duplicates(&s);
    assert_eq!(warnings, vec!["Indicador rsi([14.0])@Current aparece 4 veces (posible redundancia)".to_string()]);
    assert_eq!(
        validator.check_complexity(&s),
        vec!["Entrada tiene 6 condiciones AND (puede ser demasiado restrictivo)".to_string()]
    );
    assert!(validator.is_timeframe_higher(&TimeFrame::H4, &TimeFrame::H1));
    assert!(!validator.is_timeframe_higher(&TimeFrame::H1, &TimeFrame::H1));
}

#[test]
fn report_accumulates_in_order() {
    let mut report = ValidationReport::new();
    assert!(report.is_valid());
    assert_eq!(report.to_result(), Ok(()));
    report.add_warning("w".to_string());
    report.add_info("i".to_string());
    assert!(report.is_valid());
    report.add_error("e1".to_string());
    report.add_error("e2".to_string());
    assert!(!report.is_valid());
    assert_eq!(report.to_result(), Err(vec!["e1".to_string(), "e2".to_string()]));
    assert_eq!(report.warnings, vec!["w".to_string()]);
    assert_eq!(report.info, vec!["i".to_string()]);
}

#[test]
fn weekly_primary_with_medium_and_high_is_out_of_order() {
    let strategy = StrategyBuilder::new("Weekly".to_string(), TimeFrame::W1)
        .add_entry_condition_with_timeframe(
            ConditionBuilder::above("rsi", ps(&[14.0]), 50.0f64.to_bits()),
            TimeframeCategory::Medium,
        )
        .add_exit_condition_with_timeframe(
            ConditionBuilder::below("sma", ps(&[20.0]), 50.0f64.to_bits()),
            TimeframeCategory::High,
        )
        .build();
    let validator = StrategyValidator::new(StrategyConstraints::default());
    let report = validator.validate_detailed(&strategy, &registry());
    assert!(report.errors.iter().any(|e| e == "High timeframe (MN1) should be higher than Medium timeframe (MN1)"));

    let daily = StrategyBuilder::new("Daily".to_string(), TimeFrame::D1)
        .add_entry_condition_with_timeframe(
            ConditionBuilder::above("rsi", ps(&[14.0]), 50.0f64.to_bits()),
            TimeframeCategory::Medium,
        )
        .add_exit_condition_with_timeframe(
            ConditionBuilder::below("sma", ps(&[20.0]), 50.0f64.to_bits()),
            TimeframeCategory::High,
        )
        .build();
    let report = validator.validate_detailed(&daily, &registry());
    assert!(!report.errors.iter().any(|e| e.contains("should be higher")));
}
