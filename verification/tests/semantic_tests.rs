use darwinx::doubles::double_less_than;
use darwinx::semantic::{IndicatorCategory, SemanticConstraints};

fn score(bits: u64) -> f64 {
    f64::from_bits(bits)
}

#[test]
fn test_default_semantic_constraints() {
    let constraints = SemanticConstraints::default();
    assert_eq!(score(constraints.max_similarity_score), 0.7);
    assert_eq!(score(constraints.max_complexity_score), 15.0);
    assert!(constraints.allows_category(&IndicatorCategory::Trend));
}

#[test]
fn test_category_limits() {
    let constraints = SemanticConstraints::moderate();
    assert_eq!(constraints.limit_for_category(&IndicatorCategory::Trend), 2);
    assert_eq!(constraints.limit_for_category(&IndicatorCategory::Volume), 1);
}

#[test]
fn test_strict_vs_relaxed() {
    let strict = SemanticConstraints::strict();
    let relaxed = SemanticConstraints::relaxed();

    assert!(score(strict.max_similarity_score) < score(relaxed.max_similarity_score));
    assert!(double_less_than(strict.max_similarity_score, relaxed.max_similarity_score));
    assert!(score(strict.max_complexity_score) < score(relaxed.max_complexity_score));
    assert!(double_less_than(strict.max_complexity_score, relaxed.max_complexity_score));
    assert!(
        strict.limit_for_category(&IndicatorCategory::Trend) < relaxed.limit_for_category(&IndicatorCategory::Trend)
    );
}

#[test]
fn semantic_test_custom_constraints() {
    let categories = vec![(IndicatorCategory::Trend, 5), (IndicatorCategory::Momentum, 3)];

    let constraints = SemanticConstraints::new(categories, 0.6f64.to_bits(), 20.0f64.to_bits());
    assert_eq!(score(constraints.max_similarity_score), 0.6);
    assert_eq!(constraints.limit_for_category(&IndicatorCategory::Trend), 5);
}

#[test]
fn test_phase_3_placeholders() {
    let mut constraints = SemanticConstraints::default();

    assert!(constraints.load_correlation_matrix().is_ok());

    let similarity = constraints.calculate_similarity("rsi", "stochastic");
    assert_eq!(score(similarity), 0.0);

    let validation = constraints.validate_indicator_combination(&["rsi".to_string(), "sma".to_string()]);
    assert!(validation.is_ok());
}

#[test]
fn test_semantic_constraints() {
    let semantic_constraints = SemanticConstraints::default();
    assert!(score(semantic_constraints.max_similarity_score) > 0.0);
    assert!(score(semantic_constraints.max_similarity_score) <= 1.0);
}

#[test]
fn semantic_limits_default_and_replacement() {
    let constraints = SemanticConstraints::new(
        vec![(IndicatorCategory::Volume, 0), (IndicatorCategory::Trend, 4), (IndicatorCategory::Volume, 2)],
        0.5f64.to_bits(),
        1.0f64.to_bits(),
    );
    // The later entry for a category replaces the earlier one.
    assert_eq!(constraints.limit_for_category(&IndicatorCategory::Volume), 2);
    // A category with no entry gets a limit of 1.
    assert_eq!(constraints.limit_for_category(&IndicatorCategory::Volatility), 1);
    let closed = SemanticConstraints::new(vec![(IndicatorCategory::Momentum, 0)], 0, 0);
    assert!(!closed.allows_category(&IndicatorCategory::Momentum));
    assert!(closed.allows_category(&IndicatorCategory::Trend));
    let strict = SemanticConstraints::strict();
    for c in [IndicatorCategory::Trend, IndicatorCategory::Momentum, IndicatorCategory::Volume, IndicatorCategory::Volatility] {
        assert_eq!(strict.limit_for_category(&c), 1);
        assert!(strict.limit_for_category(&c) <= SemanticConstraints::moderate().limit_for_category(&c));
        assert!(
            SemanticConstraints::moderate().limit_for_category(&c) <= SemanticConstraints::relaxed().limit_for_category(&c)
        );
    }
    assert_eq!(score(SemanticConstraints::relaxed().max_similarity_score), 0.85);
    assert_eq!(score(SemanticConstraints::relaxed().max_complexity_score), 25.0);
    assert_eq!(score(strict.max_similarity_score), 0.5);
    assert_eq!(score(strict.max_complexity_score), 10.0);
}
