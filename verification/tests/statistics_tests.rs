use darwinx::engine::{entry_side, exit_reason, signal_query, ExitReason, PolarsBacktestEngine, SignalQuery};
use darwinx::builder::{ConditionBuilder, StrategyBuilder};
use darwinx::engine::PolarsVectorizedBacktestEngine;
use darwinx::nodes::{ParamValue, TimeframeCategory};
use darwinx::order::PositionSide;
use darwinx::timeframe::TimeFrame;
use darwinx::statistics::{
    calculate_max_consecutive_losses, calculate_max_consecutive_wins, calculate_max_drawdown_duration,
};

fn p(x: f64) -> ParamValue {
    ParamValue::new(x.to_bits(), format!("{:?}", x), format!("{:.1}", x), format!("{:.2}", x))
}

fn bits(xs: &[f64]) -> Vec<u64> {
    xs.iter().map(|x| x.to_bits()).collect()
}

#[test]
fn consecutive_wins_and_losses() {
    let pnls = bits(&[10.0, 5.0, -3.0, 2.0, 4.0, 6.0, -1.0, -2.0, 0.0, -5.0]);
    assert_eq!(calculate_max_consecutive_wins(&pnls), 3);
    assert_eq!(calculate_max_consecutive_losses(&pnls), 2);
    assert_eq!(calculate_max_consecutive_wins(&[]), 0);
    assert_eq!(calculate_max_consecutive_losses(&[]), 0);
}

#[test]
fn zero_and_nan_break_streaks() {
    let pnls = bits(&[1.0, f64::NAN, 1.0, -0.0, 1.0, 1.0]);
    assert_eq!(calculate_max_consecutive_wins(&pnls), 2);
    let pnls = bits(&[-1.0, 0.0, -1.0, -1.0, f64::NAN, -1.0]);
    assert_eq!(calculate_max_consecutive_losses(&pnls), 2);
    let all_wins = bits(&[0.1; 7]);
    assert_eq!(calculate_max_consecutive_wins(&all_wins), 7);
    assert_eq!(calculate_max_consecutive_losses(&all_wins), 0);
}

#[test]
fn drawdown_duration_counts_candles_since_peak() {
    assert_eq!(calculate_max_drawdown_duration(&[]), 0);
    assert_eq!(calculate_max_drawdown_duration(&bits(&[100.0])), 0);
    // Peak at 0, below it at 1..=3, new peak at 4, below at 5.
    let equity = bits(&[100.0, 90.0, 95.0, 99.0, 120.0, 110.0]);
    assert_eq!(calculate_max_drawdown_duration(&equity), 3);
    // Equal to the peak neither resets nor extends.
    let equity = bits(&[100.0, 100.0, 100.0, 50.0]);
    assert_eq!(calculate_max_drawdown_duration(&equity), 3);
    // Rising equity never draws down.
    assert_eq!(calculate_max_drawdown_duration(&bits(&[1.0, 2.0, 3.0])), 0);
}

#[test]
fn engine_decisions() {
    let _engine = PolarsBacktestEngine::new();
    let _default = PolarsBacktestEngine::default();
    assert_eq!(signal_query(None), SignalQuery::Entries);
    assert_eq!(signal_query(Some(PositionSide::Long)), SignalQuery::ExitLong);
    assert_eq!(signal_query(Some(PositionSide::Short)), SignalQuery::ExitShort);

    assert_eq!(entry_side(true, false), Some(PositionSide::Long));
    assert_eq!(entry_side(false, true), Some(PositionSide::Short));
    assert_eq!(entry_side(true, true), None);
    assert_eq!(entry_side(false, false), None);

    assert_eq!(exit_reason(true, true, true), Some(ExitReason::TakeProfit));
    assert_eq!(exit_reason(false, true, true), Some(ExitReason::StopLoss));
    assert_eq!(exit_reason(false, false, true), Some(ExitReason::Signal));
    assert_eq!(exit_reason(false, false, false), None);
    assert_eq!(ExitReason::EndOfData.as_str(), "End of data");
    assert_eq!(ExitReason::TakeProfit.as_str(), "TakeProfit");
}

#[test]
fn required_indicators_are_collected_once_in_order() {
    let strategy = StrategyBuilder::new("Req".to_string(), TimeFrame::H1)
        .add_entry_condition(ConditionBuilder::crosses_above("ema", vec![p(12.0)], "ema", vec![p(26.0)]))
        .add_entry_condition_with_timeframe(ConditionBuilder::above("ema", vec![p(12.0)], 1.0f64.to_bits()), TimeframeCategory::High)
        .add_exit_condition(ConditionBuilder::below_price("sma", vec![p(20.0)]))
        .add_exit_condition(ConditionBuilder::above("volume", vec![], 1.5f64.to_bits()))
        .add_exit_condition(ConditionBuilder::crosses_below("ema", vec![p(26.0)], "sma", vec![p(20.0)]))
        .build();
    let engine = PolarsVectorizedBacktestEngine::new();
    let required = engine.collect_required_indicators(&strategy);
    let names: Vec<String> = required.iter().map(|i| i.display()).collect();
    // The category does not distinguish indicators: the first one collected stays.
    assert_eq!(names, vec!["ema(12.0)@Current", "ema(26.0)@Current", "sma(20.0)@Current", "volume@Current"]);
}
