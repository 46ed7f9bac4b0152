use darwinx::doubles::double_less_than;
use darwinx::order::{OrderSide, PositionSide};
use darwinx::timeframe::{timeframe_to_str, TimeFrame, TimeFrameError};

#[test]
fn test_order_side_as_str() {
    assert_eq!(OrderSide::Buy.as_str(), "BUY");
    assert_eq!(OrderSide::Sell.as_str(), "SELL");
}

#[test]
fn test_timeframe_to_millis() {
    assert_eq!(TimeFrame::M1.to_millis(), 60_000);
    assert_eq!(TimeFrame::H1.to_millis(), 3_600_000);
    assert_eq!(TimeFrame::D1.to_millis(), 86_400_000);
}

#[test]
fn test_timeframe_from_str() {
    assert_eq!(TimeFrame::from_str("1m").unwrap(), TimeFrame::M1);
    assert_eq!(TimeFrame::from_str("1h").unwrap(), TimeFrame::H1);
    assert_eq!(TimeFrame::from_str("1d").unwrap(), TimeFrame::D1);

    assert!(TimeFrame::from_str("invalid").is_err());
}

#[test]
fn test_timeframe_display() {
    assert_eq!(TimeFrame::M1.to_string(), "1m");
    assert_eq!(TimeFrame::H4.to_string(), "4h");
}

#[test]
fn test_timeframe_all() {
    let all = TimeFrame::all();
    assert_eq!(all.len(), 9);
    assert!(all.contains(&TimeFrame::M1));
    assert!(all.contains(&TimeFrame::MN1));
}

#[test]
fn timeframe_seconds_and_every_duration() {
    let expected: [(TimeFrame, i64); 9] = [
        (TimeFrame::M1, 60_000),
        (TimeFrame::M5, 300_000),
        (TimeFrame::M15, 900_000),
        (TimeFrame::M30, 1_800_000),
        (TimeFrame::H1, 3_600_000),
        (TimeFrame::H4, 14_400_000),
        (TimeFrame::D1, 86_400_000),
        (TimeFrame::W1, 604_800_000),
        (TimeFrame::MN1, 2_592_000_000),
    ];
    for (tf, ms) in expected.iter() {
        assert_eq!(tf.to_millis(), *ms);
        assert_eq!(tf.to_seconds(), *ms / 1000);
    }
    assert_eq!(TimeFrame::M1.to_seconds(), 60);
}

#[test]
fn timeframe_codes_round_trip_except_month() {
    for tf in TimeFrame::all() {
        let parsed = TimeFrame::from_str(tf.as_str()).unwrap();
        if tf == TimeFrame::MN1 {
            // "1M" lower-cases to "1m", the code of a minute.
            assert_eq!(parsed, TimeFrame::M1);
        } else {
            assert_eq!(parsed, tf);
        }
    }
    assert_eq!(TimeFrame::MN1.as_str(), "1M");
}

#[test]
fn timeframe_parsing_is_case_insensitive_and_accepts_names() {
    assert_eq!(TimeFrame::from_str("4H").unwrap(), TimeFrame::H4);
    assert_eq!(TimeFrame::from_str("m15").unwrap(), TimeFrame::M15);
    assert_eq!(TimeFrame::from_str("W1").unwrap(), TimeFrame::W1);
    assert_eq!(TimeFrame::from_str("1mo").unwrap(), TimeFrame::MN1);
    assert_eq!(TimeFrame::from_str("MN1").unwrap(), TimeFrame::MN1);
    assert_eq!(TimeFrame::from_str("").unwrap_err(), TimeFrameError::Invalid(String::new()));
    assert_eq!(TimeFrame::from_str("2h").unwrap_err(), TimeFrameError::Invalid("2h".to_string()));
}

#[test]
fn timeframe_file_codes() {
    assert_eq!(timeframe_to_str(TimeFrame::M1), "1m");
    assert_eq!(timeframe_to_str(TimeFrame::H4), "4h");
    assert_eq!(timeframe_to_str(TimeFrame::MN1), "1mo");
    for tf in TimeFrame::all() {
        assert_eq!(TimeFrame::from_str(timeframe_to_str(tf)).unwrap(), tf);
    }
}

#[test]
fn timeframe_debug_names() {
    assert_eq!(TimeFrame::M5.debug_str(), "M5");
    assert_eq!(TimeFrame::MN1.debug_str(), "MN1");
    assert_eq!(TimeFrame::H1.debug_str(), format!("{:?}", TimeFrame::H1));
}

#[test]
fn position_sides_differ() {
    assert_ne!(PositionSide::Long, PositionSide::Short);
}

#[test]
fn double_order_matches_f64() {
    let values: [f64; 12] = [
        0.0, -0.0, 1.0, -1.0, 0.5, 1e300, -1e300, f64::INFINITY, f64::NEG_INFINITY, f64::NAN, 70.0, 69.99,
    ];
    for a in values.iter() {
        for b in values.iter() {
            assert_eq!(double_less_than(a.to_bits(), b.to_bits()), a < b, "{} < {}", a, b);
        }
    }
}
