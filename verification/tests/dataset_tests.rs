use darwinx::dataset::{dataset_timeframe, dataset_timeframe_label, date_window, DateWindowError};
use darwinx::timeframe::TimeFrame;

const DAY: i64 = 86_400_000;
const JAN_1_2024: i64 = 1_704_067_200_000;

#[test]
fn window_keeps_candles_between_the_dates() {
    let ts = vec![JAN_1_2024 - DAY, JAN_1_2024, JAN_1_2024 + DAY, JAN_1_2024 + 2 * DAY, JAN_1_2024 + 3 * DAY];
    assert_eq!(date_window(Some("2024-01-01"), Some("2024-01-03"), &ts), Ok(vec![1, 2, 3]));
    assert_eq!(date_window(Some("2024-01-02"), None, &ts), Ok(vec![2, 3, 4]));
    assert_eq!(date_window(None, Some("2024-01-01"), &ts), Ok(vec![0, 1]));
    assert_eq!(date_window(None, None, &ts), Ok(vec![0, 1, 2, 3, 4]));
}

#[test]
fn window_rejects_bad_dates_start_first() {
    let ts = vec![JAN_1_2024];
    assert_eq!(
        date_window(Some("01/02/2024"), Some("nope"), &ts),
        Err(DateWindowError::InvalidDate("01/02/2024".to_string()))
    );
    assert_eq!(
        date_window(Some("2024-01-01"), Some("2024-13-01"), &ts),
        Err(DateWindowError::InvalidDate("2024-13-01".to_string()))
    );
}

#[test]
fn window_with_no_candle_left_is_empty() {
    let ts = vec![JAN_1_2024];
    assert_eq!(date_window(Some("2024-01-02"), None, &ts), Err(DateWindowError::Empty));
    assert_eq!(date_window(None, None, &[]), Err(DateWindowError::Empty));
}

#[test]
fn timeframe_from_dataset_name() {
    assert_eq!(dataset_timeframe("data/btcusdt_4h.csv"), TimeFrame::H4);
    assert_eq!(dataset_timeframe("eth_15m.parquet"), TimeFrame::M15);
    assert_eq!(dataset_timeframe("eth_30m.parquet"), TimeFrame::M30);
    assert_eq!(dataset_timeframe("x_1d_1h.csv"), TimeFrame::H1);
    assert_eq!(dataset_timeframe("candles.csv"), TimeFrame::H1);
    assert_eq!(dataset_timeframe_label("btc_1d.csv"), "1d");
    assert_eq!(dataset_timeframe_label("btc_15m.csv"), "unknown");
    assert_eq!(dataset_timeframe_label("btc_4h.csv"), "4h");
}
