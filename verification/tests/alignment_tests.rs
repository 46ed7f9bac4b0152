use darwinx::alignment::TimeframeAligner;
use darwinx::synchronizer::TimeframeSynchronizer;
use darwinx::timeframe::TimeFrame;

fn minute_stamps(start_ts: i64, count: usize, interval_ms: i64) -> Vec<i64> {
    (0..count).map(|i| start_ts + (i as i64) * interval_ms).collect()
}

#[test]
fn test_align_timestamp() {
    // Test M1 alignment (60,000 ms intervals)
    assert_eq!(TimeframeAligner::align_timestamp(0, TimeFrame::M1), 0);
    assert_eq!(TimeframeAligner::align_timestamp(30_000, TimeFrame::M1), 0);
    assert_eq!(TimeframeAligner::align_timestamp(60_000, TimeFrame::M1), 60_000);
    assert_eq!(TimeframeAligner::align_timestamp(90_000, TimeFrame::M1), 60_000);

    // Test M5 alignment (300,000 ms intervals)
    assert_eq!(TimeframeAligner::align_timestamp(0, TimeFrame::M5), 0);
    assert_eq!(TimeframeAligner::align_timestamp(150_000, TimeFrame::M5), 0);
    assert_eq!(TimeframeAligner::align_timestamp(300_000, TimeFrame::M5), 300_000);
    assert_eq!(TimeframeAligner::align_timestamp(450_000, TimeFrame::M5), 300_000);
}

#[test]
fn test_create_aligned_timestamps() {
    let timestamps = TimeframeAligner::create_aligned_timestamps(
        30_000,  // 0.5 min
        250_000, // 4.16 min
        TimeFrame::M1,
    );

    // Should create timestamps: 0, 60000, 120000, 180000, 240000
    assert_eq!(timestamps.len(), 5);
    assert_eq!(timestamps[0], 0);
    assert_eq!(timestamps[1], 60_000);
    assert_eq!(timestamps[4], 240_000);
}

#[test]
fn test_is_aligned() {
    // Candles at 60 000 and 90 000, read by their timestamps.
    assert!(TimeframeAligner::is_aligned(60_000, TimeFrame::M1));
    assert!(!TimeframeAligner::is_aligned(90_000, TimeFrame::M1));
}

#[test]
fn test_next_boundary() {
    assert_eq!(TimeframeAligner::next_boundary(0, TimeFrame::M1), 60_000);
    assert_eq!(TimeframeAligner::next_boundary(30_000, TimeFrame::M1), 60_000);
    assert_eq!(TimeframeAligner::next_boundary(60_000, TimeFrame::M1), 120_000);
}

#[test]
fn test_previous_boundary() {
    assert_eq!(TimeframeAligner::previous_boundary(60_000, TimeFrame::M1), 0);
    assert_eq!(TimeframeAligner::previous_boundary(90_000, TimeFrame::M1), 60_000);
    assert_eq!(TimeframeAligner::previous_boundary(120_000, TimeFrame::M1), 60_000);
}

#[test]
fn test_filter_aligned_candles() {
    let timestamps = vec![0i64, 30_000, 60_000, 90_000];

    let aligned = TimeframeAligner::filter_aligned_candles(&timestamps, TimeFrame::M1);
    assert_eq!(aligned.len(), 2);
    assert_eq!(timestamps[aligned[0]], 0);
    assert_eq!(timestamps[aligned[1]], 60_000);
}

#[test]
fn align_negative_timestamps_rounds_toward_zero() {
    assert_eq!(TimeframeAligner::align_timestamp(-30_000, TimeFrame::M1), 0);
    assert_eq!(TimeframeAligner::align_timestamp(-90_000, TimeFrame::M1), -60_000);
    assert_eq!(TimeframeAligner::align_timestamp(-60_000, TimeFrame::M1), -60_000);
    // The previous boundary of a negative, unaligned timestamp lies after it.
    assert_eq!(TimeframeAligner::previous_boundary(-30_000, TimeFrame::M1), 0);
}

#[test]
fn aligning_twice_changes_nothing() {
    for ts in [0i64, 1, 59_999, 60_000, 3_599_999, 86_400_001, -1, -61_000, 1_700_000_123_456] {
        for tf in TimeFrame::all() {
            let once = TimeframeAligner::align_timestamp(ts, tf);
            assert_eq!(TimeframeAligner::align_timestamp(once, tf), once);
            assert!(TimeframeAligner::is_aligned(once, tf));
            if ts >= 0 {
                assert!(once <= ts && ts < once + tf.to_millis());
                assert!(TimeframeAligner::previous_boundary(ts, tf) < ts || ts == 0);
                assert!(TimeframeAligner::next_boundary(ts, tf) > ts);
            }
        }
    }
}

#[test]
fn aligned_timestamps_empty_range_and_step() {
    assert!(TimeframeAligner::create_aligned_timestamps(120_000, 60_000, TimeFrame::M1).is_empty());
    let hours = TimeframeAligner::create_aligned_timestamps(3_600_000, 3 * 3_600_000, TimeFrame::H1);
    assert_eq!(hours, vec![3_600_000, 7_200_000, 10_800_000]);
}

#[test]
fn test_find_candle_at_timestamp() {
    let candles = minute_stamps(0, 5, 60_000);

    // Find exact match
    let candle = TimeframeSynchronizer::find_candle_at_timestamp(&candles, 120_000);
    assert!(candle.is_some());
    assert_eq!(candles[candle.unwrap()], 120_000);

    // Find previous candle when no exact match
    let candle = TimeframeSynchronizer::find_candle_at_timestamp(&candles, 150_000);
    assert!(candle.is_some());
    assert_eq!(candles[candle.unwrap()], 120_000); // Previous candle
}

#[test]
fn find_candle_before_first_is_none() {
    let candles = minute_stamps(60_000, 3, 60_000);
    assert_eq!(TimeframeSynchronizer::find_candle_at_timestamp(&candles, 59_999), None);
    assert_eq!(TimeframeSynchronizer::find_candle_at_timestamp(&[], 0), None);
    assert_eq!(TimeframeSynchronizer::find_candle_at_timestamp(&candles, i64::MAX), Some(2));
}

#[test]
fn test_sync_timeframes() {
    let data = vec![
        // M1 data (1-minute intervals)
        (TimeFrame::M1, minute_stamps(0, 10, 60_000)),
        // M5 data (5-minute intervals)
        (TimeFrame::M5, minute_stamps(0, 3, 300_000)),
    ];

    // Sync at 8 minutes
    let synced = TimeframeSynchronizer::sync_timeframes(&data, 480_000);

    assert_eq!(synced.len(), 2);
    assert!(synced.iter().any(|(tf, _)| *tf == TimeFrame::M1));
    assert!(synced.iter().any(|(tf, _)| *tf == TimeFrame::M5));
    assert_eq!(synced, vec![(TimeFrame::M1, 8), (TimeFrame::M5, 1)]);
}

#[test]
fn sync_skips_series_without_earlier_candle() {
    let data = vec![(TimeFrame::H1, minute_stamps(3_600_000, 2, 3_600_000)), (TimeFrame::M1, vec![0])];
    assert_eq!(TimeframeSynchronizer::sync_timeframes(&data, 1_000), vec![(TimeFrame::M1, 0)]);
    assert!(TimeframeSynchronizer::are_timeframes_compatible(TimeFrame::M1, TimeFrame::MN1));
}

#[test]
fn sync_gives_each_distinct_timeframe_its_last_candle_by_the_time() {
    let data = vec![
        (TimeFrame::H4, vec![0, 14_400_000, 28_800_000]),
        (TimeFrame::D1, vec![86_400_000]),
        (TimeFrame::H1, vec![0, 3_600_000, 7_200_000, 10_800_000, 14_400_000, 18_000_000]),
    ];
    assert_eq!(
        TimeframeSynchronizer::sync_timeframes(&data, 15_000_000),
        vec![(TimeFrame::H4, 1), (TimeFrame::H1, 4)]
    );
}
