use darwinx::cache::{MultiTimeframeDataCache, Stamped};
use darwinx::context::{MultiTimeframeContext, TimeframeData};
use darwinx::timeframe::TimeFrame;

/// Open, high, low, close and volume of a candle.
type Prices = (f64, f64, f64, f64, f64);

fn create_test_candles(start_ts: i64, count: usize) -> Vec<Stamped<Prices>> {
    (0..count)
        .map(|i| {
            Stamped::new(
                start_ts + (i as i64 * 60_000),
                (100.0 + i as f64, 101.0 + i as f64, 99.0 + i as f64, 100.5 + i as f64, 1000.0),
            )
        })
        .collect()
}

fn context_candles(count: usize, start_price: f64) -> Vec<Stamped<Prices>> {
    (0..count)
        .map(|i| {
            Stamped::new(
                (i as i64) * 60000,
                (
                    start_price + i as f64,
                    start_price + i as f64 + 1.0,
                    start_price + i as f64 - 1.0,
                    start_price + i as f64 + 0.5,
                    1000.0,
                ),
            )
        })
        .collect()
}

fn stamps_of(v: &[Stamped<Prices>]) -> Vec<i64> {
    v.iter().map(|c| c.timestamp).collect()
}

#[test]
fn test_cache_store_and_get() {
    let mut cache = MultiTimeframeDataCache::new();
    let candles = create_test_candles(0, 100);

    cache.store(TimeFrame::M1, candles);

    assert_eq!(cache.len(&TimeFrame::M1), 100);
    assert!(cache.get(&TimeFrame::M1).is_some());
}

#[test]
fn test_cache_update() {
    let mut cache = MultiTimeframeDataCache::new();

    // Store initial data
    let initial_candles = create_test_candles(0, 50);
    cache.store(TimeFrame::M1, initial_candles);

    // Update with new data
    let new_candles = create_test_candles(50 * 60_000, 50);
    cache.update(TimeFrame::M1, new_candles);

    assert_eq!(cache.len(&TimeFrame::M1), 100);
}

#[test]
fn test_cache_size_limit() {
    let mut cache = MultiTimeframeDataCache::with_capacity(50);
    let candles = create_test_candles(0, 100);

    cache.store(TimeFrame::M1, candles);

    // Should be limited to 50 candles
    assert_eq!(cache.len(&TimeFrame::M1), 50);
}

#[test]
fn test_cache_stats() {
    let mut cache = MultiTimeframeDataCache::new();

    cache.store(TimeFrame::M1, create_test_candles(0, 100));
    cache.store(TimeFrame::M5, create_test_candles(0, 50));

    let stats = cache.memory_usage();
    assert_eq!(stats.total_candles, 150);
    assert_eq!(stats.timeframe_count, 2);
}

#[test]
fn cache_store_sorts_stably_and_keeps_latest() {
    let mut cache = MultiTimeframeDataCache::with_capacity(3);
    let candles = vec![
        Stamped::new(300, 'a'),
        Stamped::new(100, 'b'),
        Stamped::new(200, 'c'),
        Stamped::new(100, 'd'),
        Stamped::new(400, 'e'),
    ];
    cache.store(TimeFrame::H1, candles);
    let held: Vec<(i64, char)> = cache.get(&TimeFrame::H1).unwrap().iter().map(|c| (c.timestamp, c.value)).collect();
    assert_eq!(held, vec![(200, 'c'), (300, 'a'), (400, 'e')]);

    let mut roomy = MultiTimeframeDataCache::with_capacity(10);
    roomy.store(
        TimeFrame::M1,
        vec![Stamped::new(2, 'x'), Stamped::new(1, 'y'), Stamped::new(2, 'z'), Stamped::new(1, 'w')],
    );
    let held: Vec<(i64, char)> = roomy.get(&TimeFrame::M1).unwrap().iter().map(|c| (c.timestamp, c.value)).collect();
    assert_eq!(held, vec![(1, 'y'), (1, 'w'), (2, 'x'), (2, 'z')]);
}

#[test]
fn cache_update_merges_keeps_first_of_each_timestamp() {
    let mut cache = MultiTimeframeDataCache::with_capacity(4);
    cache.store(TimeFrame::M5, vec![Stamped::new(10, "old10"), Stamped::new(20, "old20")]);
    cache.update(
        TimeFrame::M5,
        vec![Stamped::new(30, "new30"), Stamped::new(20, "new20"), Stamped::new(5, "new5"), Stamped::new(40, "new40")],
    );
    let held: Vec<(i64, &str)> = cache.get(&TimeFrame::M5).unwrap().iter().map(|c| (c.timestamp, c.value)).collect();
    assert_eq!(held, vec![(10, "old10"), (20, "old20"), (30, "new30"), (40, "new40")]);

    // A timeframe with nothing held is stored without removing repeats.
    cache.update(TimeFrame::D1, vec![Stamped::new(7, "a"), Stamped::new(7, "b")]);
    assert_eq!(cache.len(&TimeFrame::D1), 2);
}

#[test]
fn cache_remove_clear_and_timeframes() {
    let mut cache: MultiTimeframeDataCache<Prices> = MultiTimeframeDataCache::default();
    assert!(cache.is_empty());
    cache.store(TimeFrame::H4, create_test_candles(0, 3));
    cache.store(TimeFrame::M1, create_test_candles(0, 2));
    cache.store(TimeFrame::D1, Vec::new());
    assert_eq!(cache.timeframes(), vec![TimeFrame::M1, TimeFrame::H4, TimeFrame::D1]);
    assert!(!cache.is_empty());
    cache.remove(&TimeFrame::H4);
    assert_eq!(cache.len(&TimeFrame::H4), 0);
    assert!(cache.get(&TimeFrame::H4).is_none());
    assert_eq!(cache.timeframes(), vec![TimeFrame::M1, TimeFrame::D1]);
    cache.clear();
    assert!(cache.is_empty());
    assert!(cache.timeframes().is_empty());
}

#[test]
fn cache_memory_estimate() {
    let mut cache = MultiTimeframeDataCache::new();
    cache.store(TimeFrame::M1, create_test_candles(0, 10_000));
    cache.store(TimeFrame::M5, create_test_candles(0, 10_000));
    cache.store(TimeFrame::M15, create_test_candles(0, 10_000));
    let stats = cache.memory_usage();
    let size = std::mem::size_of::<Stamped<Prices>>();
    assert_eq!(size, 48);
    assert_eq!(stats.total_candles, 30_000);
    assert_eq!(stats.estimated_memory_mb, 30_000 * size / (1024 * 1024));
    assert_eq!(stats.estimated_memory_mb, 1);
}

#[test]
fn test_timeframe_data() {
    let candles = context_candles(10, 100.0);
    let data = TimeframeData::new(TimeFrame::M1, candles);

    assert_eq!(data.len(), 10);

    let closes: Vec<f64> = data.recent(5).iter().map(|c| c.value.3).collect();
    assert_eq!(closes.len(), 5);
    assert_eq!(closes[0], 109.5); // Last candle
}

#[test]
fn test_multi_timeframe_context() {
    let mut context = MultiTimeframeContext::new(TimeFrame::M1);

    // Add M1 data
    let m1_candles = context_candles(100, 100.0);
    context.add_timeframe(TimeFrame::M1, m1_candles);

    // Add H1 data
    let h1_candles = context_candles(20, 100.0);
    context.add_timeframe(TimeFrame::H1, h1_candles);

    // Verify
    assert_eq!(context.timeframes().len(), 2);
    assert!(context.get(&TimeFrame::M1).is_some());
    assert!(context.get(&TimeFrame::H1).is_some());
    assert!(context.primary().is_some());
}

#[test]
fn test_sync_data() {
    let mut context = MultiTimeframeContext::new(TimeFrame::M1);

    let candles = context_candles(10, 100.0);
    context.add_timeframe(TimeFrame::M1, candles);

    // Get sync data at timestamp 300000 (5 minutes)
    let sync_data = context.get_sync_data(300000);

    assert!(sync_data.iter().any(|(tf, _)| *tf == TimeFrame::M1));
    let (_, position) = sync_data.iter().find(|(tf, _)| *tf == TimeFrame::M1).unwrap();
    let candle = &context.get(&TimeFrame::M1).unwrap().candles[*position];
    assert!(candle.timestamp <= 300000);
}

#[test]
fn test_sync_to_timestamp() {
    let mut context = MultiTimeframeContext::new(TimeFrame::M1);

    let candles = context_candles(10, 100.0);
    context.add_timeframe(TimeFrame::M1, candles);

    // Sync to timestamp 300000 (5 minutes)
    context.sync_to_timestamp(300000);

    let data = context.primary().unwrap();
    assert!(data.len() <= 6); // Only candles up to timestamp 300000
}

#[test]
fn context_sync_keeps_exactly_candles_not_after() {
    let mut context = MultiTimeframeContext::new(TimeFrame::H1);
    context.add_timeframe(TimeFrame::M1, context_candles(10, 1.0));
    context.add_timeframe(TimeFrame::M5, vec![Stamped::new(600_000, (0.0, 0.0, 0.0, 0.0, 0.0))]);
    assert!(context.primary().is_none());
    context.sync_to_timestamp(300_000);
    assert_eq!(
        stamps_of(&context.get(&TimeFrame::M1).unwrap().candles),
        vec![0, 60_000, 120_000, 180_000, 240_000, 300_000]
    );
    assert!(context.get(&TimeFrame::M5).unwrap().is_empty());
    assert_eq!(context.timeframes(), vec![TimeFrame::M1, TimeFrame::M5]);
    assert_eq!(context.get_sync_data(100_000), vec![(TimeFrame::M1, 1)]);
    let data = context.get(&TimeFrame::M1).unwrap();
    assert_eq!(data.candle_at_timestamp(130_000).unwrap().timestamp, 120_000);
    assert!(data.candle_at_timestamp(-1).is_none());
    assert_eq!(data.recent(100).len(), 6);
}
