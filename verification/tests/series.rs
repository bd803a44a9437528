use stock_charts::indicators::{IndicatorEngine, IndicatorSample};
use stock_charts::prepare::SeriesPreparer;
use stock_charts::quotes::{Quote, QuoteSeries};
use stock_charts::timeline::{date_labels, lookback_window};
use stock_charts::volatility::VolatilityClassifier;
use stock_charts::SCALE;

fn px(units: i64) -> i64 {
    units * SCALE
}

fn quiet_quote(ts: i64, close_units: i64) -> Quote {
    let c = px(close_units);
    Quote { timestamp: ts, open: c, high: c, low: c, close: c }
}

#[test]
fn volatile_day_flagged() {
    // (120 - 90) / 100 * 100 = 30 > 2: volatile.
    let mut series = QuoteSeries::new();
    for (i, c) in [1i64, 2, 3, 4, 5].iter().enumerate() {
        series.push(quiet_quote(i as i64, *c));
    }
    series.push(Quote { timestamp: 5, open: px(100), high: px(120), low: px(90), close: px(100) });
    let flags = VolatilityClassifier::flags(&series);
    assert_eq!(flags, vec![false, false, false, false, false, true]);
}

#[test]
fn zero_close_not_volatile() {
    let q = Quote { timestamp: 0, open: px(100), high: px(120), low: px(90), close: 0 };
    assert!(!VolatilityClassifier::is_volatile(&q));
}

#[test]
fn empty_series_prepares_empty_bundles() {
    let series = QuoteSeries::new();
    let engine = IndicatorEngine::new(14, 12, 26, 9).unwrap();
    let samples = engine.compute(&series.closes());
    assert!(samples.is_empty());

    let price = SeriesPreparer::prepare_price(&series);
    assert!(price.closes.is_empty());
    assert!(price.flags.is_empty());
    assert!(price.segments.is_empty());
    assert_eq!(price.x_count, 0);
    assert!(price.y_range.is_none());

    let rsi = SeriesPreparer::prepare_rsi(&samples);
    assert!(rsi.rsi.is_empty());

    let macd = SeriesPreparer::prepare_macd(&samples);
    assert!(macd.macd.is_empty());
    assert!(macd.signal.is_empty());
    assert!(macd.range.is_none());

    assert!(date_labels(&series).is_empty());
}

#[test]
fn macd_axis_padded_by_histogram_span() {
    let mk = |h: i64| IndicatorSample { index: 0, rsi: 0, macd: 0, macd_signal: 0, macd_histogram: h };
    let samples = vec![mk(5), mk(-3), mk(7)];
    let range = SeriesPreparer::macd_range(&samples).unwrap();
    assert_eq!(range.hist_min, -3);
    assert_eq!(range.hist_max, 7);
    assert_eq!(range.min, -13);
    assert_eq!(range.max, 17);
}

#[test]
fn macd_bundle_extracts_lines_and_range() {
    let engine = IndicatorEngine::new(14, 12, 26, 9).unwrap();
    let mut series = QuoteSeries::new();
    for (i, c) in [3i64, 9, 2, 8, 4].iter().enumerate() {
        series.push(quiet_quote(i as i64, *c));
    }
    let samples = engine.compute(&series.closes());
    let bundle = SeriesPreparer::prepare_macd(&samples);
    assert_eq!(bundle.macd.len(), 5);
    assert_eq!(bundle.signal.len(), 5);
    for (i, s) in samples.iter().enumerate() {
        assert_eq!(bundle.macd[i], s.macd);
        assert_eq!(bundle.signal[i], s.macd_signal);
    }
    let range = bundle.range.unwrap();
    let hist_min = samples.iter().map(|s| s.macd_histogram).min().unwrap();
    let hist_max = samples.iter().map(|s| s.macd_histogram).max().unwrap();
    let span = hist_max - hist_min;
    assert_eq!(range.hist_min, hist_min);
    assert_eq!(range.hist_max, hist_max);
    assert_eq!(range.min, hist_min - span);
    assert_eq!(range.max, hist_max + span);
}

#[test]
fn rsi_bundle_reference_lines() {
    let engine = IndicatorEngine::new(14, 12, 26, 9).unwrap();
    let closes = vec![px(5), px(6)];
    let samples = engine.compute(&closes);
    let bundle = SeriesPreparer::prepare_rsi(&samples);
    assert_eq!(bundle.rsi.len(), 2);
    assert_eq!(bundle.rsi[0], samples[0].rsi);
    assert_eq!(bundle.overbought, 70 * SCALE);
    assert_eq!(bundle.oversold, 30 * SCALE);
}

#[test]
fn price_bundle_ranges_and_flags() {
    let mut series = QuoteSeries::new();
    for (i, c) in [7i64, 3, 9, 5].iter().enumerate() {
        series.push(quiet_quote(i as i64, *c));
    }
    let bundle = SeriesPreparer::prepare_price(&series);
    assert_eq!(bundle.closes, vec![px(7), px(3), px(9), px(5)]);
    assert_eq!(bundle.flags, vec![false, false, false, false]);
    assert!(bundle.segments.is_empty());
    assert_eq!(bundle.x_count, 4);
    assert_eq!(bundle.y_range, Some((px(3), px(9))));
}

#[test]
fn price_x_count_padded_by_twentieth() {
    assert_eq!(SeriesPreparer::price_x_count(100), 105);
    assert_eq!(SeriesPreparer::price_x_count(19), 19);
}

#[test]
fn volatile_segments_shapes() {
    let mut series = QuoteSeries::new();
    series.push(Quote { timestamp: 0, open: px(100), high: px(120), low: px(90), close: px(100) });
    series.push(quiet_quote(1, 100));
    series.push(Quote { timestamp: 2, open: px(100), high: px(130), low: px(80), close: px(100) });
    let segments = SeriesPreparer::volatile_segments(&series);
    assert_eq!(segments.len(), 6);
    // Day 0: error bar, then envelopes clamped at the left edge.
    assert_eq!((segments[0].x0, segments[0].y0, segments[0].x1, segments[0].y1), (0, px(90), 0, px(120)));
    assert_eq!((segments[1].x0, segments[1].y0, segments[1].x1, segments[1].y1), (0, px(120), 1, px(120)));
    assert_eq!((segments[2].x0, segments[2].y0, segments[2].x1, segments[2].y1), (0, px(90), 1, px(90)));
    // Day 2 is the last day: envelopes are clamped at the right edge.
    assert_eq!((segments[3].x0, segments[3].y0, segments[3].x1, segments[3].y1), (2, px(80), 2, px(130)));
    assert_eq!((segments[4].x0, segments[4].y0, segments[4].x1, segments[4].y1), (1, px(130), 2, px(130)));
    assert_eq!((segments[5].x0, segments[5].y0, segments[5].x1, segments[5].y1), (1, px(80), 2, px(80)));
}

#[test]
fn volatile_segments_clamped_on_single_day() {
    let mut series = QuoteSeries::new();
    series.push(Quote { timestamp: 0, open: px(100), high: px(120), low: px(90), close: px(100) });
    let segments = SeriesPreparer::volatile_segments(&series);
    assert_eq!(segments.len(), 3);
    assert_eq!((segments[0].x0, segments[0].y0, segments[0].x1, segments[0].y1), (0, px(90), 0, px(120)));
    // Both envelope ends are clamped to the only index.
    assert_eq!((segments[1].x0, segments[1].y0, segments[1].x1, segments[1].y1), (0, px(120), 0, px(120)));
    assert_eq!((segments[2].x0, segments[2].y0, segments[2].x1, segments[2].y1), (0, px(90), 0, px(90)));
}

#[test]
fn middle_volatile_day_envelopes_span_both_sides() {
    let mut series = QuoteSeries::new();
    series.push(quiet_quote(0, 100));
    series.push(quiet_quote(1, 100));
    series.push(Quote { timestamp: 2, open: px(100), high: px(130), low: px(80), close: px(100) });
    series.push(quiet_quote(3, 100));
    let segments = SeriesPreparer::volatile_segments(&series);
    assert_eq!(segments.len(), 3);
    assert_eq!((segments[1].x0, segments[1].x1), (1, 3));
    assert_eq!((segments[2].x0, segments[2].x1), (1, 3));
}

#[test]
fn label_thinning_policy() {
    assert_eq!(SeriesPreparer::label_step(0), 1);
    assert_eq!(SeriesPreparer::label_step(5), 1);
    assert_eq!(SeriesPreparer::label_step(12), 2);
    assert_eq!(SeriesPreparer::label_step(100), 16);

    let labels: Vec<String> = (0..12).map(|i| format!("d{}", i)).collect();
    assert_eq!(SeriesPreparer::label_at(&labels, 0), "d0");
    assert_eq!(SeriesPreparer::label_at(&labels, 1), "");
    assert_eq!(SeriesPreparer::label_at(&labels, 2), "d2");
    assert_eq!(SeriesPreparer::label_at(&labels, 20), "");

    let few: Vec<String> = vec!["a".to_string(), "b".to_string()];
    assert_eq!(SeriesPreparer::label_at(&few, 1), "b");
}

#[test]
fn date_labels_from_timestamps() {
    let mut series = QuoteSeries::new();
    series.push(quiet_quote(1_431_648_000, 10));
    series.push(quiet_quote(0, 10));
    series.push(quiet_quote(i64::MAX, 10));
    let labels = date_labels(&series);
    assert_eq!(labels.len(), 3);
    assert_eq!(labels[0], "2015-05-15");
    assert_eq!(labels[1], "1970-01-01");
    // An unconvertible timestamp keeps its slot, with the sentinel.
    assert_eq!(labels[2], "");
}

#[test]
fn lookback_window_is_180_days() {
    let (start, end) = lookback_window(20_000_000);
    assert_eq!(end, 20_000_000);
    assert_eq!(end - start, 180 * 86_400);
}
