use stock_charts::indicators::{ConfigError, IndicatorEngine, MacdEngine, RsiEngine};
use stock_charts::SCALE;

fn px(units: i64) -> i64 {
    units * SCALE
}

#[test]
fn rsi_flat_prices_constant() {
    let engine = IndicatorEngine::new(14, 12, 26, 9).unwrap();
    let closes = vec![px(10), px(10), px(10)];
    let samples = engine.compute(&closes);
    assert_eq!(samples.len(), 3);
    assert_eq!(samples[0].rsi, samples[1].rsi);
    assert_eq!(samples[1].rsi, samples[2].rsi);
    assert_eq!(samples[0].rsi, 100 * SCALE);
}

#[test]
fn rsi_monotone_prices_stay_at_top() {
    let engine = IndicatorEngine::new(14, 12, 26, 9).unwrap();
    let closes = vec![px(1), px(2), px(3), px(4), px(5)];
    let samples = engine.compute(&closes);
    for s in &samples {
        assert_eq!(s.rsi, 100 * SCALE);
    }
}

#[test]
fn rsi_exact_values_small_period() {
    let mut rsi = RsiEngine::new(2).unwrap();
    assert_eq!(rsi.step(100_000), 1_000_000);
    assert_eq!(rsi.step(200_000), 1_000_000);
    // avg_gain = 25_000, avg_loss = 50_000:
    // 1_000_000 * 25_000 / 75_000 rounds down to 333_333.
    assert_eq!(rsi.step(100_000), 333_333);
}

#[test]
fn rsi_in_band_for_jagged_prices() {
    let engine = IndicatorEngine::new(14, 12, 26, 9).unwrap();
    let closes = vec![px(5), px(1), px(9), px(2), px(8), px(8), px(3)];
    let samples = engine.compute(&closes);
    assert_eq!(samples.len(), closes.len());
    for s in &samples {
        assert!(s.rsi >= 0);
        assert!(s.rsi <= 100 * SCALE);
    }
}

#[test]
fn macd_exact_values_small_periods() {
    let mut macd = MacdEngine::new(1, 3, 3).unwrap();
    let first = macd.step(100_000);
    assert_eq!(first.macd, 0);
    assert_eq!(first.signal, 0);
    assert_eq!(first.histogram, 0);
    // fast EMA tracks the price; slow: (100_000*2 + 2*200_000)/4.
    let second = macd.step(200_000);
    assert_eq!(second.macd, 50_000);
    assert_eq!(second.signal, 25_000);
    assert_eq!(second.histogram, 25_000);
}

#[test]
fn macd_histogram_is_difference() {
    let engine = IndicatorEngine::new(14, 12, 26, 9).unwrap();
    let closes = vec![px(3), px(7), px(2), px(9), px(4), px(6)];
    let samples = engine.compute(&closes);
    assert_eq!(samples.len(), closes.len());
    for s in &samples {
        assert_eq!(s.macd_histogram, s.macd - s.macd_signal);
    }
}

#[test]
fn outputs_have_input_length_and_indices() {
    let engine = IndicatorEngine::new(14, 12, 26, 9).unwrap();
    let closes = vec![px(2), px(4), px(1), px(5), px(3)];
    let samples = engine.compute(&closes);
    assert_eq!(samples.len(), 5);
    for (i, s) in samples.iter().enumerate() {
        assert_eq!(s.index, i);
    }
}

#[test]
fn empty_input_empty_output() {
    let engine = IndicatorEngine::new(14, 12, 26, 9).unwrap();
    let closes: Vec<i64> = Vec::new();
    let samples = engine.compute(&closes);
    assert!(samples.is_empty());
}

#[test]
fn non_positive_periods_rejected() {
    assert_eq!(RsiEngine::new(0).unwrap_err(), ConfigError::NonPositivePeriod);
    assert_eq!(RsiEngine::new(-3).unwrap_err(), ConfigError::NonPositivePeriod);
    assert_eq!(MacdEngine::new(12, 26, 0).unwrap_err(), ConfigError::NonPositivePeriod);
    assert_eq!(MacdEngine::new(0, 26, 9).unwrap_err(), ConfigError::NonPositivePeriod);
    assert_eq!(IndicatorEngine::new(0, 12, 26, 9).unwrap_err(), ConfigError::NonPositivePeriod);
}

#[test]
fn fast_not_below_slow_rejected() {
    assert_eq!(MacdEngine::new(26, 12, 9).unwrap_err(), ConfigError::FastNotBelowSlow);
    assert_eq!(MacdEngine::new(12, 12, 9).unwrap_err(), ConfigError::FastNotBelowSlow);
    assert_eq!(IndicatorEngine::new(14, 26, 12, 9).unwrap_err(), ConfigError::FastNotBelowSlow);
    assert!(IndicatorEngine::new(14, 12, 26, 9).is_ok());
}
