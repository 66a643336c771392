//! Tests for the macro regime classifier. Prices carry a factor of one
//! million; fractions are in parts per million.

use trade_signal::indicators::regime::{Regime, RegimeFilter};

fn test_default_regime() -> RegimeFilter {
    RegimeFilter {
        long_window: 10,
        slope_window: 5,
        min_trend_strength: 20_000, // 2%
        min_range: 30_000,          // 3%
    }
}

#[test]
fn test_detect_regime_sideways_when_not_enough_history() {
    let rf = test_default_regime();
    let required = rf.long_window.max(rf.slope_window) + 1;

    // one less than required
    let prices: Vec<i64> = (0..(required - 1) as i64)
        .map(|i| (100 + i) * 1_000_000)
        .collect();

    assert_eq!(rf.detect_regime(&prices), Regime::Sideways);
}

#[test]
fn test_detect_regime_sideways_when_long_sma_invalid_or_zero() {
    let mut rf = test_default_regime();
    rf.long_window = 4;
    rf.slope_window = 2;

    // Last 4 values will be [0, 0, 0, 0] => long average == 0
    let prices = vec![100_000_000, 101_000_000, 102_000_000, 0, 0, 0, 0];

    assert_eq!(rf.detect_regime(&prices), Regime::Sideways);
}

#[test]
fn test_detect_regime_sideways_when_start_price_non_positive() {
    let mut rf = test_default_regime();
    rf.long_window = 4;
    rf.slope_window = 2;

    // slope_window = 2 => the start index points at the zero price
    let prices = vec![100_000_000, 101_000_000, 0, 102_000_000, 103_000_000];

    assert_eq!(rf.detect_regime(&prices), Regime::Sideways);
}

#[test]
fn test_detect_regime_sideways_when_trend_and_range_below_thresholds() {
    let rf = test_default_regime();

    // Almost flat series: small noise around 100
    let prices = vec![
        100_000_000,
        100_100_000,
        99_900_000,
        100_000_000,
        100_200_000,
        99_800_000,
        100_100_000,
        100_000_000,
        100_100_000,
        99_900_000,
        100_000_000,
        100_100_000,
        100_000_000,
    ];

    assert_eq!(rf.detect_regime(&prices), Regime::Sideways);
}

#[test]
fn test_detect_regime_trending_up_when_strong_uptrend_and_above_long_sma() {
    let mut rf = test_default_regime();
    rf.long_window = 10;
    rf.slope_window = 5;
    rf.min_trend_strength = 10_000; // 1%
    rf.min_range = 10_000; // 1%

    // Monotonic uptrend 100..=120
    let mut prices = Vec::new();
    for p in 100..=120i64 {
        prices.push(p * 1_000_000);
    }

    assert_eq!(rf.detect_regime(&prices), Regime::TrendingUp);
}

#[test]
fn test_detect_regime_trending_down_when_strong_downtrend_and_below_long_sma() {
    let mut rf = test_default_regime();
    rf.long_window = 10;
    rf.slope_window = 5;
    rf.min_trend_strength = 10_000;
    rf.min_range = 10_000;

    // Monotonic downtrend 100 down to 80
    let mut prices = Vec::new();
    for p in (80..=100i64).rev() {
        prices.push(p * 1_000_000);
    }

    assert_eq!(rf.detect_regime(&prices), Regime::TrendingDown);
}

#[test]
fn test_detect_regime_sideways_when_trend_not_strong_enough() {
    let mut rf = test_default_regime();
    rf.long_window = 10;
    rf.slope_window = 5;
    rf.min_trend_strength = 50_000; // require 5%

    // Very slight upward drift: ~1% over the slope window
    let prices = vec![
        100_000_000,
        100_100_000,
        100_200_000,
        100_300_000,
        100_400_000,
        100_500_000,
        100_600_000,
        100_700_000,
        100_800_000,
        100_900_000,
        101_000_000,
        101_100_000,
    ];

    assert_eq!(rf.detect_regime(&prices), Regime::Sideways);
}

#[test]
fn test_detect_regime_sideways_when_range_too_small_even_if_trend_exists() {
    let mut rf = test_default_regime();
    rf.long_window = 10;
    rf.slope_window = 5;
    rf.min_trend_strength = 0; // ignore trend
    rf.min_range = 50_000; // require 5% range

    // A trend exists but the range in the window is small
    let prices = vec![
        100_000_000,
        100_500_000,
        100_600_000,
        100_700_000,
        100_800_000,
        101_000_000,
        101_100_000,
        101_200_000,
        101_300_000,
        101_400_000,
        101_500_000,
    ];

    assert_eq!(rf.detect_regime(&prices), Regime::Sideways);
}

#[test]
fn test_detect_regime_sideways_when_direction_conflicts_with_long_sma() {
    let mut rf = test_default_regime();
    rf.long_window = 4;
    rf.slope_window = 3;
    rf.min_trend_strength = 10_000; // 1%
    rf.min_range = 10_000; // 1%

    // Last 4 prices: [100, 140, 130, 110]; long average = 120.
    // start = 100, end = 110 => trend up, but end < long average.
    let prices = vec![
        50_000_000,
        60_000_000,
        70_000_000,
        80_000_000,
        90_000_000,
        95_000_000,
        100_000_000,
        140_000_000,
        130_000_000,
        110_000_000,
    ];

    assert_eq!(rf.detect_regime(&prices), Regime::Sideways);
}

#[test]
fn test_regime_filter_default_values() {
    let rf = RegimeFilter::default();
    assert_eq!(rf.long_window, 200);
    assert_eq!(rf.slope_window, 48);
    assert_eq!(rf.min_trend_strength, 20_000);
    assert_eq!(rf.min_range, 30_000);
}
