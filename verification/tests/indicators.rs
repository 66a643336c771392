//! Tests for the indicator library: moving averages, the volatility
//! estimate and its percentile-calibrated floor. Prices carry a factor of
//! one million, so 2.5 price units are written 2_500_000.

use trade_signal::indicators::atr::{atr, AtrFilter};
use trade_signal::indicators::sma::{compute_smas, simple_moving_average, SmaConfig};

fn scaled_range(lo: i64, hi: i64) -> Vec<i64> {
    let mut v = Vec::new();
    let mut x = lo;
    while x <= hi {
        v.push(x * 1_000_000);
        x += 1;
    }
    v
}

#[test]
fn sma_test_simple_moving_average_returns_none_when_not_enough_data() {
    let prices = vec![1_000_000, 2_000_000, 3_000_000];
    assert_eq!(simple_moving_average(&prices, 4), None);
}

#[test]
fn indicators_test_simple_moving_average_returns_none_when_not_enough_data() {
    let prices = vec![1_000_000, 2_000_000, 3_000_000];
    assert_eq!(simple_moving_average(&prices, 4), None);
}

#[test]
fn sma_test_simple_moving_average_with_exact_window_length_uses_all_values() {
    let prices = vec![1_000_000, 2_000_000, 3_000_000, 4_000_000];
    // average = (1 + 2 + 3 + 4) / 4 = 2.5
    let sma = simple_moving_average(&prices, 4).unwrap();
    assert_eq!(sma, 2_500_000);
}

#[test]
fn indicators_test_simple_moving_average_with_exact_window_length_uses_all_values() {
    let prices = vec![1_000_000, 2_000_000, 3_000_000, 4_000_000];
    let sma = simple_moving_average(&prices, 4).unwrap();
    assert_eq!(sma, 2_500_000);
}

#[test]
fn sma_test_simple_moving_average_with_window_smaller_than_length_uses_last_window_values() {
    let prices = vec![1_000_000, 2_000_000, 3_000_000, 4_000_000, 5_000_000];
    // window = 3 -> last 3 values: 3, 4, 5 -> average 4.0
    let sma = simple_moving_average(&prices, 3).unwrap();
    assert_eq!(sma, 4_000_000);
}

#[test]
fn indicators_test_simple_moving_average_with_window_smaller_than_length_uses_last_window_values() {
    let prices = vec![1_000_000, 2_000_000, 3_000_000, 4_000_000, 5_000_000];
    let sma = simple_moving_average(&prices, 3).unwrap();
    assert_eq!(sma, 4_000_000);
}

#[test]
fn sma_test_simple_moving_average_with_window_one_is_last_element() {
    let prices = vec![10_000_000, 20_000_000, 30_000_000];
    let sma = simple_moving_average(&prices, 1).unwrap();
    assert_eq!(sma, 30_000_000);
}

#[test]
fn indicators_test_simple_moving_average_with_window_one_is_last_element() {
    let prices = vec![10_000_000, 20_000_000, 30_000_000];
    let sma = simple_moving_average(&prices, 1).unwrap();
    assert_eq!(sma, 30_000_000);
}

#[test]
fn sma_test_simple_moving_average_on_empty_slice_is_none() {
    let prices: Vec<i64> = Vec::new();
    assert_eq!(simple_moving_average(&prices, 1), None);
}

#[test]
fn indicators_test_simple_moving_average_on_empty_slice_is_none() {
    let prices: Vec<i64> = Vec::new();
    assert_eq!(simple_moving_average(&prices, 1), None);
}

#[test]
fn sma_test_compute_smas_returns_none_when_less_than_51_prices() {
    let prices = scaled_range(1, 50);
    assert!(compute_smas(&prices, SmaConfig::sma_20_50()).is_none());
}

#[test]
fn indicators_test_compute_smas_returns_none_when_less_than_51_prices() {
    let prices = scaled_range(1, 50);
    assert!(compute_smas(&prices, SmaConfig::sma_20_50()).is_none());
}

#[test]
fn sma_test_compute_smas_with_exactly_51_prices() {
    let prices = scaled_range(1, 51);
    let smas = compute_smas(&prices, SmaConfig::sma_20_50()).expect("should have SMAs");
    // Last 20 values: 32..=51 -> average = 41.5
    assert_eq!(smas.sma_short, 41_500_000);
    // Last 50 values: 2..=51 -> average = 26.5
    assert_eq!(smas.sma_long, 26_500_000);
    // Prev SMA20: last 20 of 1..=50 -> 31..=50 -> average = 40.5
    assert_eq!(smas.prev_sma_short, 40_500_000);
    // Prev SMA50: 1..=50 -> average = 25.5
    assert_eq!(smas.prev_sma_long, 25_500_000);
}

#[test]
fn indicators_test_compute_smas_with_exactly_51_prices() {
    let prices = scaled_range(1, 51);
    let smas = compute_smas(&prices, SmaConfig::sma_20_50()).expect("should have SMAs");
    assert_eq!(smas.sma_short, 41_500_000);
    assert_eq!(smas.sma_long, 26_500_000);
    assert_eq!(smas.prev_sma_short, 40_500_000);
    assert_eq!(smas.prev_sma_long, 25_500_000);
}

#[test]
fn sma_test_compute_smas_with_more_than_51_prices() {
    let prices = scaled_range(1, 60);
    let smas = compute_smas(&prices, SmaConfig::sma_20_50()).expect("should have SMAs");
    // Current SMA20: 41..=60 -> 50.5; SMA50: 11..=60 -> 35.5
    assert_eq!(smas.sma_short, 50_500_000);
    assert_eq!(smas.sma_long, 35_500_000);
    // Prev SMA20: 40..=59 -> 49.5; prev SMA50: 10..=59 -> 34.5
    assert_eq!(smas.prev_sma_short, 49_500_000);
    assert_eq!(smas.prev_sma_long, 34_500_000);
}

#[test]
fn indicators_test_compute_smas_with_more_than_51_prices() {
    let prices = scaled_range(1, 60);
    let smas = compute_smas(&prices, SmaConfig::sma_20_50()).expect("should have SMAs");
    assert_eq!(smas.sma_short, 50_500_000);
    assert_eq!(smas.sma_long, 35_500_000);
    assert_eq!(smas.prev_sma_short, 49_500_000);
    assert_eq!(smas.prev_sma_long, 34_500_000);
}

#[test]
fn atr_test_atr_returns_none_when_not_enough_data() {
    let prices = vec![100_000_000, 101_000_000, 102_000_000];
    // Need period + 1 = 4 points for period = 3
    assert_eq!(atr(&prices, 3), None);
    assert_eq!(atr(&prices, 0), None); // guard period == 0
}

#[test]
fn indicators_test_atr_returns_none_when_not_enough_data() {
    let prices = vec![100_000_000, 101_000_000, 102_000_000];
    assert_eq!(atr(&prices, 3), None);
    assert_eq!(atr(&prices, 0), None);
}

#[test]
fn atr_test_atr_is_zero_for_flat_prices() {
    let prices = vec![100_000_000, 100_000_000, 100_000_000, 100_000_000];
    // TRs: 0, 0, 0 -> ATR = 0
    assert_eq!(atr(&prices, 3).unwrap(), 0);
}

#[test]
fn indicators_test_atr_is_zero_for_flat_prices() {
    let prices = vec![100_000_000, 100_000_000, 100_000_000, 100_000_000];
    assert_eq!(atr(&prices, 3).unwrap(), 0);
}

#[test]
fn atr_test_atr_for_increasing_prices_is_mean_of_diffs() {
    // Prices: 10, 11, 13, 16 -> TRs 1, 2, 3 -> ATR = 2
    let prices = vec![10_000_000, 11_000_000, 13_000_000, 16_000_000];
    assert_eq!(atr(&prices, 3).unwrap(), 2_000_000);
}

#[test]
fn indicators_test_atr_for_increasing_prices_is_mean_of_diffs() {
    let prices = vec![10_000_000, 11_000_000, 13_000_000, 16_000_000];
    assert_eq!(atr(&prices, 3).unwrap(), 2_000_000);
}

#[test]
fn atr_test_atr_with_period_one_is_last_abs_change() {
    // Prices: 10, 13, 9 -> TR_last = |9 - 13| = 4
    let prices = vec![10_000_000, 13_000_000, 9_000_000];
    assert_eq!(atr(&prices, 1).unwrap(), 4_000_000);
}

#[test]
fn indicators_test_atr_with_period_one_is_last_abs_change() {
    let prices = vec![10_000_000, 13_000_000, 9_000_000];
    assert_eq!(atr(&prices, 1).unwrap(), 4_000_000);
}

#[test]
fn atr_test_atr_filter_from_history_returns_none_when_not_enough_data() {
    let prices = vec![100_000_000, 101_000_000, 102_000_000, 103_000_000];
    let period = 3;
    // Need prices.len() >= period + 2 (5 here). We only have 4.
    let result = AtrFilter::from_history(&prices, period, 400_000);
    assert!(result.is_none());
}

#[test]
fn indicators_test_atr_filter_from_history_returns_none_when_not_enough_data() {
    let prices = vec![100_000_000, 101_000_000, 102_000_000, 103_000_000];
    let result = AtrFilter::from_history(&prices, 3, 400_000);
    assert!(result.is_none());
}

// Prices 10, 11, 13, 16, 15 with period 2 give volatility fractions
// floor(1.5/13), floor(2.5/16), floor(2/15) in parts per million:
// 115384, 156250, 133333; sorted: [115384, 133333, 156250].
#[test]
fn atr_test_atr_filter_from_history_computes_percentiles_correctly_for_simple_series() {
    let prices = vec![10_000_000, 11_000_000, 13_000_000, 16_000_000, 15_000_000];
    let period = 2;

    // Percentile 0 -> idx = 0 -> lowest value
    let f0 = AtrFilter::from_history(&prices, period, 0).unwrap();
    assert_eq!(f0.period(), period);
    assert_eq!(f0.floor(), 115_384);

    // Percentile 1.0 -> idx = len - 1 -> highest value
    let f1 = AtrFilter::from_history(&prices, period, 1_000_000).unwrap();
    assert_eq!(f1.period(), period);
    assert_eq!(f1.floor(), 156_250);

    // Percentile 0.5 -> (len-1) * 0.5 = 1.0 -> round -> idx = 1
    let fmid = AtrFilter::from_history(&prices, period, 500_000).unwrap();
    assert_eq!(fmid.period(), period);
    assert_eq!(fmid.floor(), 133_333);
}

#[test]
fn indicators_test_atr_filter_from_history_computes_percentiles_correctly_for_simple_series() {
    let prices = vec![10_000_000, 11_000_000, 13_000_000, 16_000_000, 15_000_000];
    let f0 = AtrFilter::from_history(&prices, 2, 0).unwrap();
    assert_eq!(f0.floor(), 115_384);
    let f1 = AtrFilter::from_history(&prices, 2, 1_000_000).unwrap();
    assert_eq!(f1.floor(), 156_250);
    let fmid = AtrFilter::from_history(&prices, 2, 500_000).unwrap();
    assert_eq!(fmid.floor(), 133_333);
}

#[test]
fn atr_test_atr_filter_from_history_clamps_percentile_below_zero_to_zero() {
    let prices = vec![10_000_000, 11_000_000, 13_000_000, 16_000_000, 15_000_000];
    // percentile = -1.0 -> clamped to 0
    let f = AtrFilter::from_history(&prices, 2, -1_000_000).unwrap();
    assert_eq!(f.floor(), 115_384);
}

#[test]
fn indicators_test_atr_filter_from_history_clamps_percentile_below_zero_to_zero() {
    let prices = vec![10_000_000, 11_000_000, 13_000_000, 16_000_000, 15_000_000];
    let f = AtrFilter::from_history(&prices, 2, -1_000_000).unwrap();
    assert_eq!(f.floor(), 115_384);
}

#[test]
fn atr_test_atr_filter_from_history_clamps_percentile_above_one_to_one() {
    let prices = vec![10_000_000, 11_000_000, 13_000_000, 16_000_000, 15_000_000];
    // percentile = 2.0 -> clamped to 1.0
    let f = AtrFilter::from_history(&prices, 2, 2_000_000).unwrap();
    assert_eq!(f.floor(), 156_250);
}

#[test]
fn indicators_test_atr_filter_from_history_clamps_percentile_above_one_to_one() {
    let prices = vec![10_000_000, 11_000_000, 13_000_000, 16_000_000, 15_000_000];
    let f = AtrFilter::from_history(&prices, 2, 2_000_000).unwrap();
    assert_eq!(f.floor(), 156_250);
}

#[test]
fn test_atr_percent_is_fraction_of_last_price() {
    // ATR = 2 over last price 16 -> 125000 parts per million
    let prices = vec![10_000_000, 11_000_000, 13_000_000, 16_000_000];
    let p = trade_signal::indicators::atr::atr_percent(&prices, 3).unwrap();
    assert_eq!(p, 125_000);
}

#[test]
fn test_atr_percent_none_for_non_positive_last_price() {
    let prices = vec![10_000_000, 11_000_000, 13_000_000, 0];
    assert_eq!(trade_signal::indicators::atr::atr_percent(&prices, 3), None);
}
