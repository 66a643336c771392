//! Tests for the breakout/breakdown and pullback pattern detectors.
//! Prices carry a factor of one million; tolerances are in parts per
//! million.

use trade_signal::patterns::{
    is_breakdown_below_recent_low, is_breakout_above_recent_high,
    is_pullback_to_sma_short_and_bounce, is_pullback_to_sma_short_and_reject_down,
};

#[test]
fn test_is_breakdown_below_recent_low_false_when_not_enough_data() {
    let prices = vec![100_000_000, 99_000_000]; // len = 2
    let lookback = 5; // needs at least lookback + 1 = 6
    assert!(!is_breakdown_below_recent_low(&prices, lookback));
}

#[test]
fn test_is_breakdown_below_recent_low_false_when_last_price_equals_recent_low() {
    // window = [100, 98, 97], recent low = 97, last = 97 -> not a breakdown
    let prices = vec![100_000_000, 98_000_000, 97_000_000, 97_000_000];
    assert!(!is_breakdown_below_recent_low(&prices, 3));
}

#[test]
fn test_is_breakdown_below_recent_low_true_when_last_price_is_strictly_below_recent_low() {
    // window = [100, 98, 97], recent low = 97, last = 96 -> breakdown
    let prices = vec![100_000_000, 98_000_000, 97_000_000, 96_000_000];
    assert!(is_breakdown_below_recent_low(&prices, 3));
}

#[test]
fn test_is_breakdown_below_recent_low_false_when_last_price_is_above_recent_low() {
    // recent low = 98, last = 98.000001 -> no breakdown
    let prices = vec![100_000_000, 99_000_000, 98_000_000, 98_000_001];
    assert!(!is_breakdown_below_recent_low(&prices, 3));
}

#[test]
fn test_is_breakdown_below_recent_low_uses_only_lookback_window_not_older_lows() {
    // The global minimum (50) is outside the lookback window:
    // window = [60, 55, 54], recent low = 54, last = 53 -> breakdown
    let prices = vec![50_000_000, 60_000_000, 55_000_000, 54_000_000, 53_000_000];
    assert!(is_breakdown_below_recent_low(&prices, 3));
}

#[test]
fn test_is_breakdown_below_recent_low_window_excludes_last_candle_from_recent_low() {
    // lookback = 2 -> window = [8, 7], recent low = 7, last = 6 -> breakdown.
    // If the last candle were wrongly part of the window the low would be 6
    // and nothing would fire.
    let prices = vec![10_000_000, 9_000_000, 8_000_000, 7_000_000, 6_000_000];
    assert!(is_breakdown_below_recent_low(&prices, 2));
}

#[test]
fn test_is_pullback_to_sma_short_and_reject_down_false_when_not_enough_prices() {
    let sma_short = 100_000_000;
    assert!(!is_pullback_to_sma_short_and_reject_down(&vec![], sma_short, 300));
    assert!(!is_pullback_to_sma_short_and_reject_down(
        &vec![99_000_000],
        sma_short,
        300
    ));
    assert!(!is_pullback_to_sma_short_and_reject_down(
        &vec![99_000_000, 100_000_000],
        sma_short,
        300
    ));
}

#[test]
fn test_is_pullback_to_sma_short_and_reject_down_true_for_valid_pullback_and_rejection_pattern() {
    // p2 = 95 below, p1 = 100 touching, p0 = 98 rejecting down
    let prices = vec![95_000_000, 100_000_000, 98_000_000];
    assert!(is_pullback_to_sma_short_and_reject_down(
        &prices,
        100_000_000,
        300
    ));
}

#[test]
fn test_is_pullback_to_sma_short_and_reject_down_false_if_p2_is_not_below_sma_short() {
    // p2 == sma_short -> was_below = false
    let prices = vec![100_000_000, 101_000_000, 99_000_000];
    assert!(!is_pullback_to_sma_short_and_reject_down(
        &prices,
        100_000_000,
        300
    ));
}

#[test]
fn test_is_pullback_to_sma_short_and_reject_down_false_if_pullback_not_higher_than_p2() {
    // p1 <= p2 -> no pullback
    let prices = vec![95_000_000, 95_000_000, 94_000_000];
    assert!(!is_pullback_to_sma_short_and_reject_down(
        &prices,
        100_000_000,
        300
    ));
}

#[test]
fn test_is_pullback_to_sma_short_and_reject_down_false_if_pullback_not_close_enough_to_sma_short() {
    // Tolerance 300 parts per million puts the threshold at 99.97;
    // p1 = 99.6 is below it.
    let prices = vec![95_000_000, 99_600_000, 98_000_000];
    assert!(!is_pullback_to_sma_short_and_reject_down(
        &prices,
        100_000_000,
        300
    ));
}

#[test]
fn test_is_pullback_to_sma_short_and_reject_down_true_if_pullback_is_exactly_at_lower_tolerance_boundary(
) {
    // p1 exactly at sma_short * (1 - tol) passes the inclusive check:
    // tol = 3000 parts per million -> threshold 99.7.
    let prices = vec![95_000_000, 99_700_000, 98_000_000];
    assert!(is_pullback_to_sma_short_and_reject_down(
        &prices,
        100_000_000,
        3000
    ));
}

#[test]
fn test_is_pullback_to_sma_short_and_reject_down_false_if_last_price_not_below_sma_short() {
    // p0 above the average -> no rejection
    let prices = vec![95_000_000, 100_000_000, 100_500_000];
    assert!(!is_pullback_to_sma_short_and_reject_down(
        &prices,
        100_000_000,
        300
    ));
}

#[test]
fn test_is_pullback_to_sma_short_and_reject_down_false_if_last_price_not_below_p1() {
    // p0 == p1 -> no rejection
    let prices = vec![95_000_000, 100_000_000, 100_000_000];
    assert!(!is_pullback_to_sma_short_and_reject_down(
        &prices,
        100_000_000,
        300
    ));
}

#[test]
fn test_is_pullback_to_sma_short_and_reject_down_works_when_more_than_three_prices_present() {
    // Only the last three prices matter.
    let prices = vec![
        1_000_000, 2_000_000, 3_000_000, 95_000_000, 100_000_000, 98_000_000,
    ];
    assert!(is_pullback_to_sma_short_and_reject_down(
        &prices,
        100_000_000,
        300
    ));
}

#[test]
fn test_is_breakout_above_recent_high_false_when_not_enough_data() {
    let prices = vec![100_000_000, 101_000_000]; // len = 2
    let lookback = 5; // needs at least lookback + 1 = 6
    assert!(!is_breakout_above_recent_high(&prices, lookback));
}

#[test]
fn test_is_breakout_above_recent_high_false_when_last_price_equals_recent_high() {
    // window = [100, 102, 103], recent high = 103, last = 103 -> no breakout
    let prices = vec![100_000_000, 102_000_000, 103_000_000, 103_000_000];
    assert!(!is_breakout_above_recent_high(&prices, 3));
}

#[test]
fn test_is_breakout_above_recent_high_true_when_last_price_is_strictly_above_recent_high() {
    // window = [100, 102, 103], recent high = 103, last = 104 -> breakout
    let prices = vec![100_000_000, 102_000_000, 103_000_000, 104_000_000];
    assert!(is_breakout_above_recent_high(&prices, 3));
}

#[test]
fn test_is_breakout_above_recent_high_false_when_last_price_is_only_slightly_above_but_below_epsilon_threshold(
) {
    // The epsilon is one part per million: recent high = 100, the
    // threshold is 100.0001, and last = 100.00001 stays below it.
    let prices = vec![99_000_000, 100_000_000, 100_000_010];
    assert!(!is_breakout_above_recent_high(&prices, 2));
}

#[test]
fn test_is_breakout_above_recent_high_uses_only_lookback_window_not_older_highs() {
    // The global maximum (200) is outside the lookback window:
    // window = [90, 95, 100], recent high = 100, last = 101 -> breakout
    let prices = vec![
        200_000_000, 90_000_000, 95_000_000, 100_000_000, 101_000_000,
    ];
    assert!(is_breakout_above_recent_high(&prices, 3));
}

#[test]
fn test_is_breakout_above_recent_high_window_excludes_last_candle_from_recent_high() {
    // lookback = 2 -> window = [95, 100], recent high = 100, last = 105.
    // If the last candle were wrongly part of the window the high would be
    // 105 and nothing would fire.
    let prices = vec![90_000_000, 95_000_000, 100_000_000, 105_000_000];
    assert!(is_breakout_above_recent_high(&prices, 2));
}

#[test]
fn test_is_pullback_to_sma_short_and_bounce_false_when_not_enough_prices() {
    let sma_short = 100_000_000;
    assert!(!is_pullback_to_sma_short_and_bounce(&vec![], sma_short, 300));
    assert!(!is_pullback_to_sma_short_and_bounce(
        &vec![101_000_000],
        sma_short,
        300
    ));
    assert!(!is_pullback_to_sma_short_and_bounce(
        &vec![101_000_000, 100_000_000],
        sma_short,
        300
    ));
}

#[test]
fn test_is_pullback_to_sma_short_and_bounce_true_for_valid_pullback_and_bounce_pattern() {
    // p2 = 105 above, p1 = 100 pullback, p0 = 103 bounce
    let prices = vec![105_000_000, 100_000_000, 103_000_000];
    assert!(is_pullback_to_sma_short_and_bounce(
        &prices,
        100_000_000,
        300
    ));
}

#[test]
fn test_is_pullback_to_sma_short_and_bounce_false_if_p2_not_above_sma_short() {
    // p2 == sma_short -> not strictly above
    let prices = vec![100_000_000, 99_000_000, 101_000_000];
    assert!(!is_pullback_to_sma_short_and_bounce(
        &prices,
        100_000_000,
        300
    ));
}

#[test]
fn test_is_pullback_to_sma_short_and_bounce_false_if_no_pullback_p1_not_lower_than_p2() {
    // p1 == p2 -> no pullback
    let prices = vec![105_000_000, 105_000_000, 106_000_000];
    assert!(!is_pullback_to_sma_short_and_bounce(
        &prices,
        100_000_000,
        300
    ));
}

#[test]
fn test_is_pullback_to_sma_short_and_bounce_false_if_pullback_too_far_above_sma_short() {
    // Tolerance 300 parts per million puts the band top at 100.03;
    // p1 = 100.4 is above it.
    let prices = vec![110_000_000, 100_400_000, 105_000_000];
    assert!(!is_pullback_to_sma_short_and_bounce(
        &prices,
        100_000_000,
        300
    ));
}

#[test]
fn test_is_pullback_to_sma_short_and_bounce_true_if_pullback_exactly_at_upper_tolerance_boundary() {
    // p1 exactly at sma_short * (1 + tol) passes the inclusive check:
    // tol = 3000 parts per million -> band top 100.3.
    let prices = vec![110_000_000, 100_300_000, 105_000_000];
    assert!(is_pullback_to_sma_short_and_bounce(
        &prices,
        100_000_000,
        3000
    ));
}

#[test]
fn test_is_pullback_to_sma_short_and_bounce_false_if_last_price_not_above_sma_short() {
    // p0 below the average -> no bounce
    let prices = vec![105_000_000, 100_000_000, 99_500_000];
    assert!(!is_pullback_to_sma_short_and_bounce(
        &prices,
        100_000_000,
        300
    ));
}

#[test]
fn test_is_pullback_to_sma_short_and_bounce_false_if_last_price_not_above_p1() {
    // p0 == p1 -> no bounce
    let prices = vec![105_000_000, 100_000_000, 100_000_000];
    assert!(!is_pullback_to_sma_short_and_bounce(
        &prices,
        100_000_000,
        300
    ));
}

#[test]
fn test_is_pullback_to_sma_short_and_bounce_works_when_more_than_three_prices_present() {
    // Only the last three prices matter.
    let prices = vec![
        1_000_000, 2_000_000, 3_000_000, 105_000_000, 100_000_000, 103_000_000,
    ];
    assert!(is_pullback_to_sma_short_and_bounce(
        &prices,
        100_000_000,
        300
    ));
}
