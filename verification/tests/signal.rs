//! Tests for the decision engine: the gated, prioritized rule cascade.

use trade_signal::indicators::atr::AtrFilter;
use trade_signal::indicators::regime::RegimeFilter;
use trade_signal::indicators::sma::{SmaConfig, Smas};
use trade_signal::signal::{
    suggest_action, Action, BreakoutConfig, FilterConfig, PullbackConfig, StrategyConfig,
};

fn test_config() -> StrategyConfig {
    StrategyConfig {
        breakouts: Some(BreakoutConfig { breakout_lookback: 5 }),
        enable_bias_only: true,
        enable_crossovers: true,
        pullbacks: Some(PullbackConfig {
            bounce_tolerance_ppm: 3000,
            reject_tolerance_ppm: 3000,
        }),
        sma_config: SmaConfig::sma_20_50(),
        filters: FilterConfig {
            require_trend_filter: true,
            require_price_confirmation: true,
            atr: None,
            regime: None,
        },
    }
}

fn downtrend_for_breakdown() -> Smas {
    Smas { sma_short: 95, sma_long: 100, prev_sma_short: 96, prev_sma_long: 101 }
}

fn downtrend_for_pullback() -> Smas {
    Smas { sma_short: 100, sma_long: 110, prev_sma_short: 101, prev_sma_long: 111 }
}

fn uptrend_for_breakout() -> Smas {
    Smas { sma_short: 105, sma_long: 100, prev_sma_short: 104, prev_sma_long: 99 }
}

fn uptrend_for_bounce() -> Smas {
    Smas { sma_short: 100, sma_long: 95, prev_sma_short: 99, prev_sma_long: 94 }
}

fn golden_cross() -> Smas {
    Smas { sma_short: 105, sma_long: 100, prev_sma_short: 95, prev_sma_long: 100 }
}

fn death_cross() -> Smas {
    Smas { sma_short: 95, sma_long: 100, prev_sma_short: 105, prev_sma_long: 100 }
}

fn long_bias_only() -> Smas {
    Smas { sma_short: 105, sma_long: 100, prev_sma_short: 105, prev_sma_long: 100 }
}

fn short_bias_only() -> Smas {
    Smas { sma_short: 95, sma_long: 100, prev_sma_short: 95, prev_sma_long: 100 }
}

#[test]
fn test_suggest_action_sell_on_breakdown_below_recent_low_in_downtrend() {
    // window = [100, 99, 98, 97, 96], recent low = 96, last = 90 -> breakdown
    let prices = vec![100, 99, 98, 97, 96, 90];
    let smas = downtrend_for_breakdown();

    let (action, reason) = suggest_action(&prices, smas, test_config());

    assert_eq!(action.label(), "SELL");
    assert_eq!(reason, "Breakdown below recent low");
}

#[test]
fn test_suggest_action_sell_on_pullback_to_sma_short_and_rejection_in_downtrend() {
    // p2 = 95 below, p1 = 100 pullback up, p0 = 98 reject; len = 3 so the
    // breakout rule cannot trigger.
    let prices = vec![95, 100, 98];
    let smas = downtrend_for_pullback();

    let (action, reason) = suggest_action(&prices, smas, test_config());

    assert_eq!(action.label(), "SELL");
    assert_eq!(reason, "Pullback up to SMA short and rejection");
}

#[test]
fn test_suggest_action_buy_on_breakout_above_recent_high_in_uptrend() {
    // window = [100..104], recent high = 104, last = 110 -> breakout
    let prices = vec![100, 101, 102, 103, 104, 110];
    let smas = uptrend_for_breakout();

    let (action, reason) = suggest_action(&prices, smas, test_config());

    assert_eq!(action.label(), "BUY");
    assert_eq!(reason, "Breakout above recent high");
}

#[test]
fn test_suggest_action_buy_on_pullback_to_sma_short_and_bounce_in_uptrend() {
    // p2 = 105 above, p1 = 100 pullback, p0 = 103 bounce
    let prices = vec![105, 100, 103];
    let smas = uptrend_for_bounce();

    let (action, reason) = suggest_action(&prices, smas, test_config());

    assert_eq!(action.label(), "BUY");
    assert_eq!(reason, "Pullback to SMA short and bounce");
}

#[test]
fn test_suggest_action_buy_on_golden_cross_with_confirmation() {
    // Uptrend + golden cross + price above both averages
    let prices = vec![100, 102, 106];
    let smas = golden_cross();

    let (action, reason) = suggest_action(&prices, smas, test_config());

    assert_eq!(action.label(), "BUY");
    assert_eq!(reason, "Golden Cross");
}

#[test]
fn test_suggest_action_sell_on_death_cross_with_confirmation() {
    // Downtrend + death cross + price below both averages
    let prices = vec![100, 99, 94];
    let smas = death_cross();

    let (action, reason) = suggest_action(&prices, smas, test_config());

    assert_eq!(action.label(), "SELL");
    assert_eq!(reason, "Death Cross");
}

#[test]
fn test_suggest_action_hold_long_bias_when_uptrend_but_no_strong_signal() {
    // Uptrend, price above both averages, but no cross, breakout or pullback
    let prices = vec![101, 103, 106];
    let smas = long_bias_only();

    let (action, reason) = suggest_action(&prices, smas, test_config());

    assert_eq!(action.label(), "BUY");
    assert_eq!(reason, "Uptrend (SMA short > SMA long)");
}

#[test]
fn test_suggest_action_hold_short_bias_when_downtrend_but_no_strong_signal() {
    // Downtrend, price below both averages, but no cross, breakdown or pullback
    let prices = vec![100, 95, 90];
    let smas = short_bias_only();

    let (action, reason) = suggest_action(&prices, smas, test_config());

    assert_eq!(action.label(), "SELL");
    assert_eq!(reason, "Downtrend (SMA short < SMA long)");
}

#[test]
fn test_suggest_action_generic_hold_when_no_trend_or_signal() {
    // Flat averages, price neither above nor below both
    let prices = vec![100, 100, 100];
    let smas = Smas { sma_short: 100, sma_long: 100, prev_sma_short: 100, prev_sma_long: 100 };

    let (action, reason) = suggest_action(&prices, smas, test_config());

    assert_eq!(action.label(), "HOLD");
    assert_eq!(reason, "No strategy matched");
}

#[test]
fn test_suggest_action_hold_when_volatility_below_floor() {
    // Flat prices -> zero volatility, below a 1% floor; the volatility
    // gate fires before any other rule.
    let prices = vec![100; 40];
    let smas = Smas { sma_short: 100, sma_long: 100, prev_sma_short: 100, prev_sma_long: 100 };

    let atr_filter = AtrFilter::new_fixed(14, 10_000);
    let mut strategy = test_config();
    strategy.filters.atr = Some(atr_filter);
    let (action, reason) = suggest_action(&prices, smas, strategy);

    assert_eq!(action.label(), "HOLD");
    assert!(
        reason.contains("Volatility too low"),
        "Expected 'Volatility too low' in reason, got: {reason}"
    );
}

fn trending_up_filter() -> RegimeFilter {
    RegimeFilter { long_window: 3, slope_window: 3, min_trend_strength: 10_000, min_range: 0 }
}

fn trending_down_filter() -> RegimeFilter {
    RegimeFilter { long_window: 3, slope_window: 3, min_trend_strength: 10_000, min_range: 0 }
}

fn sideways_filter() -> RegimeFilter {
    // Thresholds that classify most small moves as sideways
    RegimeFilter {
        long_window: 3,
        slope_window: 3,
        min_trend_strength: 200_000,
        min_range: 200_000,
    }
}

#[test]
fn test_suggest_action_buy_allowed_in_trending_up_regime() {
    // An uptrend with a breakout above the recent high
    let prices = vec![100, 101, 102, 103, 104, 110];
    let smas = uptrend_for_breakout();

    let mut strategy = test_config();
    strategy.filters.regime = Some(trending_up_filter());
    let (action, reason) = suggest_action(&prices, smas, strategy);

    assert_eq!(action.label(), "BUY");
    assert!(
        reason.contains("Breakout above recent high"),
        "unexpected reason: {}",
        reason
    );
}

#[test]
fn test_suggest_action_sell_allowed_in_trending_down_regime() {
    // window = [100, 99, 98, 97, 96], recent low = 96, last = 90 -> breakdown
    let prices = vec![100, 99, 98, 97, 96, 90];
    let smas = downtrend_for_breakdown();

    let mut strategy = test_config();
    strategy.filters.regime = Some(trending_down_filter());
    let (action, reason) = suggest_action(&prices, smas, strategy);

    assert_eq!(action.label(), "SELL");
    assert!(
        reason.contains("Breakdown below recent low"),
        "unexpected reason: {}",
        reason
    );
}

#[test]
fn test_suggest_action_sell_blocked_in_sideways_regime() {
    // Same breakdown pattern and downtrend averages, but the regime says
    // sideways: no strong sell signals wanted.
    let prices = vec![100, 99, 98, 97, 96, 90];
    let smas = downtrend_for_breakdown();

    let mut strategy = test_config();
    strategy.filters.regime = Some(sideways_filter());
    let (action, reason) = suggest_action(&prices, smas, strategy);

    assert_eq!(action.label(), "HOLD");
    assert_eq!(
        reason,
        "Breakdown below recent low, but Regime filter vetoed short & Downtrend (SMA short < SMA long), but Regime filter vetoed short"
    );
}

#[test]
fn test_suggest_action_buy_blocked_in_sideways_regime() {
    // Uptrend breakout, but the regime says sideways: block the buy
    let prices = vec![100, 101, 102, 103, 104, 110];
    let smas = uptrend_for_breakout();

    let mut strategy = test_config();
    strategy.filters.regime = Some(sideways_filter());
    let (action, reason) = suggest_action(&prices, smas, strategy);

    assert_ne!(action.label(), "BUY");
    assert!(
        action.label() == "HOLD",
        "expected HOLD-like suggestion, got {} ({})",
        action.label(),
        reason
    );
}

#[test]
fn test_describe_config_lists_every_enabled_part() {
    let strategy = test_config();
    assert_eq!(
        strategy.describe_config(),
        "SMA20/50 + breakout(lookback=5) + pullback(bounce=3000ppm,rejection=3000ppm) + crossovers + bias_only + require_price_confirmation + require_trend_filter"
    );
}

#[test]
fn test_volatility_reason_names_the_computed_and_floor_fractions() {
    // Prices 10, 11, 13, 16 with period 3: the volatility fraction is
    // 125000 parts per million, below a floor of 200000.
    let prices = vec![10_000_000, 11_000_000, 13_000_000, 16_000_000];
    let smas = Smas { sma_short: 1, sma_long: 1, prev_sma_short: 1, prev_sma_long: 1 };
    let mut strategy = test_config();
    strategy.filters.atr = Some(AtrFilter::new_fixed(3, 200_000));

    let (action, reason) = suggest_action(&prices, smas, strategy);

    assert_eq!(action.label(), "HOLD");
    assert_eq!(reason, "Volatility too low: ATR(3) = 125000ppm < floor 200000ppm");
}

#[test]
fn test_insufficient_data_reason_for_volatility_filter() {
    let prices = vec![100, 101];
    let smas = Smas { sma_short: 100, sma_long: 100, prev_sma_short: 100, prev_sma_long: 100 };
    let mut strategy = test_config();
    strategy.filters.atr = Some(AtrFilter::new_fixed(14, 10_000));

    let (action, reason) = suggest_action(&prices, smas, strategy);

    assert_eq!(action, Action::Hold);
    assert_eq!(reason, "Insufficient data for ATR(14) volatility filter");
}
