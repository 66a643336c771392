//! Tests for the portfolio simulators, the parameter-space generation and
//! the sweep reduction.

use trade_signal::backtest::common::{
    generate_backtest_sweep_jobs, generate_pullback_pairs, generate_strategies,
    suggestion_to_signal, Candidate, Signal,
};
use trade_signal::backtest::position::{
    buy_and_hold_equity, NdjsonLogger, NoopLogger, PositionBacktester, PositionSide,
};
use trade_signal::backtest::spot::SpotBacktester;
use trade_signal::data::Sample;
use trade_signal::indicators::sma::SmaConfig;
use trade_signal::signal::{FilterConfig, StrategyConfig};

fn bias_only_strategy() -> StrategyConfig {
    StrategyConfig {
        breakouts: None,
        pullbacks: None,
        enable_crossovers: false,
        enable_bias_only: true,
        sma_config: SmaConfig { short_window: 1, long_window: 2 },
        filters: FilterConfig {
            require_trend_filter: false,
            require_price_confirmation: false,
            atr: None,
            regime: None,
        },
    }
}

fn samples_of(prices: &[i64]) -> Vec<Sample> {
    prices
        .iter()
        .enumerate()
        .map(|(i, &p)| Sample { ts: 3600 * (i as i64), price: p })
        .collect()
}

#[test]
fn test_suggestion_to_signal_maps_only_buy_and_sell() {
    assert_eq!(suggestion_to_signal("BUY"), Some(Signal::Buy));
    assert_eq!(suggestion_to_signal("SELL"), Some(Signal::Sell));
    assert_eq!(suggestion_to_signal("HOLD"), None);
    assert_eq!(suggestion_to_signal("buy"), None);
    assert_eq!(suggestion_to_signal(""), None);
}

#[test]
fn test_position_side_from_signal() {
    assert_eq!(PositionSide::from(Signal::Buy), PositionSide::Long);
    assert_eq!(PositionSide::from(Signal::Sell), PositionSide::Short);
}

#[test]
fn test_position_backtest_fails_without_enough_data() {
    let samples = samples_of(&[100, 101]);
    let bt = PositionBacktester::new(10_000);
    // The bias-only strategy with the default 20/50 windows needs 51 samples.
    let mut strategy = bias_only_strategy();
    strategy.sma_config = SmaConfig::sma_20_50();
    let candidate = Candidate { buy_sell_fraction: 500_000, strategy };
    let err = bt.run_backtest(&samples, &candidate).unwrap_err();
    assert_eq!(err, "Not enough data");
}

#[test]
fn test_position_backtest_long_entry_and_eof_close() {
    // One long entry at 100 with half the cash, closed at 110 at the end
    // of data: profit (110-100) x 50 = 500, final equity 10500, total
    // return 5%.
    let samples = samples_of(&[90, 95, 100, 110]);
    let bt = PositionBacktester::new(10_000);
    let candidate = Candidate { buy_sell_fraction: 500_000, strategy: bias_only_strategy() };

    let result = bt.run_backtest(&samples, &candidate).unwrap();

    assert_eq!(result.initial_equity, 10_000);
    assert_eq!(result.positions.len(), 1);
    let pos = &result.positions[0];
    assert_eq!(pos.side, PositionSide::Long);
    assert_eq!(pos.entry_price, 100);
    assert_eq!(pos.exit_price, Some(110));
    assert_eq!(pos.entry_collateral_gross, 5_000);
    assert_eq!(pos.size, 50_000_000); // 50 coins, in millionths
    assert_eq!(pos.profit, Some(500));
    assert_eq!(pos.exit_reason.as_deref(), Some("EOF"));
    assert_eq!(pos.entry_reason, "Uptrend (SMA short > SMA long)");
    assert_eq!(result.final_equity, 10_500);
    assert_eq!(result.total_return_ppm, 50_000); // 5%
    assert_eq!(result.win_rate_ppm, 1_000_000);
    assert_eq!(result.max_drawdown_ppm, 0);
    assert_eq!(
        result.equity_curve,
        vec![(0, 10_000), (3600, 10_000), (7200, 10_000), (10_800, 10_500)]
    );
}

#[test]
fn test_position_backtest_flips_to_short_on_sell_signal() {
    // After the long entry at 100, a falling price flips the position to
    // a short, which the end of data then closes.
    let samples = samples_of(&[90, 95, 100, 80, 70]);
    let bt = PositionBacktester::new(10_000);
    let candidate = Candidate { buy_sell_fraction: 500_000, strategy: bias_only_strategy() };

    let result = bt.run_backtest(&samples, &candidate).unwrap();

    assert_eq!(result.positions.len(), 2);
    assert_eq!(result.positions[0].side, PositionSide::Long);
    // The long entered at 100 and closed at 80: (80-100) x 50 = -1000.
    assert_eq!(result.positions[0].profit, Some(-1_000));
    assert_eq!(result.positions[1].side, PositionSide::Short);
    // The short entered at 80 and closed at 70 at the end of data.
    assert_eq!(result.positions[1].entry_price, 80);
    assert_eq!(result.positions[1].exit_price, Some(70));
}

#[test]
fn test_position_backtest_zero_fraction_never_trades() {
    let samples = samples_of(&[90, 95, 100, 110]);
    let bt = PositionBacktester::new(10_000);
    let candidate = Candidate { buy_sell_fraction: 0, strategy: bias_only_strategy() };

    let result = bt.run_backtest(&samples, &candidate).unwrap();

    assert_eq!(result.positions.len(), 0);
    assert_eq!(result.final_equity, 10_000);
    assert_eq!(result.total_return_ppm, 0);
    assert_eq!(result.win_rate_ppm, 0);
}

#[test]
fn test_position_backtester_with_logger_keeps_cash() {
    let bt = PositionBacktester::with_logger(5_000, NoopLogger);
    assert_eq!(bt.initial_cash, 5_000);
}

#[test]
fn test_ndjson_logger_new_keeps_the_path() {
    let logger = NdjsonLogger::new(std::path::PathBuf::from("positions.ndjson"));
    assert_eq!(logger.path, std::path::PathBuf::from("positions.ndjson"));
}

#[test]
fn test_position_buy_and_hold_equity() {
    let samples = samples_of(&[100, 90, 110]);
    // 1000 cash buys 10 coins at 100, worth 1100 at 110.
    assert_eq!(buy_and_hold_equity(&samples, 1_000), Some(1_100));
    assert_eq!(buy_and_hold_equity(&vec![], 1_000), None);
    let bad = samples_of(&[0, 110]);
    assert_eq!(buy_and_hold_equity(&bad, 1_000), None);
}

#[test]
fn test_spot_buy_and_hold_equity_counts_initial_coin() {
    let samples = samples_of(&[100, 110]);
    // 10 coins bought with cash plus 2_000_000 millionths (2 coins) held.
    let r = trade_signal::backtest::spot::buy_and_hold_equity(&samples, 1_000, 2_000_000);
    assert_eq!(r, Some(1_320));
}

#[test]
fn test_spot_backtest_fails_without_enough_data() {
    let samples = samples_of(&[100, 101]);
    let mut strategy = bias_only_strategy();
    strategy.sma_config = SmaConfig::sma_20_50();
    let bt = SpotBacktester::new(10_000, 0, 0);
    let candidate = Candidate { buy_sell_fraction: 500_000, strategy };
    let err = bt.run_backtest(&samples, &candidate).unwrap_err();
    assert_eq!(err, "Not enough data");
}

#[test]
fn test_spot_backtest_overflow_is_reported() {
    // An absurd initial coin amount at an absurd price cannot be carried
    // in the money type.
    let samples = samples_of(&[i64::MAX, i64::MAX, i64::MAX]);
    let bt = SpotBacktester::new(10_000, i64::MAX, 0);
    let candidate = Candidate { buy_sell_fraction: 500_000, strategy: bias_only_strategy() };
    let err = bt.run_backtest(&samples, &candidate).unwrap_err();
    assert_eq!(err, "Numeric overflow");
}

#[test]
fn test_spot_backtest_applies_fee_on_buys() {
    // 100 basis points = 1% fee: investing 10000 gross nets 9900, which
    // buys 99 coins at 100.
    let samples = samples_of(&[90, 95, 100, 100]);
    let bt = SpotBacktester::new(10_000, 0, 100);
    let candidate = Candidate { buy_sell_fraction: 1_000_000, strategy: bias_only_strategy() };

    let result = bt.run_backtest(&samples, &candidate).unwrap();

    // Final equity: 99 coins at 100 = 9900 (the fee is gone).
    assert_eq!(result.final_equity, 9_900);
    assert_eq!(result.trades.len(), 0);
}

#[test]
fn test_generate_pullback_pairs_nested_stepped_range() {
    let pairs = generate_pullback_pairs(1_000, 3_000, 1_000);
    assert_eq!(pairs, vec![(1_000, 2_000), (1_000, 3_000), (2_000, 3_000)]);
}

#[test]
fn test_generate_pullback_pairs_empty_when_min_above_max() {
    let pairs = generate_pullback_pairs(5_000, 3_000, 1_000);
    assert_eq!(pairs, vec![]);
}

#[test]
fn test_generate_strategies_counts_the_whole_space() {
    // The window grid keeps 11 of the 12 pairs (30/40 fails the
    // long >= 2 x short filter). For one lookback and one tolerance pair,
    // each of the 16 masks contributes one strategy unless nothing but
    // bias-only is enabled, which is skipped: 14 per window pair.
    let pairs = vec![(3_000, 4_000)];
    let strategies = generate_strategies(5, 5, pairs);
    assert_eq!(strategies.len(), 11 * 14);
    assert!(strategies.iter().all(|s| s.enable_bias_only));
    assert!(strategies
        .iter()
        .all(|s| s.filters.require_trend_filter && s.filters.require_price_confirmation));
}

#[test]
fn test_generate_backtest_sweep_jobs_pairs_each_strategy_with_each_step() {
    let strategies = vec![bias_only_strategy(), bias_only_strategy()];
    let jobs = generate_backtest_sweep_jobs(strategies, 3);
    assert_eq!(jobs.len(), 6);
    assert_eq!(jobs[0].1, 1);
    assert_eq!(jobs[1].1, 2);
    assert_eq!(jobs[2].1, 3);
    assert_eq!(jobs[3].1, 1);
}

#[test]
fn test_find_best_strategy_picks_the_higher_return() {
    // Two sizing steps of the same strategy: the full fraction rides the
    // rally harder and wins on total return.
    let samples = samples_of(&[90, 95, 100, 110]);
    let jobs = generate_backtest_sweep_jobs(vec![bias_only_strategy()], 2);
    let bt = PositionBacktester::new(10_000);

    let (candidate, result) =
        trade_signal::backtest::common::find_best_strategy(jobs, 1_000_000, 2, &samples, &bt)
            .unwrap();

    assert_eq!(candidate.buy_sell_fraction, 1_000_000);
    // Full sizing: 100 coins entered at 100, closed at 110: +1000.
    assert_eq!(result.final_equity, 11_000);
    assert_eq!(result.total_return_ppm, 100_000);
}

#[test]
fn test_find_best_strategy_none_when_every_job_fails() {
    let samples = samples_of(&[100, 101]);
    let mut strategy = bias_only_strategy();
    strategy.sma_config = SmaConfig::sma_20_50();
    let jobs = generate_backtest_sweep_jobs(vec![strategy], 2);
    let bt = PositionBacktester::new(10_000);
    let best = trade_signal::backtest::common::find_best_strategy(jobs, 1_000_000, 2, &samples, &bt);
    assert!(best.is_none());
}

#[test]
fn test_position_backtest_overflow_is_reported() {
    // A long position opened with astronomical cash at a low price cannot
    // be marked to market after a huge rally.
    let samples = samples_of(&[500_000, 900_000, 1_000_000, 9_000_000]);
    let bt = PositionBacktester::new(4_000_000_000_000_000_000);
    let candidate = Candidate { buy_sell_fraction: 1_000_000, strategy: bias_only_strategy() };
    let err = bt.run_backtest(&samples, &candidate).unwrap_err();
    assert_eq!(err, "Numeric overflow");
}

#[test]
fn test_analyze_packages_the_last_sample_and_suggestion() {
    let samples = samples_of(&[100, 99, 98, 97, 96, 90]);
    let prices: Vec<i64> = samples.iter().map(|s| s.price).collect();
    let smas = trade_signal::indicators::sma::Smas {
        sma_short: 95,
        sma_long: 100,
        prev_sma_short: 96,
        prev_sma_long: 101,
    };
    let strategy = StrategyConfig {
        breakouts: Some(trade_signal::signal::BreakoutConfig { breakout_lookback: 5 }),
        pullbacks: None,
        enable_crossovers: false,
        enable_bias_only: false,
        sma_config: SmaConfig::sma_20_50(),
        filters: FilterConfig {
            require_trend_filter: true,
            require_price_confirmation: true,
            atr: None,
            regime: None,
        },
    };
    let result = trade_signal::signal::analyze(&samples, &prices, smas, strategy);
    assert_eq!(result.last.price, 90);
    assert_eq!(result.last.ts, samples[5].ts);
    assert_eq!(result.suggestion, "SELL");
    assert_eq!(result.reason, "Breakdown below recent low");
}
