//! Portfolio simulators and the sweep/optimizer.

pub mod common;
pub mod position;
pub mod spot;

pub use common::{
    compute_max_drawdown, find_best_strategy, generate_backtest_sweep_jobs,
    generate_pullback_pairs, generate_strategies, Backtester, Candidate, Signal, TradingMetrics,
};
