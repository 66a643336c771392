//! Rule-based trading-signal strategies evaluated against historical price
//! series, with portfolio simulators and an exhaustive parameter sweep.
//!
//! All prices, monetary amounts and fractions are fixed-point integers:
//! a fraction (a tolerance, a sizing fraction, a volatility floor, a
//! return or drawdown) is expressed in parts per million, and a coin
//! quantity carries the same factor of one million. Every arithmetic step
//! is therefore exact and fully specified.

pub mod backtest;
pub mod data;
pub mod indicators;
pub mod num;
pub mod patterns;
pub mod series;
pub mod signal;
pub mod text;
