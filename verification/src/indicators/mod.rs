//! Indicator library: moving averages, a volatility estimate and a macro
//! regime classifier. Pure functions over price vectors.

pub mod atr;
pub mod regime;
pub mod sma;

pub use atr::AtrFilter;
pub use regime::{Regime, RegimeFilter};
pub use sma::{compute_smas, simple_moving_average, SmaConfig, Smas};
