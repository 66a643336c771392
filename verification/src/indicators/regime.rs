//! Macro regime classifier: big-picture trend detection over a long
//! moving average and a slope window.

use vstd::prelude::*;
use vstd::math::abs;

use crate::indicators::sma::{simple_moving_average, spec_sma};
use crate::num::PPM;
use crate::series::{max_in_range, min_in_range, seq_max, seq_min};

verus! {

/// Market regime in the bigger picture.
#[derive(Debug, Clone, Copy, PartialEq, Eq, Structural)]
pub enum Regime {
    TrendingUp,
    TrendingDown,
    Sideways,
}

/// Parameters of the macro trend/sideways classifier. Fractions are in
/// parts per million.
#[derive(Debug, Clone, Copy, PartialEq, Eq, Structural)]
pub struct RegimeFilter {
    /// Long moving-average window for the big-picture trend (in candles).
    pub long_window: usize,
    /// Window used to measure the price slope (in candles).
    pub slope_window: usize,
    /// Minimum move over `slope_window` to consider it a trend.
    pub min_trend_strength: i64,
    /// Minimum total high/low range over the slope window to avoid dead chop.
    pub min_range: i64,
}

impl Default for RegimeFilter {
    /// Big-picture defaults for hourly candles: a 200-candle trend window,
    /// a 48-candle slope window, a 2% minimum move and a 3% minimum range.
    fn default() -> (r: Self)
        ensures
            r.long_window == 200,
            r.slope_window == 48,
            r.min_trend_strength == 20_000,
            r.min_range == 30_000,
    {
        Self { long_window: 200, slope_window: 48, min_trend_strength: 20_000, min_range: 30_000 }
    }
}

/// The regime `detect_regime` reports for `s` under filter `f`.
pub open spec fn spec_detect_regime(f: RegimeFilter, s: Seq<i64>) -> Regime {
    let n = s.len() as int;
    let longer = if f.long_window >= f.slope_window {
        f.long_window as int
    } else {
        f.slope_window as int
    };
    if n < longer + 1 {
        Regime::Sideways
    } else if f.long_window < 1 {
        Regime::Sideways
    } else {
        let sma_long = spec_sma(s, f.long_window as int);
        if sma_long <= 0 {
            Regime::Sideways
        } else {
            let start = n - 1 - f.slope_window;
            let start_price = s[start] as int;
            let end_price = s[n - 1] as int;
            if start_price <= 0 {
                Regime::Sideways
            } else {
                let trend_small = abs(end_price - start_price) * PPM < (
                f.min_trend_strength as int) * start_price;
                let range = seq_max(s, start, n) - seq_min(s, start, n);
                let range_small = range * PPM < (f.min_range as int) * sma_long;
                if trend_small || range_small {
                    Regime::Sideways
                } else if end_price > sma_long && end_price > start_price {
                    Regime::TrendingUp
                } else if end_price < sma_long && end_price < start_price {
                    Regime::TrendingDown
                } else {
                    Regime::Sideways
                }
            }
        }
    }
}

impl RegimeFilter {
    /// Detect the macro regime of a price series.
    ///
    /// Without enough history for both windows the answer is Sideways.
    /// Otherwise the move over the slope window and the high/low range
    /// (normalized by the long average) are compared against the
    /// configured minimums; a weak trend or a tiny range is Sideways, and
    /// the direction must agree with the side of the long average.
    pub fn detect_regime(&self, prices: &Vec<i64>) -> (r: Regime)
        ensures
            r == spec_detect_regime(*self, prices@),
    {
        let n = prices.len();
        let longer = if self.long_window >= self.slope_window {
            self.long_window
        } else {
            self.slope_window
        };
        if n < longer || n - longer < 1 {
            return Regime::Sideways;
        }
        let sma_long = match simple_moving_average(prices, self.long_window) {
            Some(v) => v,
            None => {
                return Regime::Sideways;
            },
        };
        if sma_long <= 0 {
            return Regime::Sideways;
        }
        let start = n - 1 - self.slope_window;
        let start_price = prices[start];
        let end_price = prices[n - 1];
        if start_price <= 0 {
            return Regime::Sideways;
        }
        let move_abs: i128 = if end_price >= start_price {
            (end_price as i128) - (start_price as i128)
        } else {
            (start_price as i128) - (end_price as i128)
        };
        let trend_small = move_abs * (PPM as i128) < crate::num::mul_i64_wide(
            self.min_trend_strength,
            start_price,
        );
        let max_p = max_in_range(prices, start, n);
        let min_p = min_in_range(prices, start, n);
        proof {
            crate::series::lemma_seq_max_in_range(prices@, start as int, n as int);
        }
        let range: i128 = (max_p as i128) - (min_p as i128);
        let range_small = range * (PPM as i128) < crate::num::mul_i64_wide(self.min_range, sma_long);
        if trend_small || range_small {
            Regime::Sideways
        } else if end_price > sma_long && end_price > start_price {
            Regime::TrendingUp
        } else if end_price < sma_long && end_price < start_price {
            Regime::TrendingDown
        } else {
            Regime::Sideways
        }
    }
}

} // verus!
