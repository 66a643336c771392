//! Pattern detectors: breakout/breakdown against a trailing reference
//! window and pullback-and-bounce/reject against a moving average.
//!
//! Every detector looks only at a bounded trailing window and explicitly
//! excludes the most recent value from the reference window, to avoid
//! lookahead bias. The one-part-per-million epsilon keeps an exact tie
//! from counting as a breakout or breakdown.

use vstd::prelude::*;

use crate::num::{mul_price_factor, PPM};
use crate::series::{max_in_range, min_in_range, seq_max, seq_min};

verus! {

/// A breakout above the recent high: with lookback `k`, the reference
/// window holds the `k` candles before the current one, and the last
/// price must exceed its maximum by more than one part per million.
/// A zero lookback has no reference window and never fires.
pub open spec fn spec_breakout_above(s: Seq<i64>, lookback: int) -> bool {
    let n = s.len() as int;
    &&& lookback >= 1
    &&& n >= lookback + 1
    &&& (s[n - 1] as int) * PPM > seq_max(s, n - 1 - lookback, n - 1) * (PPM + 1)
}

/// A breakdown below the recent low, the mirror image of
/// [`spec_breakout_above`].
pub open spec fn spec_breakdown_below(s: Seq<i64>, lookback: int) -> bool {
    let n = s.len() as int;
    &&& lookback >= 1
    &&& n >= lookback + 1
    &&& (s[n - 1] as int) * PPM < seq_min(s, n - 1 - lookback, n - 1) * (PPM - 1)
}

/// Pullback to the short average and bounce, over the last three closes
/// `p2, p1, p0`: `p2` above the average, `p1` a pullback to within
/// `tol` above it (inclusive boundary), `p0` back above both the average
/// and `p1`.
pub open spec fn spec_pullback_bounce(s: Seq<i64>, sma_short: i64, tol: i64) -> bool {
    let n = s.len() as int;
    &&& n >= 3
    &&& (s[n - 3] as int) > sma_short
    &&& (s[n - 2] as int) < s[n - 3]
    &&& (s[n - 2] as int) * PPM <= (sma_short as int) * (PPM + tol)
    &&& (s[n - 1] as int) > sma_short
    &&& (s[n - 1] as int) > s[n - 2]
}

/// Pullback up to the short average and rejection down, the mirror image
/// of [`spec_pullback_bounce`] with the tolerance applied below the
/// average.
pub open spec fn spec_pullback_reject(s: Seq<i64>, sma_short: i64, tol: i64) -> bool {
    let n = s.len() as int;
    &&& n >= 3
    &&& (s[n - 3] as int) < sma_short
    &&& (s[n - 2] as int) > s[n - 3]
    &&& (s[n - 2] as int) * PPM >= (sma_short as int) * (PPM - tol)
    &&& (s[n - 1] as int) < sma_short
    &&& (s[n - 1] as int) < s[n - 2]
}

/// Check for a breakout above the recent high. The reference window is
/// `prices[n-1-lookback .. n-1]`: the current (last) sample is never part
/// of it.
pub fn is_breakout_above_recent_high(prices: &Vec<i64>, lookback: usize) -> (r: bool)
    ensures
        r == spec_breakout_above(prices@, lookback as int),
{
    let n = prices.len();
    if lookback == 0 || n < lookback || n - lookback < 1 {
        return false;
    }
    let last_idx = n - 1;
    let start = last_idx - lookback;
    let recent_high = max_in_range(prices, start, last_idx);
    proof {
        crate::series::lemma_seq_max_in_range(prices@, start as int, last_idx as int);
    }
    let last_price = prices[last_idx];
    mul_price_factor(last_price, PPM as i128) > mul_price_factor(
        recent_high,
        (PPM as i128) + 1,
    )
}

/// Check for a breakdown below the recent low. The reference window is
/// `prices[n-1-lookback .. n-1]`: the current (last) sample is never part
/// of it.
pub fn is_breakdown_below_recent_low(prices: &Vec<i64>, lookback: usize) -> (r: bool)
    ensures
        r == spec_breakdown_below(prices@, lookback as int),
{
    let n = prices.len();
    if lookback == 0 || n < lookback || n - lookback < 1 {
        return false;
    }
    let last_idx = n - 1;
    let start = last_idx - lookback;
    let recent_low = min_in_range(prices, start, last_idx);
    proof {
        crate::series::lemma_seq_max_in_range(prices@, start as int, last_idx as int);
    }
    let last_price = prices[last_idx];
    mul_price_factor(last_price, PPM as i128) < mul_price_factor(recent_low, (PPM as i128) - 1)
}

/// Check for a pullback to SMA(short) and bounce over the last three
/// closes; `tol` parts per million above the average still counts as
/// touching it.
pub fn is_pullback_to_sma_short_and_bounce(prices: &Vec<i64>, sma_short: i64, tol: i64) -> (r:
    bool)
    ensures
        r == spec_pullback_bounce(prices@, sma_short, tol),
{
    let n = prices.len();
    if n < 3 {
        return false;
    }
    let p2 = prices[n - 3];
    let p1 = prices[n - 2];
    let p0 = prices[n - 1];
    let was_above = p2 > sma_short;
    let pulled_back_near = p1 < p2 && mul_price_factor(p1, PPM as i128) <= mul_price_factor(
        sma_short,
        (PPM as i128) + (tol as i128),
    );
    let bounced = p0 > sma_short && p0 > p1;
    was_above && pulled_back_near && bounced
}

/// Check for a pullback up to SMA(short) and rejection down over the last
/// three closes; `tol` parts per million below the average still counts
/// as touching it.
pub fn is_pullback_to_sma_short_and_reject_down(prices: &Vec<i64>, sma_short: i64, tol: i64) -> (r:
    bool)
    ensures
        r == spec_pullback_reject(prices@, sma_short, tol),
{
    let n = prices.len();
    if n < 3 {
        return false;
    }
    let p2 = prices[n - 3];
    let p1 = prices[n - 2];
    let p0 = prices[n - 1];
    let was_below = p2 < sma_short;
    let pulled_back_near = p1 > p2 && mul_price_factor(p1, PPM as i128) >= mul_price_factor(
        sma_short,
        (PPM as i128) - (tol as i128),
    );
    let rejected = p0 < sma_short && p0 < p1;
    was_below && pulled_back_near && rejected
}

} // verus!
