//! Simple moving averages over the trailing window of a price series.

use vstd::prelude::*;
use vstd::arithmetic::div_mod::{lemma_div_is_ordered, lemma_div_multiples_vanish};

verus! {

/// Current and previous-step short/long simple moving averages.
#[derive(Clone, Copy, Debug, PartialEq, Eq, Structural)]
pub struct Smas {
    pub sma_short: i64,
    pub sma_long: i64,
    pub prev_sma_short: i64,
    pub prev_sma_long: i64,
}

/// The pair of window lengths a strategy computes its averages over.
#[derive(Clone, Copy, Debug, PartialEq, Eq, Structural)]
pub struct SmaConfig {
    pub short_window: usize,
    pub long_window: usize,
}

impl SmaConfig {
    pub fn sma_20_50() -> (r: Self)
        ensures
            r.short_window == 20,
            r.long_window == 50,
    {
        Self { short_window: 20, long_window: 50 }
    }
}

pub open spec fn sum_seq(s: Seq<i64>) -> int
    decreases s.len(),
{
    if s.len() == 0 {
        0
    } else {
        sum_seq(s.drop_last()) + s.last()
    }
}

/// The simple moving average over the last `w` elements of `s`:
/// the floor of their mean.
pub open spec fn spec_sma(s: Seq<i64>, w: int) -> int {
    sum_seq(s.subrange(s.len() - w, s.len() as int)) / w
}

/// Whether `compute_smas` can produce all four averages from `n` prices.
pub open spec fn spec_smas_available(n: int, cfg: SmaConfig) -> bool {
    &&& n >= cfg.long_window + 1
    &&& 1 <= cfg.short_window
    &&& cfg.short_window <= n - 1
    &&& 1 <= cfg.long_window
}

/// Law: with a short window of at least one and a long window at least
/// as large, the four averages exist exactly when at least
/// `long_window + 1` prices exist.
pub proof fn lemma_smas_available_iff_enough_data(n: int, cfg: SmaConfig)
    requires
        1 <= cfg.short_window <= cfg.long_window,
    ensures
        spec_smas_available(n, cfg) <==> n >= cfg.long_window + 1,
{
}

proof fn lemma_sum_seq_bounds(s: Seq<i64>)
    ensures
        s.len() * (i64::MIN as int) <= sum_seq(s) <= s.len() * (i64::MAX as int),
    decreases s.len(),
{
    if s.len() > 0 {
        lemma_sum_seq_bounds(s.drop_last());
        assert((s.len() - 1) * (i64::MIN as int) + (i64::MIN as int) == s.len() * (i64::MIN as int))
            by (nonlinear_arith);
        assert((s.len() - 1) * (i64::MAX as int) + (i64::MAX as int) == s.len() * (i64::MAX as int))
            by (nonlinear_arith);
    }
}

/// The floor of the mean of `w` `i64` values lies between `i64::MIN` and
/// `i64::MAX`.
proof fn lemma_sma_in_range(s: Seq<i64>, w: int)
    requires
        1 <= w <= s.len(),
    ensures
        i64::MIN <= spec_sma(s, w) <= i64::MAX,
{
    let win = s.subrange(s.len() - w, s.len() as int);
    lemma_sum_seq_bounds(win);
    assert(win.len() == w);
    lemma_div_is_ordered(w * (i64::MIN as int), sum_seq(win), w);
    lemma_div_is_ordered(sum_seq(win), w * (i64::MAX as int), w);
    lemma_div_multiples_vanish(i64::MIN as int, w);
    lemma_div_multiples_vanish(i64::MAX as int, w);
    assert(w * (i64::MIN as int) == win.len() * (i64::MIN as int));
    assert(w * (i64::MAX as int) == win.len() * (i64::MAX as int));
}

/// Moving average over `prices[..upto]`, so that the "previous step"
/// averages can be taken from the same vector.
fn sma_of_prefix(prices: &Vec<i64>, upto: usize, window: usize) -> (r: Option<i64>)
    requires
        upto <= prices@.len(),
    ensures
        r is Some <==> 1 <= window <= upto,
        r is Some ==> r->0 == spec_sma(prices@.subrange(0, upto as int), window as int),
{
    if window == 0 || upto < window {
        return None;
    }
    let ghost pre = prices@.subrange(0, upto as int);
    let ghost win = pre.subrange(upto - window, upto as int);
    let start = upto - window;
    let mut i = start;
    let mut sum: i128 = 0;
    while i < upto
        invariant
            start <= i <= upto <= prices@.len(),
            window == upto - start,
            1 <= window,
            win == pre.subrange(start as int, upto as int),
            pre == prices@.subrange(0, upto as int),
            sum == sum_seq(prices@.subrange(start as int, i as int)),
            (i - start) * (i64::MIN as int) <= sum <= (i - start) * (i64::MAX as int),
        decreases upto - i,
    {
        let ghost prev = prices@.subrange(start as int, i as int);
        let x = prices[i];
        proof {
            assert(prices@.subrange(start as int, i + 1).drop_last() == prev);
            assert(prices@.subrange(start as int, i + 1).last() == prices@[i as int]);
            assert((i - start) * (i64::MIN as int) + (i64::MIN as int)
                == (i + 1 - start) * (i64::MIN as int)) by (nonlinear_arith);
            assert((i - start) * (i64::MAX as int) + (i64::MAX as int)
                == (i + 1 - start) * (i64::MAX as int)) by (nonlinear_arith);
        }
        sum = sum + (x as i128);
        i = i + 1;
    }
    proof {
        assert(prices@.subrange(start as int, upto as int) == win);
        lemma_sma_in_range(pre, window as int);
        assert(pre.len() == upto);
        lemma_sum_seq_bounds(win);
        assert(win.len() == window);
        lemma_div_is_ordered((window as int) * (i64::MIN as int), sum_seq(win), window as int);
        lemma_div_is_ordered(sum_seq(win), (window as int) * (i64::MAX as int), window as int);
        lemma_div_multiples_vanish(i64::MIN as int, window as int);
        lemma_div_multiples_vanish(i64::MAX as int, window as int);
    }
    let q = sum.checked_div_euclid(window as i128).unwrap();
    Some(q as i64)
}

/// Compute the simple moving average over the last `window` values.
/// Returns `None` if there isn't enough data or the window is zero.
pub fn simple_moving_average(prices: &Vec<i64>, window: usize) -> (r: Option<i64>)
    ensures
        r is Some <==> 1 <= window <= prices@.len(),
        r is Some ==> r->0 == spec_sma(prices@, window as int),
{
    let n = prices.len();
    let r = sma_of_prefix(prices, n, window);
    proof {
        assert(prices@.subrange(0, n as int) == prices@);
    }
    r
}

/// Compute SMA(short), SMA(long) and their previous-step versions.
/// Returns `None` if there is not enough data (at least `long_window + 1`
/// prices are needed, the extra one for the previous step).
pub fn compute_smas(prices: &Vec<i64>, cfg: SmaConfig) -> (r: Option<Smas>)
    ensures
        r is Some <==> spec_smas_available(prices@.len() as int, cfg),
        r is Some ==> {
            let s = r->0;
            &&& s.sma_short == spec_sma(prices@, cfg.short_window as int)
            &&& s.sma_long == spec_sma(prices@, cfg.long_window as int)
            &&& s.prev_sma_short == spec_sma(
                prices@.subrange(0, prices@.len() - 1),
                cfg.short_window as int,
            )
            &&& s.prev_sma_long == spec_sma(
                prices@.subrange(0, prices@.len() - 1),
                cfg.long_window as int,
            )
        },
{
    let n = prices.len();
    if n < cfg.long_window || n - cfg.long_window < 1 {
        return None;
    }
    let sma_short = match simple_moving_average(prices, cfg.short_window) {
        Some(v) => v,
        None => {
            return None;
        },
    };
    let sma_long = match simple_moving_average(prices, cfg.long_window) {
        Some(v) => v,
        None => {
            return None;
        },
    };
    let prev_sma_short = match sma_of_prefix(prices, n - 1, cfg.short_window) {
        Some(v) => v,
        None => {
            return None;
        },
    };
    let prev_sma_long = match sma_of_prefix(prices, n - 1, cfg.long_window) {
        Some(v) => v,
        None => {
            return None;
        },
    };
    Some(Smas { sma_short, sma_long, prev_sma_short, prev_sma_long })
}

} // verus!
