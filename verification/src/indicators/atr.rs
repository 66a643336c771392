//! Average-true-range-style volatility estimate over close prices, and a
//! percentile-calibrated volatility floor.

use vstd::prelude::*;
use vstd::arithmetic::div_mod::{
    lemma_div_is_ordered, lemma_div_multiples_vanish, lemma_div_multiples_vanish_fancy,
};
use vstd::math::abs;
use vstd::relations::{sorted_by, total_ordering};
use vstd::seq_lib::lemma_sorted_unique;

use crate::num::{mul_div_floor, PPM};

verus! {

/// Sum of `|s[j] - s[j - 1]|` over `j` in `[lo, hi)`.
pub open spec fn tr_sum(s: Seq<i64>, lo: int, hi: int) -> int
    decreases hi - lo,
{
    if lo >= hi {
        0
    } else {
        tr_sum(s, lo, hi - 1) + abs(s[hi - 1] - s[hi - 2])
    }
}

/// True-range mean over the last `period` intervals of `s`:
/// `TR_i = |close_i - close_{i-1}|`, averaged (floor) over the period.
pub open spec fn spec_atr(s: Seq<i64>, period: int) -> int {
    tr_sum(s, s.len() - period, s.len() as int) / period
}

/// `atr` returns a value exactly when this holds.
pub open spec fn spec_atr_available(s: Seq<i64>, period: int) -> bool {
    &&& 1 <= period
    &&& period + 1 <= s.len()
    &&& spec_atr(s, period) <= i64::MAX
}

/// The volatility estimate as a fraction of the last price, in parts per
/// million (floor).
pub open spec fn spec_atr_ppm(s: Seq<i64>, period: int) -> int {
    spec_atr(s, period) * PPM / (s.last() as int)
}

/// `atr_percent` returns a value exactly when this holds.
pub open spec fn spec_atr_ppm_available(s: Seq<i64>, period: int) -> bool {
    &&& spec_atr_available(s, period)
    &&& s.len() >= 1
    &&& s.last() > 0
    &&& spec_atr_ppm(s, period) <= i64::MAX
}

proof fn lemma_tr_sum_nonneg(s: Seq<i64>, lo: int, hi: int)
    ensures
        0 <= tr_sum(s, lo, hi),
    decreases hi - lo,
{
    if lo < hi {
        lemma_tr_sum_nonneg(s, lo, hi - 1);
    }
}

fn atr_of_prefix(prices: &Vec<i64>, upto: usize, period: usize) -> (r: Option<i64>)
    requires
        upto <= prices@.len(),
    ensures
        r is Some <==> spec_atr_available(prices@.subrange(0, upto as int), period as int),
        r is Some ==> r->0 == spec_atr(prices@.subrange(0, upto as int), period as int),
        r is Some ==> 0 <= r->0,
{
    let ghost pre = prices@.subrange(0, upto as int);
    if period == 0 || upto < period || upto - period < 1 {
        return None;
    }
    let lo = upto - period;
    let mut j = lo;
    let mut sum: u128 = 0;
    while j < upto
        invariant
            1 <= lo <= j <= upto <= prices@.len(),
            period == upto - lo,
            pre == prices@.subrange(0, upto as int),
            sum == tr_sum(pre, lo as int, j as int),
            sum <= (j - lo) * (u64::MAX as int),
        decreases upto - j,
    {
        let a = prices[j];
        let b = prices[j - 1];
        let d: i128 = (a as i128) - (b as i128);
        let t: u128 = if d < 0 {
            (-d) as u128
        } else {
            d as u128
        };
        proof {
            assert(pre[j as int] == prices@[j as int]);
            assert(pre[j - 1] == prices@[j - 1]);
            assert(t == abs(pre[j as int] - pre[j - 1]));
            assert(t <= u64::MAX);
            assert((j - lo) * (u64::MAX as int) + (u64::MAX as int) == (j + 1 - lo) * (
            u64::MAX as int)) by (nonlinear_arith);
        }
        sum = sum + t;
        j = j + 1;
    }
    let q: u128 = sum / (period as u128);
    proof {
        assert(tr_sum(pre, lo as int, upto as int) / (period as int) == q);
    }
    if q <= i64::MAX as u128 {
        Some(q as i64)
    } else {
        None
    }
}

/// Simple volatility estimate using only close prices:
/// `TR_i = |close_i - close_{i-1}|`, `ATR = mean(TR over last period)`.
/// `None` when there is not enough data, the period is zero, or the mean
/// does not fit the price type.
pub fn atr(prices: &Vec<i64>, period: usize) -> (r: Option<i64>)
    ensures
        r is Some <==> spec_atr_available(prices@, period as int),
        r is Some ==> r->0 == spec_atr(prices@, period as int) && 0 <= r->0,
{
    let n = prices.len();
    let r = atr_of_prefix(prices, n, period);
    proof {
        assert(prices@.subrange(0, n as int) == prices@);
    }
    r
}

fn atr_ppm_of_prefix(prices: &Vec<i64>, upto: usize, period: usize) -> (r: Option<i64>)
    requires
        upto <= prices@.len(),
    ensures
        r is Some <==> spec_atr_ppm_available(prices@.subrange(0, upto as int), period as int),
        r is Some ==> r->0 == spec_atr_ppm(prices@.subrange(0, upto as int), period as int),
        r is Some ==> 0 <= r->0,
{
    let ghost pre = prices@.subrange(0, upto as int);
    let atr_val = match atr_of_prefix(prices, upto, period) {
        Some(v) => v,
        None => {
            return None;
        },
    };
    let last = prices[upto - 1];
    if last <= 0 {
        return None;
    }
    proof {
        assert(pre.last() == prices@[upto - 1]);
    }
    mul_div_floor(atr_val, PPM, last)
}

/// The volatility estimate as a fraction of the last price, in parts per
/// million. `None` when `atr` has no value or the last price is not
/// positive.
pub fn atr_percent(prices: &Vec<i64>, period: usize) -> (r: Option<i64>)
    ensures
        r is Some <==> spec_atr_ppm_available(prices@, period as int),
        r is Some ==> r->0 == spec_atr_ppm(prices@, period as int) && 0 <= r->0,
{
    let n = prices.len();
    let r = atr_ppm_of_prefix(prices, n, period);
    proof {
        assert(prices@.subrange(0, n as int) == prices@);
    }
    r
}

pub open spec fn i64_leq(a: i64, b: i64) -> bool {
    a <= b
}

/// The ascending order on `i64`, as a single canonical closure value.
pub open spec fn i64_leq_fn() -> spec_fn(i64, i64) -> bool {
    |a: i64, b: i64| i64_leq(a, b)
}

pub open spec fn spec_sorted(s: Seq<i64>) -> Seq<i64> {
    s.sort_by(i64_leq_fn())
}

proof fn lemma_i64_leq_total()
    ensures
        total_ordering(i64_leq_fn()),
{
}

/// Selection sort into a fresh vector; the result is the (unique) sorted
/// permutation of the input.
#[verifier::loop_isolation(false)]
fn sort_i64(input: &Vec<i64>) -> (out: Vec<i64>)
    ensures
        out@ == spec_sorted(input@),
        out@.len() == input@.len(),
{
    let ghost leq = i64_leq_fn();
    let mut remaining: Vec<i64> = input.clone();
    let mut out: Vec<i64> = Vec::new();
    proof {
        broadcast use vstd::seq_lib::group_to_multiset_ensures;

        assert(out@.to_multiset().add(remaining@.to_multiset()) =~= input@.to_multiset());
    }
    while remaining.len() > 0
        invariant
            out@.to_multiset().add(remaining@.to_multiset()) =~= input@.to_multiset(),
            sorted_by(out@, leq),
            forall|i: int, j: int|
                0 <= i < out@.len() && 0 <= j < remaining@.len() ==> i64_leq(
                    #[trigger] out@[i],
                    #[trigger] remaining@[j],
                ),
        decreases remaining@.len(),
    {
        let mut min_idx: usize = 0;
        let mut k: usize = 1;
        while k < remaining.len()
            invariant
                0 <= min_idx < remaining@.len(),
                k <= remaining@.len(),
                forall|i: int| 0 <= i < k ==> i64_leq(remaining@[min_idx as int], #[trigger] remaining@[i]),
            decreases remaining@.len() - k,
        {
            if remaining[k] < remaining[min_idx] {
                min_idx = k;
            }
            k = k + 1;
        }
        let ghost old_rem = remaining@;
        let ghost old_out = out@;
        proof {
            assert(forall|i: int|
                0 <= i < old_out.len() ==> i64_leq(#[trigger] old_out[i], old_rem[min_idx as int]));
        }
        let m = remaining.remove(min_idx);
        out.push(m);
        proof {
            broadcast use vstd::seq_lib::group_to_multiset_ensures;

            assert(remaining@ == old_rem.remove(min_idx as int));
            assert(remaining@.to_multiset() =~= old_rem.to_multiset().remove(m));
            assert(out@.to_multiset() =~= old_out.to_multiset().insert(m));
            assert(out@.to_multiset().add(remaining@.to_multiset()) =~= input@.to_multiset());
            assert forall|j: int| 0 <= j < remaining@.len() implies i64_leq(
                m,
                #[trigger] remaining@[j],
            ) by {
                if j < min_idx {
                    assert(remaining@[j] == old_rem[j]);
                } else {
                    assert(remaining@[j] == old_rem[j + 1]);
                }
            }
            assert forall|i: int, j: int| 0 <= i <= j < out@.len() implies leq(
                out@[i],
                out@[j],
            ) by {
                if j < out@.len() - 1 {
                    assert(out@[i] == old_out[i] && out@[j] == old_out[j]);
                } else if i < j {
                    assert(out@[i] == old_out[i]);
                    assert(out@[j] == m);
                    assert(i64_leq(old_out[i], old_rem[min_idx as int]));
                }
            }
            assert(sorted_by(out@, leq));
        }
    }
    proof {
        broadcast use vstd::seq_lib::group_to_multiset_ensures;

        assert(remaining@.to_multiset().len() == 0);
        assert(out@.to_multiset().add(remaining@.to_multiset()) =~= out@.to_multiset());
        assert(out@.to_multiset() =~= input@.to_multiset());
        input@.lemma_sort_by_ensures(leq);
        lemma_i64_leq_total();
        lemma_sorted_unique(out@, spec_sorted(input@), leq);
        assert(out@ =~= spec_sorted(input@));
        assert(out@.to_multiset().len() == out@.len());
        assert(input@.to_multiset().len() == input@.len());
    }
    out
}

/// The sequence of volatility fractions observed at every valid trailing
/// window end of `s`, in chronological order.
pub open spec fn spec_atr_ppm_history(s: Seq<i64>, period: int, end: int) -> Seq<i64>
    decreases end,
{
    if period < 1 || end < period + 1 {
        Seq::empty()
    } else {
        let rest = spec_atr_ppm_history(s, period, end - 1);
        let pre = s.subrange(0, end);
        if spec_atr_ppm_available(pre, period) {
            rest.push(spec_atr_ppm(pre, period) as i64)
        } else {
            rest
        }
    }
}

/// The index of the percentile pick: `round((n - 1) * p)` with `p` the
/// clamped fraction in parts per million.
pub open spec fn spec_percentile_index(n: int, percentile_ppm: i64) -> int {
    ((n - 1) * crate::num::spec_clamp_frac(percentile_ppm) + PPM / 2) / (PPM as int)
}

/// A volatility gate: the step is vetoed when the volatility fraction of
/// the price series is below `floor` (in parts per million).
#[derive(Debug, Clone, Copy, PartialEq, Eq, Structural)]
pub struct AtrFilter {
    period: usize,
    floor: i64,
}

impl AtrFilter {
    pub closed spec fn spec_period(&self) -> usize {
        self.period
    }

    pub closed spec fn spec_floor(&self) -> i64 {
        self.floor
    }

    /// Create a filter with a fixed floor (e.g. from configuration).
    pub fn new_fixed(period: usize, floor: i64) -> (r: Self)
        ensures
            r.spec_period() == period,
            r.spec_floor() == floor,
    {
        Self { period, floor }
    }

    /// Calibrate the floor from history: the volatility fraction is taken
    /// at every valid trailing window end, the results are sorted
    /// ascending, and the value at `round((n - 1) * percentile)` is the
    /// floor. `percentile_ppm` is clamped into `[0, PPM]`.
    pub fn from_history(prices: &Vec<i64>, period: usize, percentile_ppm: i64) -> (r: Option<Self>)
        ensures
            r is Some <==> (prices@.len() >= period + 2 && spec_atr_ppm_history(
                prices@,
                period as int,
                prices@.len() as int,
            ).len() > 0),
            r is Some ==> {
                let vals = spec_atr_ppm_history(prices@, period as int, prices@.len() as int);
                &&& r->0.spec_period() == period
                &&& r->0.spec_floor() == spec_sorted(vals)[spec_percentile_index(
                    vals.len() as int,
                    percentile_ppm,
                )]
            },
    {
        let n = prices.len();
        if n < period || n - period < 2 {
            return None;
        }
        let mut vals: Vec<i64> = Vec::new();
        let mut end = period;
        while end < n
            invariant
                period <= end <= n,
                n == prices@.len(),
                vals@ == spec_atr_ppm_history(prices@, period as int, end as int),
            decreases n - end,
        {
            end = end + 1;
            match atr_ppm_of_prefix(prices, end, period) {
                Some(v) => {
                    vals.push(v);
                },
                None => {
                },
            }
        }
        if vals.len() == 0 {
            return None;
        }
        let sorted = sort_i64(&vals);
        let p = crate::num::clamp_frac(percentile_ppm);
        let m = vals.len();
        proof {
            assert(((m - 1) as int) * (p as int) <= (u64::MAX as int) * (PPM as int))
                by (nonlinear_arith)
                requires
                    0 <= (m - 1) as int <= u64::MAX,
                    0 <= p <= PPM,
            ;
        }
        let num: u128 = ((m - 1) as u128) * (p as u128) + (PPM / 2) as u128;
        let idx_wide: u128 = num / (PPM as u128);
        proof {
            assert((m - 1) * (p as int) + (PPM / 2) < (m as int) * (PPM as int))
                by (nonlinear_arith)
                requires
                    1 <= m,
                    0 <= p <= PPM,
            ;
            lemma_div_is_ordered(
                (m - 1) * (p as int) + (PPM / 2),
                (m as int) * (PPM as int) - 1,
                PPM as int,
            );
            lemma_div_multiples_vanish_fancy(m as int - 1, PPM as int - 1, PPM as int);
            assert((PPM as int) * (m as int - 1) + (PPM as int - 1) == (m as int) * (
            PPM as int) - 1) by (nonlinear_arith);
        }
        let idx = idx_wide as usize;
        let floor = sorted[idx];
        Some(Self { period, floor })
    }

    /// The volatility fraction at the end of `prices` using this filter's
    /// period, in parts per million.
    pub fn atr_percent(&self, prices: &Vec<i64>) -> (r: Option<i64>)
        ensures
            r is Some <==> spec_atr_ppm_available(prices@, self.spec_period() as int),
            r is Some ==> r->0 == spec_atr_ppm(prices@, self.spec_period() as int) && 0 <= r->0,
    {
        atr_percent(prices, self.period)
    }

    pub fn period(&self) -> (r: usize)
        ensures
            r == self.spec_period(),
    {
        self.period
    }

    pub fn floor(&self) -> (r: i64)
        ensures
            r == self.spec_floor(),
    {
        self.floor
    }
}

} // verus!
