//! Minimum and maximum over a contiguous range of a price series.

use vstd::prelude::*;

verus! {

/// Maximum of `s[lo..hi]` (well defined for `lo < hi`).
pub open spec fn seq_max(s: Seq<i64>, lo: int, hi: int) -> int
    decreases hi - lo,
{
    if hi - lo <= 1 {
        s[lo] as int
    } else {
        let rest = seq_max(s, lo, hi - 1);
        if s[hi - 1] > rest {
            s[hi - 1] as int
        } else {
            rest
        }
    }
}

/// Minimum of `s[lo..hi]` (well defined for `lo < hi`).
pub open spec fn seq_min(s: Seq<i64>, lo: int, hi: int) -> int
    decreases hi - lo,
{
    if hi - lo <= 1 {
        s[lo] as int
    } else {
        let rest = seq_min(s, lo, hi - 1);
        if s[hi - 1] < rest {
            s[hi - 1] as int
        } else {
            rest
        }
    }
}

pub proof fn lemma_seq_max_in_range(s: Seq<i64>, lo: int, hi: int)
    requires
        0 <= lo < hi <= s.len(),
    ensures
        i64::MIN <= seq_max(s, lo, hi) <= i64::MAX,
        i64::MIN <= seq_min(s, lo, hi) <= i64::MAX,
        seq_min(s, lo, hi) <= seq_max(s, lo, hi),
    decreases hi - lo,
{
    if hi - lo > 1 {
        lemma_seq_max_in_range(s, lo, hi - 1);
    }
}

/// The largest value in `prices[lo..hi]`.
pub fn max_in_range(prices: &Vec<i64>, lo: usize, hi: usize) -> (r: i64)
    requires
        lo < hi <= prices@.len(),
    ensures
        r == seq_max(prices@, lo as int, hi as int),
{
    let mut r = prices[lo];
    let mut j = lo + 1;
    while j < hi
        invariant
            lo < j <= hi <= prices@.len(),
            r == seq_max(prices@, lo as int, j as int),
        decreases hi - j,
    {
        if prices[j] > r {
            r = prices[j];
        }
        j = j + 1;
    }
    r
}

/// The smallest value in `prices[lo..hi]`.
pub fn min_in_range(prices: &Vec<i64>, lo: usize, hi: usize) -> (r: i64)
    requires
        lo < hi <= prices@.len(),
    ensures
        r == seq_min(prices@, lo as int, hi as int),
{
    let mut r = prices[lo];
    let mut j = lo + 1;
    while j < hi
        invariant
            lo < j <= hi <= prices@.len(),
            r == seq_min(prices@, lo as int, j as int),
        decreases hi - j,
    {
        if prices[j] < r {
            r = prices[j];
        }
        j = j + 1;
    }
    r
}

} // verus!
