//! Shared backtest pieces: the trade signal, the drawdown metric, the
//! parameter-space generation and the sweep reduction.

use vstd::prelude::*;
use vstd::math::max;

use crate::data::Sample;
use crate::indicators::atr::AtrFilter;
use crate::indicators::regime::RegimeFilter;
use crate::indicators::sma::SmaConfig;
use crate::num::PPM;
use crate::signal::{BreakoutConfig, FilterConfig, PullbackConfig, StrategyConfig};

verus! {

/// A suggestion that changes the portfolio.
#[derive(Debug, Clone, Copy, PartialEq, Eq, Structural)]
pub enum Signal {
    Buy,
    Sell,
}

pub open spec fn spec_suggestion_to_signal(s: Seq<char>) -> Option<Signal> {
    if s == "BUY"@ {
        Some(Signal::Buy)
    } else if s == "SELL"@ {
        Some(Signal::Sell)
    } else {
        None
    }
}

/// Map a suggestion string back to a signal; anything but BUY or SELL is
/// a hold.
pub fn suggestion_to_signal(s: &str) -> (r: Option<Signal>)
    ensures
        r == spec_suggestion_to_signal(s@),
{
    let owned = s.to_owned();
    if owned == String::from_str("BUY") {
        Some(Signal::Buy)
    } else if owned == String::from_str("SELL") {
        Some(Signal::Sell)
    } else {
        None
    }
}

impl RegimeFilter {
    /// The regime filter the sweep binaries use.
    pub fn backtest() -> (r: Self)
        ensures
            r == RegimeFilter::spec_backtest(),
    {
        Self::default()
    }

    pub open spec fn spec_backtest() -> Self {
        RegimeFilter {
            long_window: 200,
            slope_window: 48,
            min_trend_strength: 20_000,
            min_range: 30_000,
        }
    }
}

impl AtrFilter {
    /// The volatility filter the sweep binaries use: a 5-candle window
    /// with a 0.3% floor.
    pub fn backtest() -> (r: Self)
        ensures
            r.spec_period() == 5,
            r.spec_floor() == 3000,
    {
        Self::new_fixed(5, 3000)
    }
}

// ~~~~ Max drawdown ~~~~

/// The running equity peak over the first `i` points of the curve.
pub open spec fn spec_peak(curve: Seq<(i64, i64)>, i: int) -> int
    decreases i,
{
    if i <= 1 {
        curve[0].1 as int
    } else {
        max(spec_peak(curve, i - 1), curve[i - 1].1 as int)
    }
}

/// The relative decline at point `i` from the highest equity seen up to
/// and including it, in parts per million.
pub open spec fn spec_drawdown_at(curve: Seq<(i64, i64)>, i: int) -> int {
    let peak = spec_peak(curve, i + 1);
    if peak > 0 {
        (peak - curve[i].1) * PPM / peak
    } else {
        0
    }
}

/// The largest peak-to-current relative equity decline observed over the
/// first `n` points, in parts per million.
pub open spec fn spec_max_drawdown(curve: Seq<(i64, i64)>, n: int) -> int
    decreases n,
{
    if n <= 0 {
        0
    } else {
        max(spec_max_drawdown(curve, n - 1), spec_drawdown_at(curve, n - 1))
    }
}

proof fn lemma_peak_at_least(curve: Seq<(i64, i64)>, i: int, j: int)
    requires
        0 <= j < i,
        1 <= i,
    ensures
        spec_peak(curve, i) >= curve[j].1,
        spec_peak(curve, i) >= spec_peak(curve, j + 1),
    decreases i,
{
    if j + 1 < i {
        lemma_peak_at_least(curve, i - 1, j);
    }
}

/// Compute the max drawdown of an equity curve, in parts per million.
/// An empty curve, and one whose peak never goes above zero, have zero
/// drawdown.
pub fn compute_max_drawdown(curve: &Vec<(i64, i64)>) -> (r: i128)
    ensures
        r == spec_max_drawdown(curve@, curve@.len() as int),
        r >= 0,
{
    if curve.len() == 0 {
        return 0;
    }
    let mut peak: i64 = curve[0].1;
    let mut max_dd: i128 = 0;
    let mut i: usize = 0;
    while i < curve.len()
        invariant
            0 <= i <= curve@.len(),
            curve@.len() >= 1,
            peak as int == spec_peak(curve@, if i == 0 { 1int } else { i as int }),
            max_dd == spec_max_drawdown(curve@, i as int),
            max_dd >= 0,
        decreases curve@.len() - i,
    {
        let equity = curve[i].1;
        if equity > peak {
            peak = equity;
        }
        proof {
            assert(peak as int == spec_peak(curve@, i + 1));
        }
        if peak > 0 {
            let num: u128 = ((peak as i128 - equity as i128) * (PPM as i128)) as u128;
            let dd: u128 = num / (peak as u128);
            proof {
                lemma_peak_at_least(curve@, i + 1, i as int);
                assert(num == (peak - curve@[i as int].1) * PPM);
                assert(dd == spec_drawdown_at(curve@, i as int));
            }
            if (dd as i128) > max_dd {
                max_dd = dd as i128;
            }
        } else {
            proof {
                assert(spec_drawdown_at(curve@, i as int) == 0);
            }
        }
        i = i + 1;
    }
    max_dd
}

// ~~~~ The laws of the drawdown metric ~~~~

proof fn lemma_peak_agrees(curve: Seq<(i64, i64)>, ext: Seq<(i64, i64)>, i: int)
    requires
        1 <= i <= curve.len(),
        curve.len() >= 1,
    ensures
        spec_peak(curve + ext, i) == spec_peak(curve, i),
    decreases i,
{
    if i > 1 {
        lemma_peak_agrees(curve, ext, i - 1);
    }
    assert((curve + ext)[0] == curve[0]);
    if i > 1 {
        assert((curve + ext)[i - 1] == curve[i - 1]);
    }
}

proof fn lemma_max_drawdown_agrees(curve: Seq<(i64, i64)>, ext: Seq<(i64, i64)>, n: int)
    requires
        0 <= n <= curve.len(),
    ensures
        spec_max_drawdown(curve + ext, n) == spec_max_drawdown(curve, n),
    decreases n,
{
    if n > 0 {
        lemma_max_drawdown_agrees(curve, ext, n - 1);
        lemma_peak_agrees(curve, ext, n);
        assert((curve + ext)[n - 1] == curve[n - 1]);
    }
}

proof fn lemma_max_drawdown_prefix_mono(curve: Seq<(i64, i64)>, n1: int, n2: int)
    requires
        n1 <= n2,
    ensures
        spec_max_drawdown(curve, n1) <= spec_max_drawdown(curve, n2),
    decreases n2 - n1,
{
    if n1 < n2 {
        lemma_max_drawdown_prefix_mono(curve, n1, n2 - 1);
    }
}

/// As an equity curve grows, its max drawdown never decreases.
pub proof fn lemma_max_drawdown_monotonic(curve: Seq<(i64, i64)>, ext: Seq<(i64, i64)>)
    ensures
        spec_max_drawdown(curve, curve.len() as int) <= spec_max_drawdown(
            curve + ext,
            (curve + ext).len() as int,
        ),
{
    lemma_max_drawdown_agrees(curve, ext, curve.len() as int);
    lemma_max_drawdown_prefix_mono(curve + ext, curve.len() as int, (curve + ext).len() as int);
}

proof fn lemma_peak_of_nondecreasing(curve: Seq<(i64, i64)>, i: int)
    requires
        1 <= i <= curve.len(),
        forall|a: int, b: int|
            0 <= a <= b < curve.len() ==> (#[trigger] curve[a]).1 <= (#[trigger] curve[b]).1,
    ensures
        spec_peak(curve, i) == curve[i - 1].1,
    decreases i,
{
    if i > 1 {
        lemma_peak_of_nondecreasing(curve, i - 1);
        assert(curve[i - 2].1 <= curve[i - 1].1);
    }
}

/// A strictly non-decreasing equity curve has zero max drawdown.
pub proof fn lemma_max_drawdown_zero_for_nondecreasing(curve: Seq<(i64, i64)>, n: int)
    requires
        0 <= n <= curve.len(),
        forall|a: int, b: int|
            0 <= a <= b < curve.len() ==> (#[trigger] curve[a]).1 <= (#[trigger] curve[b]).1,
    ensures
        spec_max_drawdown(curve, n) == 0,
    decreases n,
{
    if n > 0 {
        lemma_max_drawdown_zero_for_nondecreasing(curve, n - 1);
        lemma_peak_of_nondecreasing(curve, n);
        let peak = spec_peak(curve, n);
        if peak > 0 {
            assert(peak - curve[n - 1].1 == 0);
            assert((peak - curve[n - 1].1) * PPM == 0) by (nonlinear_arith)
                requires
                    peak - curve[n - 1].1 == 0,
            ;
            assert(spec_drawdown_at(curve, n - 1) == 0);
        }
    }
}

// ~~~~ Parameter-space generation ~~~~

/// One sweep job's input: a sizing fraction (parts per million) paired
/// with a strategy.
pub struct Candidate {
    pub buy_sell_fraction: i64,
    pub strategy: StrategyConfig,
}

/// The `(bounce, reject)` pairs from a stepped range with
/// `reject > bounce`, both at most `max`.
pub open spec fn spec_reject_range(bounce: i64, reject: int, max: int, step: int) -> Seq<(i64, i64)>
    decreases vstd::math::max(max - reject + 1, 0),
{
    if step < 1 || reject > max || reject > i64::MAX || reject < i64::MIN {
        Seq::empty()
    } else {
        seq![(bounce, reject as i64)] + spec_reject_range(bounce, reject + step, max, step)
    }
}

pub open spec fn spec_pullback_pairs(bounce: int, max: int, step: int) -> Seq<(i64, i64)>
    decreases vstd::math::max(max - bounce + 1, 0),
{
    if step < 1 || bounce > max || bounce > i64::MAX || bounce < i64::MIN {
        Seq::empty()
    } else {
        spec_reject_range(bounce as i64, bounce + step, max, step) + spec_pullback_pairs(
            bounce + step,
            max,
            step,
        )
    }
}

/// Generate `(bounce, reject)` tolerance pairs by a nested stepped range
/// with `reject > bounce`. The step must be positive (in parts per
/// million), and the range must stay clear of the integer limits.
pub fn generate_pullback_pairs(min: i64, max: i64, step: i64) -> (r: Vec<(i64, i64)>)
    requires
        step >= 1,
        max <= i64::MAX - step,
        min >= i64::MIN + step,
    ensures
        r@ == spec_pullback_pairs(min as int, max as int, step as int),
{
    let mut pairs: Vec<(i64, i64)> = Vec::new();
    let ghost total = spec_pullback_pairs(min as int, max as int, step as int);
    let mut bounce = min;
    while bounce <= max
        invariant
            step >= 1,
            max <= i64::MAX - step,
            total == pairs@ + spec_pullback_pairs(bounce as int, max as int, step as int),
        decreases vstd::math::max(max - bounce + step, 0),
    {
        let mut reject = bounce + step;
        while reject <= max
            invariant
                step >= 1,
                max <= i64::MAX - step,
                bounce <= max,
                total == pairs@ + spec_reject_range(bounce, reject as int, max as int, step as int)
                    + spec_pullback_pairs(bounce + step, max as int, step as int),
            decreases vstd::math::max(max - reject + step, 0),
        {
            pairs.push((bounce, reject));
            reject = reject + step;
        }
        bounce = bounce + step;
    }
    proof {
        assert(total =~= pairs@);
    }
    pairs
}

/// A strategy with the given sub-configurations and the backtest's fixed
/// gates: price confirmation and trend filter on, bias-only always on,
/// no volatility or regime filter.
pub open spec fn spec_strat_of(
    sma: SmaConfig,
    breakouts: Option<BreakoutConfig>,
    pullbacks: Option<PullbackConfig>,
    crossovers: bool,
) -> StrategyConfig {
    StrategyConfig {
        breakouts,
        pullbacks,
        enable_crossovers: crossovers,
        enable_bias_only: true,
        sma_config: sma,
        filters: FilterConfig {
            require_trend_filter: true,
            require_price_confirmation: true,
            atr: None,
            regime: None,
        },
    }
}

pub open spec fn spec_both_pairs(
    sma: SmaConfig,
    crossovers: bool,
    lookback: int,
    pairs: Seq<(i64, i64)>,
    j: int,
) -> Seq<StrategyConfig>
    decreases pairs.len() - j,
{
    if j >= pairs.len() || j < 0 {
        Seq::empty()
    } else {
        seq![
            spec_strat_of(
                sma,
                Some(BreakoutConfig { breakout_lookback: lookback as usize }),
                Some(
                    PullbackConfig {
                        bounce_tolerance_ppm: pairs[j].0,
                        reject_tolerance_ppm: pairs[j].1,
                    },
                ),
                crossovers,
            ),
        ] + spec_both_pairs(sma, crossovers, lookback, pairs, j + 1)
    }
}

pub open spec fn spec_both_lookbacks(
    sma: SmaConfig,
    crossovers: bool,
    lookback: int,
    max_lookback: int,
    pairs: Seq<(i64, i64)>,
) -> Seq<StrategyConfig>
    decreases max_lookback - lookback + 1,
{
    if lookback > max_lookback || lookback < 0 {
        Seq::empty()
    } else {
        spec_both_pairs(sma, crossovers, lookback, pairs, 0) + spec_both_lookbacks(
            sma,
            crossovers,
            lookback + 1,
            max_lookback,
            pairs,
        )
    }
}

pub open spec fn spec_breakout_lookbacks(
    sma: SmaConfig,
    crossovers: bool,
    lookback: int,
    max_lookback: int,
) -> Seq<StrategyConfig>
    decreases max_lookback - lookback + 1,
{
    if lookback > max_lookback || lookback < 0 {
        Seq::empty()
    } else {
        seq![
            spec_strat_of(
                sma,
                Some(BreakoutConfig { breakout_lookback: lookback as usize }),
                None,
                crossovers,
            ),
        ] + spec_breakout_lookbacks(sma, crossovers, lookback + 1, max_lookback)
    }
}

pub open spec fn spec_pullback_only(
    sma: SmaConfig,
    crossovers: bool,
    pairs: Seq<(i64, i64)>,
    j: int,
) -> Seq<StrategyConfig>
    decreases pairs.len() - j,
{
    if j >= pairs.len() || j < 0 {
        Seq::empty()
    } else {
        seq![
            spec_strat_of(
                sma,
                None,
                Some(
                    PullbackConfig {
                        bounce_tolerance_ppm: pairs[j].0,
                        reject_tolerance_ppm: pairs[j].1,
                    },
                ),
                crossovers,
            ),
        ] + spec_pullback_only(sma, crossovers, pairs, j + 1)
    }
}

/// The strategies one toggle mask contributes for one window pair.
/// Bit 0 enables breakouts, bit 1 pullbacks, bit 2 crossovers; bias-only
/// is always on, and the all-disabled combination is skipped.
pub open spec fn spec_mask_strategies(
    sma: SmaConfig,
    mask: int,
    min_lookback: int,
    max_lookback: int,
    pairs: Seq<(i64, i64)>,
) -> Seq<StrategyConfig> {
    let enable_breakouts = mask % 2 == 1;
    let enable_pullbacks = (mask / 2) % 2 == 1;
    let enable_crossovers = (mask / 4) % 2 == 1;
    if enable_breakouts && enable_pullbacks {
        spec_both_lookbacks(sma, enable_crossovers, min_lookback, max_lookback, pairs)
    } else if enable_breakouts {
        spec_breakout_lookbacks(sma, enable_crossovers, min_lookback, max_lookback)
    } else if enable_pullbacks {
        spec_pullback_only(sma, enable_crossovers, pairs, 0)
    } else if !enable_crossovers {
        Seq::empty()
    } else {
        seq![spec_strat_of(sma, None, None, enable_crossovers)]
    }
}

pub open spec fn spec_masks_strategies(
    sma: SmaConfig,
    mask: int,
    min_lookback: int,
    max_lookback: int,
    pairs: Seq<(i64, i64)>,
) -> Seq<StrategyConfig>
    decreases 16 - mask,
{
    if mask >= 16 || mask < 0 {
        Seq::empty()
    } else {
        spec_mask_strategies(sma, mask, min_lookback, max_lookback, pairs)
            + spec_masks_strategies(sma, mask + 1, min_lookback, max_lookback, pairs)
    }
}

/// The fixed short/long window grid, filtered to `long >= 2 * short`.
pub open spec fn spec_sma_row(short: usize, longs: Seq<usize>, j: int) -> Seq<SmaConfig>
    decreases longs.len() - j,
{
    if j >= longs.len() || j < 0 {
        Seq::empty()
    } else {
        let rest = spec_sma_row(short, longs, j + 1);
        if longs[j] >= short * 2 {
            seq![SmaConfig { short_window: short, long_window: longs[j] }] + rest
        } else {
            rest
        }
    }
}

pub open spec fn spec_sma_grid(shorts: Seq<usize>, longs: Seq<usize>, i: int) -> Seq<SmaConfig>
    decreases shorts.len() - i,
{
    if i >= shorts.len() || i < 0 {
        Seq::empty()
    } else {
        spec_sma_row(shorts[i], longs, 0) + spec_sma_grid(shorts, longs, i + 1)
    }
}

pub open spec fn spec_short_candidates() -> Seq<usize> {
    seq![10usize, 20usize, 30usize]
}

pub open spec fn spec_long_candidates() -> Seq<usize> {
    seq![40usize, 60usize, 80usize, 100usize]
}

pub open spec fn spec_strategies_for_smas(
    smas: Seq<SmaConfig>,
    i: int,
    min_lookback: int,
    max_lookback: int,
    pairs: Seq<(i64, i64)>,
) -> Seq<StrategyConfig>
    decreases smas.len() - i,
{
    if i >= smas.len() || i < 0 {
        Seq::empty()
    } else {
        spec_masks_strategies(smas[i], 0, min_lookback, max_lookback, pairs)
            + spec_strategies_for_smas(smas, i + 1, min_lookback, max_lookback, pairs)
    }
}

/// The whole strategy space: every window pair of the grid, crossed with
/// every toggle mask and its sub-ranges.
pub open spec fn spec_generate_strategies(
    min_lookback: int,
    max_lookback: int,
    pairs: Seq<(i64, i64)>,
) -> Seq<StrategyConfig> {
    spec_strategies_for_smas(
        spec_sma_grid(spec_short_candidates(), spec_long_candidates(), 0),
        0,
        min_lookback,
        max_lookback,
        pairs,
    )
}

/// Generate the Cartesian strategy space over the fixed window grid, the
/// rule toggle masks, the breakout lookback range and the pullback
/// tolerance pairs.
#[verifier::rlimit(100)]
#[verifier::spinoff_prover]
pub fn generate_strategies(
    min_lookback: usize,
    max_lookback: usize,
    pullback_pairs: Vec<(i64, i64)>,
) -> (r: Vec<StrategyConfig>)
    requires
        max_lookback < usize::MAX,
    ensures
        r@ == spec_generate_strategies(min_lookback as int, max_lookback as int, pullback_pairs@),
{
    let ghost pairs = pullback_pairs@;
    let mut strategies: Vec<StrategyConfig> = Vec::new();

    let shorts: Vec<usize> = vec![10, 20, 30];
    let longs: Vec<usize> = vec![40, 60, 80, 100];
    proof {
        assert(shorts@ =~= spec_short_candidates());
        assert(longs@ =~= spec_long_candidates());
    }

    let mut sma_configs: Vec<SmaConfig> = Vec::new();
    let mut i: usize = 0;
    while i < shorts.len()
        invariant
            0 <= i <= shorts@.len(),
            shorts@ == spec_short_candidates(),
            longs@ == spec_long_candidates(),
            spec_sma_grid(shorts@, longs@, 0) == sma_configs@ + spec_sma_grid(
                shorts@,
                longs@,
                i as int,
            ),
        decreases shorts@.len() - i,
    {
        let short = shorts[i];
        let mut j: usize = 0;
        while j < longs.len()
            invariant
                0 <= j <= longs@.len(),
                i < shorts@.len(),
                short == shorts@[i as int],
                shorts@ == spec_short_candidates(),
                longs@ == spec_long_candidates(),
                short <= 30,
                spec_sma_grid(shorts@, longs@, 0) == sma_configs@ + spec_sma_row(
                    short,
                    longs@,
                    j as int,
                ) + spec_sma_grid(shorts@, longs@, i + 1),
            decreases longs@.len() - j,
        {
            let long = longs[j];
            if long >= short * 2 {
                sma_configs.push(SmaConfig { short_window: short, long_window: long });
            }
            j = j + 1;
        }
        i = i + 1;
    }

    let ghost grid = spec_sma_grid(spec_short_candidates(), spec_long_candidates(), 0);
    proof {
        assert(sma_configs@ =~= grid);
    }

    let mut si: usize = 0;
    while si < sma_configs.len()
        invariant
            0 <= si <= sma_configs@.len(),
            sma_configs@ == grid,
            max_lookback < usize::MAX,
            spec_strategies_for_smas(grid, 0, min_lookback as int, max_lookback as int, pairs)
                == strategies@ + spec_strategies_for_smas(
                grid,
                si as int,
                min_lookback as int,
                max_lookback as int,
                pairs,
            ),
            pairs == pullback_pairs@,
        decreases sma_configs@.len() - si,
    {
        let sma_config = sma_configs[si];
        let mut mask: usize = 0;
        while mask < 16
            invariant
                0 <= mask <= 16,
                si < sma_configs@.len(),
                sma_config == grid[si as int],
                sma_configs@ == grid,
                max_lookback < usize::MAX,
                spec_strategies_for_smas(grid, 0, min_lookback as int, max_lookback as int, pairs)
                    == strategies@ + spec_masks_strategies(
                    sma_config,
                    mask as int,
                    min_lookback as int,
                    max_lookback as int,
                    pairs,
                ) + spec_strategies_for_smas(
                    grid,
                    si + 1,
                    min_lookback as int,
                    max_lookback as int,
                    pairs,
                ),
                pairs == pullback_pairs@,
            decreases 16 - mask,
        {
            let enable_breakouts = mask % 2 == 1;
            let enable_pullbacks = (mask / 2) % 2 == 1;
            let enable_crossovers = (mask / 4) % 2 == 1;

            if enable_breakouts && enable_pullbacks {
                let mut lookback = min_lookback;
                while lookback <= max_lookback
                    invariant
                        max_lookback < usize::MAX,
                        si < sma_configs@.len(),
                        sma_config == grid[si as int],
                        sma_configs@ == grid,
                        pairs == pullback_pairs@,
                        spec_strategies_for_smas(
                            grid,
                            0,
                            min_lookback as int,
                            max_lookback as int,
                            pairs,
                        ) == strategies@ + spec_both_lookbacks(
                            sma_config,
                            enable_crossovers,
                            lookback as int,
                            max_lookback as int,
                            pairs,
                        ) + spec_masks_strategies(
                            sma_config,
                            mask + 1,
                            min_lookback as int,
                            max_lookback as int,
                            pairs,
                        ) + spec_strategies_for_smas(
                            grid,
                            si + 1,
                            min_lookback as int,
                            max_lookback as int,
                            pairs,
                        ),
                        mask < 16,
                        mask % 2 == 1 && (mask / 2) % 2 == 1,
                        enable_crossovers == ((mask / 4) % 2 == 1),
                    decreases vstd::math::max(max_lookback - lookback + 1, 0int),
                {
                    let mut pi: usize = 0;
                    while pi < pullback_pairs.len()
                        invariant
                            0 <= pi <= pairs.len(),
                            lookback <= max_lookback,
                            max_lookback < usize::MAX,
                            si < sma_configs@.len(),
                            sma_config == grid[si as int],
                            sma_configs@ == grid,
                            pairs == pullback_pairs@,
                            spec_strategies_for_smas(
                                grid,
                                0,
                                min_lookback as int,
                                max_lookback as int,
                                pairs,
                            ) == strategies@ + spec_both_pairs(
                                sma_config,
                                enable_crossovers,
                                lookback as int,
                                pairs,
                                pi as int,
                            ) + spec_both_lookbacks(
                                sma_config,
                                enable_crossovers,
                                lookback + 1,
                                max_lookback as int,
                                pairs,
                            ) + spec_masks_strategies(
                                sma_config,
                                mask + 1,
                                min_lookback as int,
                                max_lookback as int,
                                pairs,
                            ) + spec_strategies_for_smas(
                                grid,
                                si + 1,
                                min_lookback as int,
                                max_lookback as int,
                                pairs,
                            ),
                            mask < 16,
                            mask % 2 == 1 && (mask / 2) % 2 == 1,
                            enable_crossovers == ((mask / 4) % 2 == 1),
                        decreases pairs.len() - pi,
                    {
                        let (bounce, reject) = pullback_pairs[pi];
                        strategies.push(
                            StrategyConfig {
                                breakouts: Some(
                                    BreakoutConfig { breakout_lookback: lookback },
                                ),
                                pullbacks: Some(
                                    PullbackConfig {
                                        bounce_tolerance_ppm: bounce,
                                        reject_tolerance_ppm: reject,
                                    },
                                ),
                                enable_crossovers,
                                enable_bias_only: true,
                                sma_config,
                                filters: FilterConfig {
                                    atr: None,
                                    regime: None,
                                    require_price_confirmation: true,
                                    require_trend_filter: true,
                                },
                            },
                        );
                        pi = pi + 1;
                    }
                    lookback = lookback + 1;
                }
            } else if enable_breakouts {
                let mut lookback = min_lookback;
                while lookback <= max_lookback
                    invariant
                        max_lookback < usize::MAX,
                        si < sma_configs@.len(),
                        sma_config == grid[si as int],
                        sma_configs@ == grid,
                        pairs == pullback_pairs@,
                        spec_strategies_for_smas(
                            grid,
                            0,
                            min_lookback as int,
                            max_lookback as int,
                            pairs,
                        ) == strategies@ + spec_breakout_lookbacks(
                            sma_config,
                            enable_crossovers,
                            lookback as int,
                            max_lookback as int,
                        ) + spec_masks_strategies(
                            sma_config,
                            mask + 1,
                            min_lookback as int,
                            max_lookback as int,
                            pairs,
                        ) + spec_strategies_for_smas(
                            grid,
                            si + 1,
                            min_lookback as int,
                            max_lookback as int,
                            pairs,
                        ),
                        mask < 16,
                        mask % 2 == 1 && (mask / 2) % 2 == 0,
                        enable_crossovers == ((mask / 4) % 2 == 1),
                    decreases vstd::math::max(max_lookback - lookback + 1, 0int),
                {
                    strategies.push(
                        StrategyConfig {
                            breakouts: Some(BreakoutConfig { breakout_lookback: lookback }),
                            pullbacks: None,
                            enable_crossovers,
                            enable_bias_only: true,
                            sma_config,
                            filters: FilterConfig {
                                atr: None,
                                regime: None,
                                require_price_confirmation: true,
                                require_trend_filter: true,
                            },
                        },
                    );
                    lookback = lookback + 1;
                }
            } else if enable_pullbacks {
                let mut pi: usize = 0;
                while pi < pullback_pairs.len()
                    invariant
                        0 <= pi <= pairs.len(),
                        max_lookback < usize::MAX,
                        si < sma_configs@.len(),
                        sma_config == grid[si as int],
                        sma_configs@ == grid,
                        pairs == pullback_pairs@,
                        spec_strategies_for_smas(
                            grid,
                            0,
                            min_lookback as int,
                            max_lookback as int,
                            pairs,
                        ) == strategies@ + spec_pullback_only(
                            sma_config,
                            enable_crossovers,
                            pairs,
                            pi as int,
                        ) + spec_masks_strategies(
                            sma_config,
                            mask + 1,
                            min_lookback as int,
                            max_lookback as int,
                            pairs,
                        ) + spec_strategies_for_smas(
                            grid,
                            si + 1,
                            min_lookback as int,
                            max_lookback as int,
                            pairs,
                        ),
                        mask < 16,
                        mask % 2 == 0 && (mask / 2) % 2 == 1,
                        enable_crossovers == ((mask / 4) % 2 == 1),
                    decreases pairs.len() - pi,
                {
                    let (bounce, reject) = pullback_pairs[pi];
                    strategies.push(
                        StrategyConfig {
                            breakouts: None,
                            pullbacks: Some(
                                PullbackConfig {
                                    bounce_tolerance_ppm: bounce,
                                    reject_tolerance_ppm: reject,
                                },
                            ),
                            enable_crossovers,
                            enable_bias_only: true,
                            sma_config,
                            filters: FilterConfig {
                                atr: None,
                                regime: None,
                                require_price_confirmation: true,
                                require_trend_filter: true,
                            },
                        },
                    );
                    pi = pi + 1;
                }
            } else if enable_crossovers {
                strategies.push(
                    StrategyConfig {
                        breakouts: None,
                        pullbacks: None,
                        enable_crossovers,
                        enable_bias_only: true,
                        sma_config,
                        filters: FilterConfig {
                            atr: None,
                            regime: None,
                            require_price_confirmation: true,
                            require_trend_filter: true,
                        },
                    },
                );
            }
            mask = mask + 1;
        }
        si = si + 1;
    }
    proof {
        assert(spec_generate_strategies(min_lookback as int, max_lookback as int, pairs)
            =~= strategies@);
    }
    strategies
}

// ~~~~ The sweep and its reduction ~~~~

/// The metrics the sweep comparator reads off a finished run.
pub trait TradingMetrics {
    spec fn spec_total_return_ppm(&self) -> i128;

    spec fn spec_max_drawdown_ppm(&self) -> i128;

    fn total_return_ppm(&self) -> (r: i128)
        ensures
            r == self.spec_total_return_ppm(),
    ;

    fn max_drawdown_ppm(&self) -> (r: i128)
        ensures
            r == self.spec_max_drawdown_ppm(),
    ;
}

/// A replay engine the sweep can drive: one run per candidate, with a
/// specification of the metrics a successful run reports.
pub trait Backtester: Sized {
    type Output: TradingMetrics;

    /// The inputs this backtester was validly constructed from.
    spec fn spec_valid(&self) -> bool;

    /// Whether every run that the specification allows actually
    /// succeeds (a sink that cannot fail, for instance).
    spec fn spec_reliable(&self) -> bool;

    /// The `(total return, max drawdown)` pair of a successful run, in
    /// parts per million; `None` where the run fails.
    spec fn spec_result(
        &self,
        samples: Seq<Sample>,
        strategy: StrategyConfig,
        frac: i64,
    ) -> Option<(i128, i128)>;

    fn run_backtest(&self, samples: &Vec<Sample>, candidate: &Candidate) -> (r: Result<
        Self::Output,
        String,
    >)
        requires
            self.spec_valid(),
        ensures
            r is Ok ==> self.spec_result(samples@, candidate.strategy, candidate.buy_sell_fraction)
                == Some((r->Ok_0.spec_total_return_ppm(), r->Ok_0.spec_max_drawdown_ppm())),
            self.spec_reliable() ==> (r is Ok <==> self.spec_result(
                samples@,
                candidate.strategy,
                candidate.buy_sell_fraction,
            ) is Some),
    ;
}

/// Whether `b` beats `a`: strictly higher total return, or an equal
/// return with strictly lower drawdown. On a full tie the left operand
/// is kept.
pub open spec fn spec_better_key(a: (i128, i128), b: (i128, i128)) -> bool {
    b.0 > a.0 || (b.0 == a.0 && b.1 < a.1)
}

/// The sizing fraction of sweep step `step` out of `steps`, scaled by
/// the maximum fraction and saturated to the fraction type.
pub open spec fn spec_frac(step: int, steps: int, max_frac: i64) -> i64 {
    let q = step * max_frac / steps;
    if q > i64::MAX {
        i64::MAX
    } else if q < i64::MIN {
        i64::MIN
    } else {
        q as i64
    }
}

/// The left fold of the comparator over the job results from index `i`
/// on, carrying the best `(job index, key)` so far.
pub open spec fn spec_reduce<B: Backtester>(
    b: B,
    samples: Seq<Sample>,
    jobs: Seq<(StrategyConfig, usize)>,
    max_frac: i64,
    steps: int,
    i: int,
    acc: Option<(int, (i128, i128))>,
) -> Option<(int, (i128, i128))>
    decreases jobs.len() - i,
{
    if i < 0 || i >= jobs.len() {
        acc
    } else {
        let cur = b.spec_result(samples, jobs[i].0, spec_frac(jobs[i].1 as int, steps, max_frac));
        let acc2 = match (acc, cur) {
            (None, None) => None,
            (None, Some(k)) => Some((i, k)),
            (Some(a), None) => Some(a),
            (Some(a), Some(k)) => if spec_better_key(a.1, k) {
                Some((i, k))
            } else {
                Some(a)
            },
        };
        spec_reduce(b, samples, jobs, max_frac, steps, i + 1, acc2)
    }
}

/// Run every job and keep the best result: strictly higher total return
/// wins, ties go to the strictly lower drawdown, and a full tie keeps
/// the earlier job. Failed jobs are dropped. `None` when every job
/// failed.
pub fn find_best_strategy<B: Backtester>(
    jobs: Vec<(StrategyConfig, usize)>,
    max_buy_sell_fraction: i64,
    buy_sell_frac_steps: usize,
    samples: &Vec<Sample>,
    backtester: &B,
) -> (r: Option<(Candidate, B::Output)>)
    requires
        buy_sell_frac_steps >= 1,
        backtester.spec_valid(),
        backtester.spec_reliable(),
    ensures
        ({
            let red = spec_reduce(
                *backtester,
                samples@,
                jobs@,
                max_buy_sell_fraction,
                buy_sell_frac_steps as int,
                0,
                None,
            );
            match red {
                None => r is None,
                Some((j, key)) => {
                    let pair = r->0;
                    &&& r is Some
                    &&& 0 <= j < jobs@.len()
                    &&& pair.0.strategy == jobs@[j].0
                    &&& pair.0.buy_sell_fraction == spec_frac(
                        jobs@[j].1 as int,
                        buy_sell_frac_steps as int,
                        max_buy_sell_fraction,
                    )
                    &&& key == (pair.1.spec_total_return_ppm(), pair.1.spec_max_drawdown_ppm())
                },
            }
        }),
{
    let mut best: Option<(Candidate, B::Output)> = None;
    let ghost mut best_idx: int = 0;
    let mut i: usize = 0;
    while i < jobs.len()
        invariant
            0 <= i <= jobs@.len(),
            buy_sell_frac_steps >= 1,
            backtester.spec_valid(),
            backtester.spec_reliable(),
            ({
                let acc = match best {
                    None => None,
                    Some(p) => Some(
                        (best_idx, (p.1.spec_total_return_ppm(), p.1.spec_max_drawdown_ppm())),
                    ),
                };
                &&& spec_reduce(
                    *backtester,
                    samples@,
                    jobs@,
                    max_buy_sell_fraction,
                    buy_sell_frac_steps as int,
                    i as int,
                    acc,
                ) == spec_reduce(
                    *backtester,
                    samples@,
                    jobs@,
                    max_buy_sell_fraction,
                    buy_sell_frac_steps as int,
                    0,
                    None,
                )
                &&& (best is Some ==> {
                    let bp = best->0;
                    &&& 0 <= best_idx < i as int
                    &&& bp.0.strategy == jobs@[best_idx].0
                    &&& bp.0.buy_sell_fraction == spec_frac(
                        jobs@[best_idx].1 as int,
                        buy_sell_frac_steps as int,
                        max_buy_sell_fraction,
                    )
                })
            }),
        decreases jobs@.len() - i,
    {
        let (strategy, step) = jobs[i];
        proof {
            assert((step as int) * (max_buy_sell_fraction as int) <= (u64::MAX as int) * (
            i64::MAX as int) && (step as int) * (max_buy_sell_fraction as int) >= (u64::MAX as int)
                * (i64::MIN as int))
                by (nonlinear_arith)
                requires
                    0 <= step <= u64::MAX,
                    i64::MIN <= max_buy_sell_fraction <= i64::MAX,
            ;
            crate::num::lemma_div_euclid_in_range(
                (step as int) * (max_buy_sell_fraction as int),
                buy_sell_frac_steps as int,
            );
        }
        let frac_w: i128 = ((step as i128) * (max_buy_sell_fraction as i128)).checked_div_euclid(
            buy_sell_frac_steps as i128,
        ).unwrap();
        let buy_sell_fraction: i64 = if frac_w > i64::MAX as i128 {
            i64::MAX
        } else if frac_w < i64::MIN as i128 {
            i64::MIN
        } else {
            frac_w as i64
        };
        let candidate = Candidate { buy_sell_fraction, strategy };
        match backtester.run_backtest(samples, &candidate) {
            Ok(result) => {
                let replace = match &best {
                    None => true,
                    Some(b) => {
                        let b_ret = result.total_return_ppm();
                        let a_ret = b.1.total_return_ppm();
                        let b_dd = result.max_drawdown_ppm();
                        let a_dd = b.1.max_drawdown_ppm();
                        b_ret > a_ret || (b_ret == a_ret && b_dd < a_dd)
                    },
                };
                if replace {
                    let candidate2 = Candidate { buy_sell_fraction, strategy };
                    best = Some((candidate2, result));
                    proof {
                        best_idx = i as int;
                    }
                }
            },
            Err(_) => {},
        }
        i = i + 1;
    }
    best
}

// ~~~~ The law of the reduction ~~~~

/// The left fold of the comparator over a sequence of result keys.
pub open spec fn spec_reduce_keys(keys: Seq<(i128, i128)>, acc: Option<(i128, i128)>) -> Option<
    (i128, i128),
>
    decreases keys.len(),
{
    if keys.len() == 0 {
        acc
    } else {
        let acc2 = match acc {
            None => Some(keys[0]),
            Some(a) => if spec_better_key(a, keys[0]) {
                Some(keys[0])
            } else {
                Some(a)
            },
        };
        spec_reduce_keys(keys.drop_first(), acc2)
    }
}

proof fn lemma_reduce_keys_props(keys: Seq<(i128, i128)>, acc: Option<(i128, i128)>)
    ensures
        ({
            let r = spec_reduce_keys(keys, acc);
            &&& (r is None <==> (keys.len() == 0 && acc is None))
            &&& (r is Some ==> keys.contains(r->0) || acc == Some(r->0))
            &&& (r is Some ==> forall|j: int|
                0 <= j < keys.len() ==> !spec_better_key(r->0, #[trigger] keys[j]))
            &&& (r is Some && acc is Some ==> !spec_better_key(r->0, acc->0))
        }),
    decreases keys.len(),
{
    if keys.len() > 0 {
        let acc2 = match acc {
            None => Some(keys[0]),
            Some(a) => if spec_better_key(a, keys[0]) {
                Some(keys[0])
            } else {
                Some(a)
            },
        };
        lemma_reduce_keys_props(keys.drop_first(), acc2);
        let r = spec_reduce_keys(keys, acc);
        assert(keys.drop_first().contains(r->0) ==> keys.contains(r->0)) by {
            if keys.drop_first().contains(r->0) {
                let w = choose|w: int|
                    0 <= w < keys.drop_first().len() && keys.drop_first()[w] == r->0;
                assert(keys[w + 1] == r->0);
            }
        }
        assert forall|j: int| 0 <= j < keys.len() implies !spec_better_key(
            r->0,
            #[trigger] keys[j],
        ) by {
            if j > 0 {
                assert(keys.drop_first()[j - 1] == keys[j]);
            }
        }
    }
}

/// Sweep reduction is permutation-invariant: reducing the same multiset
/// of job result keys in any order yields the same `(total return,
/// max drawdown)` pair for the winner. (A full tie between distinct jobs
/// keeps the earlier one, but its key is the same pair.)
pub proof fn lemma_sweep_reduction_permutation(s1: Seq<(i128, i128)>, s2: Seq<(i128, i128)>)
    requires
        s1.to_multiset() == s2.to_multiset(),
    ensures
        spec_reduce_keys(s1, None) == spec_reduce_keys(s2, None),
{
    broadcast use vstd::seq_lib::group_to_multiset_ensures;

    lemma_reduce_keys_props(s1, None);
    lemma_reduce_keys_props(s2, None);
    let r1 = spec_reduce_keys(s1, None);
    let r2 = spec_reduce_keys(s2, None);
    assert(s1.len() == s1.to_multiset().len());
    assert(s2.len() == s2.to_multiset().len());
    if s1.len() == 0 {
        assert(r1 is None && r2 is None);
    } else {
        assert(r1 is Some && r2 is Some);
        let k1 = r1->0;
        let k2 = r2->0;
        assert(s1.contains(k1) && s2.contains(k2));
        assert(s2.to_multiset().count(k1) > 0);
        assert(s1.to_multiset().count(k2) > 0);
        assert(s2.contains(k1) && s1.contains(k2));
        let w1 = choose|w: int| 0 <= w < s2.len() && s2[w] == k1;
        let w2 = choose|w: int| 0 <= w < s1.len() && s1[w] == k2;
        assert(!spec_better_key(k1, s1[w2]));
        assert(!spec_better_key(k2, s2[w1]));
        assert(k1 == k2);
    }
}

/// Every strategy paired with every sizing step in `1..=steps`.
pub open spec fn spec_jobs_for_strategy(s: StrategyConfig, step: int, steps: int) -> Seq<
    (StrategyConfig, usize),
>
    decreases steps - step + 1,
{
    if step > steps || step < 1 {
        Seq::empty()
    } else {
        seq![(s, step as usize)] + spec_jobs_for_strategy(s, step + 1, steps)
    }
}

pub open spec fn spec_sweep_jobs(strategies: Seq<StrategyConfig>, i: int, steps: int) -> Seq<
    (StrategyConfig, usize),
>
    decreases strategies.len() - i,
{
    if i >= strategies.len() || i < 0 {
        Seq::empty()
    } else {
        spec_jobs_for_strategy(strategies[i], 1, steps) + spec_sweep_jobs(strategies, i + 1, steps)
    }
}

/// Pair each strategy with every sizing-fraction step in `1..=steps`.
pub fn generate_backtest_sweep_jobs(
    strategies: Vec<StrategyConfig>,
    buy_sell_frac_steps: usize,
) -> (r: Vec<(StrategyConfig, usize)>)
    requires
        buy_sell_frac_steps < usize::MAX,
    ensures
        r@ == spec_sweep_jobs(strategies@, 0, buy_sell_frac_steps as int),
{
    let mut jobs: Vec<(StrategyConfig, usize)> = Vec::new();
    let mut i: usize = 0;
    while i < strategies.len()
        invariant
            0 <= i <= strategies@.len(),
            buy_sell_frac_steps < usize::MAX,
            spec_sweep_jobs(strategies@, 0, buy_sell_frac_steps as int) == jobs@ + spec_sweep_jobs(
                strategies@,
                i as int,
                buy_sell_frac_steps as int,
            ),
        decreases strategies@.len() - i,
    {
        let strategy = strategies[i];
        let mut step: usize = 1;
        while step <= buy_sell_frac_steps
            invariant
                1 <= step <= buy_sell_frac_steps + 1,
                i < strategies@.len(),
                strategy == strategies@[i as int],
                buy_sell_frac_steps < usize::MAX,
                spec_sweep_jobs(strategies@, 0, buy_sell_frac_steps as int) == jobs@
                    + spec_jobs_for_strategy(strategy, step as int, buy_sell_frac_steps as int)
                    + spec_sweep_jobs(strategies@, i + 1, buy_sell_frac_steps as int),
            decreases buy_sell_frac_steps - step + 1,
        {
            jobs.push((strategy, step));
            step = step + 1;
        }
        i = i + 1;
    }
    proof {
        assert(spec_sweep_jobs(strategies@, 0, buy_sell_frac_steps as int) =~= jobs@);
    }
    jobs
}

} // verus!
