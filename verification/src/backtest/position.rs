//! The long/short single-position replay engine: at most one open
//! position, flipped when the signal's side changes, force-closed at the
//! end of data.

use vstd::prelude::*;

use crate::backtest::common::{spec_max_drawdown, Candidate, Signal};
use crate::data::Sample;
use crate::indicators::compute_smas;
use crate::indicators::sma::{spec_sma, spec_smas_available, SmaConfig, Smas};
use crate::num::PPM;
use crate::signal::{analyze, spec_action_label, spec_suggest, Action, StrategyConfig};

verus! {

/// Which way a position points.
#[derive(Debug, Clone, Copy, PartialEq, Eq, Structural)]
pub enum PositionSide {
    Long,
    Short,
}

pub open spec fn spec_side_of(s: Signal) -> PositionSide {
    match s {
        Signal::Buy => PositionSide::Long,
        Signal::Sell => PositionSide::Short,
    }
}

impl From<Signal> for PositionSide {
    fn from(s: Signal) -> (r: Self) {
        match s {
            Signal::Buy => Self::Long,
            Signal::Sell => Self::Short,
        }
    }
}

impl vstd::std_specs::convert::FromSpecImpl<Signal> for PositionSide {
    open spec fn obeys_from_spec() -> bool {
        true
    }

    open spec fn from_spec(s: Signal) -> Self {
        spec_side_of(s)
    }
}

/// One position: created at entry, mutated once at close, then moved into
/// the closed list. The size is a coin quantity in parts per million;
/// money amounts are plain fixed-point units.
#[derive(Debug, Clone)]
pub struct Position {
    pub side: PositionSide,
    pub entry_time: i64,
    pub exit_time: Option<i64>,
    pub entry_price: i64,
    pub exit_price: Option<i64>,
    pub entry_reason: String,
    pub exit_reason: Option<String>,
    pub size: i64,
    pub profit: Option<i128>,
    pub return_ppm: Option<i128>,
    /// Gross collateral removed from cash at entry.
    pub entry_collateral_gross: i64,
}

/// The specification-level image of a position, with unbounded integers
/// and reasons as character sequences.
pub struct SpecPosition {
    pub side: PositionSide,
    pub entry_time: int,
    pub exit_time: Option<int>,
    pub entry_price: int,
    pub exit_price: Option<int>,
    pub entry_reason: Seq<char>,
    pub exit_reason: Option<Seq<char>>,
    pub size: int,
    pub profit: Option<int>,
    pub return_ppm: Option<int>,
    pub entry_collateral_gross: int,
}

pub open spec fn opt_int_of_i64(o: Option<i64>) -> Option<int> {
    match o {
        Some(v) => Some(v as int),
        None => None,
    }
}

pub open spec fn opt_int_of_i128(o: Option<i128>) -> Option<int> {
    match o {
        Some(v) => Some(v as int),
        None => None,
    }
}

pub open spec fn opt_view_of_string(o: Option<String>) -> Option<Seq<char>> {
    match o {
        Some(s) => Some(s@),
        None => None,
    }
}

pub open spec fn pos_matches(p: Position, s: SpecPosition) -> bool {
    &&& p.side == s.side
    &&& p.entry_time == s.entry_time
    &&& opt_int_of_i64(p.exit_time) == s.exit_time
    &&& p.entry_price == s.entry_price
    &&& opt_int_of_i64(p.exit_price) == s.exit_price
    &&& p.entry_reason@ == s.entry_reason
    &&& opt_view_of_string(p.exit_reason) == s.exit_reason
    &&& p.size == s.size
    &&& opt_int_of_i128(p.profit) == s.profit
    &&& opt_int_of_i128(p.return_ppm) == s.return_ppm
    &&& p.entry_collateral_gross == s.entry_collateral_gross
}

pub open spec fn positions_match(ps: Seq<Position>, ss: Seq<SpecPosition>) -> bool {
    &&& ps.len() == ss.len()
    &&& forall|i: int| 0 <= i < ps.len() ==> pos_matches(#[trigger] ps[i], ss[i])
}

/// What an open position is worth if liquidated at `price`: zero for a
/// degenerate price or size, the marked value for a long, collateral
/// plus unrealized profit for a short.
pub open spec fn spec_position_liq(p: SpecPosition, price: int) -> int {
    if price <= 0 || p.size <= 0 {
        0
    } else if p.side == PositionSide::Long {
        p.size * price / (PPM as int)
    } else {
        p.entry_collateral_gross + (p.entry_price - price) * p.size / (PPM as int)
    }
}

/// Close a position at the given price: realize the profit and the
/// return on collateral.
pub open spec fn spec_close_position(
    p: SpecPosition,
    exit_price: int,
    exit_time: int,
    exit_reason: Seq<char>,
) -> SpecPosition {
    let gross_pnl = if p.side == PositionSide::Long {
        (exit_price - p.entry_price) * p.size / (PPM as int)
    } else {
        (p.entry_price - exit_price) * p.size / (PPM as int)
    };
    let ret = if p.entry_collateral_gross > 0 {
        gross_pnl * (PPM as int) / p.entry_collateral_gross
    } else {
        0
    };
    SpecPosition {
        exit_time: Some(exit_time),
        exit_price: Some(exit_price),
        exit_reason: Some(exit_reason),
        profit: Some(gross_pnl),
        return_ppm: Some(ret),
        ..p
    }
}

/// Open a position funded with `cash * frac` of collateral. A degenerate
/// price, cash or fraction, a zero-size result, or a size that does not
/// fit the quantity type opens nothing and leaves cash unchanged.
pub open spec fn spec_open_position(
    side: PositionSide,
    price: int,
    ts: int,
    cash: int,
    frac: int,
    reason: Seq<char>,
) -> (Option<SpecPosition>, int) {
    if price <= 0 || cash <= 0 || frac <= 0 {
        (None, cash)
    } else {
        let collateral = cash * frac / (PPM as int);
        if collateral <= 0 {
            (None, cash)
        } else {
            let size = collateral * (PPM as int) / price;
            if size <= 0 || size > i64::MAX {
                (None, cash)
            } else {
                (
                    Some(
                        SpecPosition {
                            side,
                            entry_time: ts,
                            exit_time: None,
                            entry_price: price,
                            exit_price: None,
                            entry_reason: reason,
                            exit_reason: None,
                            size,
                            profit: None,
                            return_ppm: None,
                            entry_collateral_gross: collateral,
                        },
                    ),
                    cash - collateral,
                )
            }
        }
    }
}

/// The portfolio state of the single-position replay.
pub struct PosState {
    pub cash: int,
    pub open_pos: Option<SpecPosition>,
    pub closed: Seq<SpecPosition>,
    pub curve: Seq<(i64, i64)>,
    pub overflow: bool,
}

pub open spec fn spec_prices_of(samples: Seq<Sample>, n: int) -> Seq<i64> {
    samples.take(n).map_values(|s: Sample| s.price)
}

pub open spec fn spec_smas_of(prices: Seq<i64>, cfg: SmaConfig) -> Smas {
    Smas {
        sma_short: spec_sma(prices, cfg.short_window as int) as i64,
        sma_long: spec_sma(prices, cfg.long_window as int) as i64,
        prev_sma_short: spec_sma(prices.drop_last(), cfg.short_window as int) as i64,
        prev_sma_long: spec_sma(prices.drop_last(), cfg.long_window as int) as i64,
    }
}

/// The action's implied position side: a buy wants a long, a sell a
/// short, a hold nothing.
pub open spec fn spec_want_side(a: Action) -> Option<PositionSide> {
    match a {
        Action::Buy => Some(PositionSide::Long),
        Action::Sell => Some(PositionSide::Short),
        Action::Hold => None,
    }
}

/// One step of the single-position replay: mark to market, then (once
/// enough history exists) consult the decision engine, closing and
/// opening positions when the implied side changes. The overflow flag is
/// set, and the state frozen, as soon as a stored value would leave the
/// money type.
pub open spec fn spec_pos_step(
    st: PosState,
    samples: Seq<Sample>,
    i: int,
    strat: StrategyConfig,
    frac: int,
) -> PosState {
    if st.overflow {
        st
    } else {
        let price = samples[i].price as int;
        let ts = samples[i].ts;
        let liq = match st.open_pos {
            Some(p) => spec_position_liq(p, price),
            None => 0,
        };
        let equity = st.cash + liq;
        if equity > i64::MAX || equity < i64::MIN {
            PosState { overflow: true, ..st }
        } else {
            let st1 = PosState { curve: st.curve.push((ts, equity as i64)), ..st };
            let prices = spec_prices_of(samples, i + 1);
            if i + 1 <= strat.sma_config.long_window || !spec_smas_available(
                i + 1,
                strat.sma_config,
            ) {
                st1
            } else {
                let smas = spec_smas_of(prices, strat.sma_config);
                let decision = spec_suggest(prices, smas, strat);
                match spec_want_side(decision.0) {
                    None => st1,
                    Some(want_side) => {
                        let same_side = st1.open_pos is Some && st1.open_pos->0.side == want_side;
                        if same_side {
                            st1
                        } else {
                            let cash2 = match st1.open_pos {
                                Some(p) => {
                                    let cp = spec_close_position(p, price, ts as int, decision.1);
                                    st1.cash + cp.entry_collateral_gross + cp.profit->0
                                },
                                None => st1.cash,
                            };
                            let closed2 = match st1.open_pos {
                                Some(p) => st1.closed.push(
                                    spec_close_position(p, price, ts as int, decision.1),
                                ),
                                None => st1.closed,
                            };
                            if cash2 > i64::MAX || cash2 < i64::MIN {
                                PosState { overflow: true, ..st1 }
                            } else {
                                let opened = spec_open_position(
                                    want_side,
                                    price,
                                    ts as int,
                                    cash2,
                                    frac,
                                    decision.1,
                                );
                                PosState {
                                    cash: opened.1,
                                    open_pos: opened.0,
                                    closed: closed2,
                                    curve: st1.curve,
                                    overflow: false,
                                }
                            }
                        }
                    },
                }
            }
        }
    }
}

pub open spec fn spec_pos_initial(initial_cash: int) -> PosState {
    PosState {
        cash: initial_cash,
        open_pos: None,
        closed: Seq::empty(),
        curve: Seq::empty(),
        overflow: false,
    }
}

proof fn lemma_pos_overflow_persists(
    samples: Seq<Sample>,
    strat: StrategyConfig,
    frac: int,
    init: int,
    i: int,
    n: int,
)
    requires
        0 <= i <= n,
        spec_pos_run(samples, strat, frac, init, i).overflow,
    ensures
        spec_pos_run(samples, strat, frac, init, n).overflow,
    decreases n - i,
{
    if i < n {
        lemma_pos_overflow_persists(samples, strat, frac, init, i, n - 1);
    }
}

/// The replay state after the first `n` samples.
pub open spec fn spec_pos_run(
    samples: Seq<Sample>,
    strat: StrategyConfig,
    frac: int,
    initial_cash: int,
    n: int,
) -> PosState
    decreases n,
{
    if n <= 0 {
        spec_pos_initial(initial_cash)
    } else {
        spec_pos_step(spec_pos_run(samples, strat, frac, initial_cash, n - 1), samples, n - 1, strat, frac)
    }
}

/// The replay state after all samples and the forced end-of-data close.
pub open spec fn spec_pos_final(
    samples: Seq<Sample>,
    strat: StrategyConfig,
    frac: int,
    initial_cash: int,
) -> PosState {
    let st = spec_pos_run(samples, strat, frac, initial_cash, samples.len() as int);
    if st.overflow {
        st
    } else {
        match st.open_pos {
            None => st,
            Some(p) => {
                let last = samples.last();
                let cp = spec_close_position(p, last.price as int, last.ts as int, "EOF"@);
                let cash2 = st.cash + cp.entry_collateral_gross + cp.profit->0;
                if cash2 > i64::MAX || cash2 < i64::MIN {
                    PosState { overflow: true, ..st }
                } else {
                    PosState {
                        cash: cash2,
                        open_pos: None,
                        closed: st.closed.push(cp),
                        curve: st.curve,
                        overflow: false,
                    }
                }
            },
        }
    }
}

fn position_liquidation_value(pos: &Position, price: i64) -> (r: i128)
    requires
        pos.entry_collateral_gross >= 0,
        pos.size >= 0,
    ensures
        forall|s: SpecPosition| pos_matches(*pos, s) ==> r == spec_position_liq(s, price as int),
        -(u64::MAX as int) * (i64::MAX as int) - PPM <= r <= (u64::MAX as int) * (i64::MAX as int)
            + (i64::MAX as int) + PPM,
{
    if price <= 0 || pos.size <= 0 {
        return 0;
    }
    match pos.side {
        PositionSide::Long => {
            let prod = crate::num::mul_i64_wide(pos.size, price);
            proof {
                crate::num::lemma_div_euclid_in_range(prod as int, PPM as int);
            }
            let v = prod.checked_div_euclid(PPM as i128).unwrap();
            v
        },
        PositionSide::Short => {
            let diff: i128 = (pos.entry_price as i128) - (price as i128);
            proof {
                assert({
                    let p = diff * (pos.size as i128);
                    -(u64::MAX as int) * (i64::MAX as int) <= p <= (u64::MAX as int) * (
                    i64::MAX as int)
                })
                    by (nonlinear_arith)
                    requires
                        -(u64::MAX as i128) <= diff <= u64::MAX as i128,
                        0 <= pos.size <= i64::MAX,
                ;
            }
            let lhs = diff * (pos.size as i128);
            proof {
                crate::num::lemma_div_euclid_in_range(lhs as int, PPM as int);
            }
            let gross_pnl = lhs.checked_div_euclid(PPM as i128).unwrap();
            (pos.entry_collateral_gross as i128) + gross_pnl
        },
    }
}

fn close_position(pos: Position, exit_price: i64, exit_time: i64, exit_reason: String) -> (r:
    Position)
    requires
        pos.size >= 0,
    ensures
        forall|s: SpecPosition|
            pos_matches(pos, s) ==> pos_matches(
                r,
                spec_close_position(s, exit_price as int, exit_time as int, exit_reason@),
            ),
        r.profit is Some,
        -(u64::MAX as int) * (i64::MAX as int) - PPM <= r.profit->0 <= (u64::MAX as int) * (
        i64::MAX as int),
{
    let mut pos = pos;
    pos.exit_price = Some(exit_price);
    pos.exit_time = Some(exit_time);
    pos.exit_reason = Some(exit_reason);

    let diff: i128 = match pos.side {
        PositionSide::Long => (exit_price as i128) - (pos.entry_price as i128),
        PositionSide::Short => (pos.entry_price as i128) - (exit_price as i128),
    };
    proof {
        assert({
            let p = diff * (pos.size as i128);
            -(u64::MAX as int) * (i64::MAX as int) <= p <= (u64::MAX as int) * (i64::MAX as int)
        })
            by (nonlinear_arith)
            requires
                -(u64::MAX as i128) <= diff <= u64::MAX as i128,
                0 <= pos.size <= i64::MAX,
        ;
    }
    let lhs = diff * (pos.size as i128);
    proof {
        crate::num::lemma_div_euclid_in_range(lhs as int, PPM as int);
    }
    let gross_pnl = lhs.checked_div_euclid(PPM as i128).unwrap();

    let ret: i128 = if pos.entry_collateral_gross > 0 {
        proof {
            crate::num::lemma_quotient_times_divisor_in_range(lhs as int, PPM as int);
            crate::num::lemma_div_euclid_in_range(
                (gross_pnl as int) * (PPM as int),
                pos.entry_collateral_gross as int,
            );
        }
        (gross_pnl * (PPM as i128)).checked_div_euclid(
            pos.entry_collateral_gross as i128,
        ).unwrap()
    } else {
        0
    };

    pos.profit = Some(gross_pnl);
    pos.return_ppm = Some(ret);
    pos
}

fn open_position(
    side: PositionSide,
    price: i64,
    ts: i64,
    cash: &mut i64,
    entry_frac: i64,
    reason: String,
) -> (r: Option<Position>)
    requires
        0 <= entry_frac <= PPM,
    ensures
        ({
            let spec = spec_open_position(
                side,
                price as int,
                ts as int,
                *old(cash) as int,
                entry_frac as int,
                reason@,
            );
            &&& *final(cash) == spec.1
            &&& (r is Some <==> spec.0 is Some)
            &&& (r is Some ==> pos_matches(r->0, spec.0->0))
            &&& (r is Some ==> r->0.entry_collateral_gross >= 0 && r->0.size >= 0)
        }),
{
    if price <= 0 || *cash <= 0 || entry_frac <= 0 {
        return None;
    }
    proof {
        assert((*cash as int) * (entry_frac as int) <= (i64::MAX as int) * (PPM as int))
            by (nonlinear_arith)
            requires
                0 < *cash <= i64::MAX,
                0 < entry_frac <= PPM,
        ;
    }
    let prod: u128 = (*cash as u128) * (entry_frac as u128);
    let collateral_w: u128 = prod / (PPM as u128);
    proof {
        assert((*cash as int) * (entry_frac as int) <= (*cash as int) * (PPM as int))
            by (nonlinear_arith)
            requires
                0 < *cash,
                0 < entry_frac <= PPM,
        ;
        vstd::arithmetic::div_mod::lemma_div_is_ordered(
            (*cash as int) * (entry_frac as int),
            (*cash as int) * (PPM as int),
            PPM as int,
        );
        vstd::arithmetic::div_mod::lemma_div_multiples_vanish(*cash as int, PPM as int);
        assert((PPM as int) * (*cash as int) == (*cash as int) * (PPM as int))
            by (nonlinear_arith);
    }
    let collateral = collateral_w as i64;
    if collateral <= 0 {
        return None;
    }
    let size_w: u128 = ((collateral as u128) * (PPM as u128)) / (price as u128);
    if size_w == 0 || size_w > i64::MAX as u128 {
        return None;
    }
    let size = size_w as i64;
    *cash = *cash - collateral;
    Some(
        Position {
            side,
            entry_time: ts,
            exit_time: None,
            entry_price: price,
            exit_price: None,
            entry_reason: reason,
            exit_reason: None,
            size,
            entry_collateral_gross: collateral,
            profit: None,
            return_ppm: None,
        },
    )
}

/// The number of closed positions whose realized profit is positive.
pub open spec fn spec_count_wins(ps: Seq<Position>) -> int
    decreases ps.len(),
{
    if ps.len() == 0 {
        0
    } else {
        spec_count_wins(ps.drop_last()) + (
        match ps.last().profit {
            Some(p) => if p > 0 {
                1int
            } else {
                0int
            },
            None => 0int,
        })
    }
}

/// The fraction of closed positions with positive profit, in parts per
/// million; zero when nothing was closed.
pub open spec fn spec_win_rate(ps: Seq<Position>) -> int {
    if ps.len() == 0 {
        0
    } else {
        spec_count_wins(ps) * (PPM as int) / ps.len() as int
    }
}

proof fn lemma_count_wins_bounds(ps: Seq<Position>)
    ensures
        0 <= spec_count_wins(ps) <= ps.len(),
    decreases ps.len(),
{
    if ps.len() > 0 {
        lemma_count_wins_bounds(ps.drop_last());
    }
}

fn compute_win_rate(positions: &Vec<Position>) -> (r: i64)
    ensures
        r == spec_win_rate(positions@),
        0 <= r <= PPM,
{
    let n = positions.len();
    if n == 0 {
        return 0;
    }
    let mut wins: usize = 0;
    let mut i: usize = 0;
    while i < n
        invariant
            0 <= i <= n,
            n == positions@.len(),
            wins == spec_count_wins(positions@.take(i as int)),
            wins <= i,
        decreases n - i,
    {
        let win = match positions[i].profit {
            Some(p) => p > 0,
            None => false,
        };
        proof {
            assert(positions@.take(i + 1).drop_last() =~= positions@.take(i as int));
            assert(positions@.take(i + 1).last() == positions@[i as int]);
        }
        if win {
            wins = wins + 1;
        }
        i = i + 1;
    }
    proof {
        assert(positions@.take(n as int) =~= positions@);
        lemma_count_wins_bounds(positions@);
        vstd::arithmetic::div_mod::lemma_div_is_ordered(
            spec_count_wins(positions@) * PPM,
            (n as int) * (PPM as int),
            n as int,
        );
        vstd::arithmetic::div_mod::lemma_div_multiples_vanish(PPM as int, n as int);
        assert((n as int) * (PPM as int) == (PPM as int) * (n as int)) by (nonlinear_arith);
        assert(spec_count_wins(positions@) * PPM >= 0) by (nonlinear_arith)
            requires
                spec_count_wins(positions@) >= 0,
        ;
        vstd::arithmetic::div_mod::lemma_div_is_ordered(
            0,
            spec_count_wins(positions@) * PPM,
            n as int,
        );
    }
    let wide: u128 = (wins as u128) * (PPM as u128);
    let rate = (wide / (n as u128)) as i64;
    rate
}

/// Buy-and-hold equity: everything converted to coin at the first price
/// and marked at the last. `None` without data, with a non-positive
/// first price, or when a value leaves the money type.
pub fn buy_and_hold_equity(hourly: &Vec<Sample>, initial_cash: i64) -> (r: Option<i64>)
    ensures
        r is Some <==> ({
            let n = hourly@.len();
            &&& n >= 1
            &&& hourly@[0].price > 0
            &&& i64::MIN <= (initial_cash as int) * (PPM as int) / (hourly@[0].price as int)
                <= i64::MAX
            &&& i64::MIN <= ((initial_cash as int) * (PPM as int) / (hourly@[0].price as int)) * (
            hourly@.last().price as int) / (PPM as int) <= i64::MAX
        }),
        r is Some ==> r->0 == ((initial_cash as int) * (PPM as int) / (hourly@[0].price as int)) * (
        hourly@.last().price as int) / (PPM as int),
{
    if hourly.len() == 0 {
        return None;
    }
    let first = hourly[0].price;
    let last = hourly[hourly.len() - 1].price;
    if first <= 0 {
        return None;
    }
    let prod = crate::num::mul_i64_wide(initial_cash, PPM);
    proof {
        crate::num::lemma_div_euclid_in_range(prod as int, first as int);
    }
    let qty_w = prod.checked_div_euclid(first as i128).unwrap();
    if qty_w < i64::MIN as i128 || qty_w > i64::MAX as i128 {
        return None;
    }
    let qty = qty_w as i64;
    let wide = crate::num::mul_i64_wide(qty, last);
    proof {
        crate::num::lemma_div_euclid_in_range(wide as int, PPM as int);
    }
    let equity_w = wide.checked_div_euclid(PPM as i128).unwrap();
    if equity_w < i64::MIN as i128 || equity_w > i64::MAX as i128 {
        return None;
    }
    Some(equity_w as i64)
}

/// The result of one single-position run. Returns, drawdown and win rate
/// are in parts per million.
#[derive(Debug, Clone)]
pub struct PositionBacktestResult {
    pub initial_equity: i64,
    pub positions: Vec<Position>,
    pub equity_curve: Vec<(i64, i64)>,
    pub final_equity: i64,
    pub total_return_ppm: i128,
    pub max_drawdown_ppm: i128,
    pub win_rate_ppm: i64,
}

/// A sink for closed positions. The simulator reports every close to it
/// and aborts the run if it fails; a logger whose `spec_log_ok` holds
/// never fails.
pub trait PositionLogger {
    spec fn spec_log_ok(&self) -> bool;

    fn log(&self, position: &Position) -> (r: Result<(), String>)
        ensures
            self.spec_log_ok() ==> r is Ok,
    ;
}

/// A logger that drops every position.
pub struct NoopLogger;

impl PositionLogger for NoopLogger {
    open spec fn spec_log_ok(&self) -> bool {
        true
    }

    fn log(&self, _position: &Position) -> (r: Result<(), String>)
        ensures
            r is Ok,
    {
        Ok(())
    }
}

/// A logger that appends one JSON object per closed position to a file.
/// The writing itself is I/O and lives outside the verified core.
pub struct NdjsonLogger {
    pub path: std::path::PathBuf,
}

/// Declares std's `PathBuf` as an opaque type, so the logger can carry a
/// file path through the verified code; nothing is assumed about it.
#[verifier::external_type_specification]
#[verifier::external_body]
pub struct ExPathBuf(std::path::PathBuf);

impl NdjsonLogger {
    pub fn new(path: std::path::PathBuf) -> (r: Self)
        ensures
            r.path == path,
    {
        Self { path }
    }
}

/// The single-position simulator: initial cash and a sink for closed
/// positions.
pub struct PositionBacktester<L> {
    pub initial_cash: i64,
    pub logger: L,
}

impl PositionBacktester<NoopLogger> {
    pub fn new(initial_cash: i64) -> (r: Self)
        requires
            initial_cash > 0,
        ensures
            r.initial_cash == initial_cash,
    {
        Self { initial_cash, logger: NoopLogger }
    }
}

impl<L: PositionLogger> PositionBacktester<L> {
    pub fn with_logger(initial_cash: i64, logger: L) -> (r: Self)
        requires
            initial_cash > 0,
        ensures
            r.initial_cash == initial_cash,
            r.logger == logger,
    {
        Self { initial_cash, logger }
    }
}

/// What a finished single-position run must look like, relative to the
/// replay specification.
pub open spec fn spec_pos_result_ok(
    res: PositionBacktestResult,
    samples: Seq<Sample>,
    strat: StrategyConfig,
    frac: int,
    initial_cash: int,
) -> bool {
    let fin = spec_pos_final(samples, strat, frac, initial_cash);
    &&& res.initial_equity == initial_cash
    &&& res.final_equity == fin.cash
    &&& positions_match(res.positions@, fin.closed)
    &&& res.equity_curve@ == fin.curve
    &&& res.total_return_ppm == (res.final_equity as int) * (PPM as int) / (initial_cash as int)
        - PPM
    &&& res.max_drawdown_ppm == spec_max_drawdown(fin.curve, fin.curve.len() as int)
    &&& res.win_rate_ppm == spec_win_rate(res.positions@)
}

impl<L: PositionLogger> PositionBacktester<L> {
    /// Replay the samples: mark to market each step, follow the decision
    /// engine once enough history exists, flip the position when the
    /// signal's side changes, and force-close at the end of data.
    ///
    /// Fails with "Not enough data" when fewer than `long_window + 1`
    /// samples exist, with "Numeric overflow" when a stored value leaves
    /// the money type, and with the logger's error when logging a closed
    /// position fails.
    #[verifier::loop_isolation(false)]
    #[verifier::rlimit(100)]
    #[verifier::spinoff_prover]
    pub fn run_backtest(&self, samples: &Vec<Sample>, candidate: &Candidate) -> (r: Result<
        PositionBacktestResult,
        String,
    >)
        requires
            self.initial_cash > 0,
        ensures
            samples@.len() <= candidate.strategy.sma_config.long_window ==> (r is Err
                && r->Err_0@ == "Not enough data"@),
            r is Ok ==> samples@.len() > candidate.strategy.sma_config.long_window
                && !spec_pos_final(
                samples@,
                candidate.strategy,
                crate::num::spec_clamp_frac(candidate.buy_sell_fraction) as int,
                self.initial_cash as int,
            ).overflow && spec_pos_result_ok(
                r->Ok_0,
                samples@,
                candidate.strategy,
                crate::num::spec_clamp_frac(candidate.buy_sell_fraction) as int,
                self.initial_cash as int,
            ),
            (self.logger.spec_log_ok() && samples@.len()
                > candidate.strategy.sma_config.long_window && !spec_pos_final(
                samples@,
                candidate.strategy,
                crate::num::spec_clamp_frac(candidate.buy_sell_fraction) as int,
                self.initial_cash as int,
            ).overflow) ==> r is Ok,
    {
        let strat = candidate.strategy;
        let n = samples.len();
        if n <= strat.sma_config.long_window {
            return Err("Not enough data".to_owned());
        }

        let initial_equity = self.initial_cash;
        let buy_frac = crate::num::clamp_frac(candidate.buy_sell_fraction);
        let ghost fracg = buy_frac as int;
        let ghost init = self.initial_cash as int;

        let mut prices: Vec<i64> = Vec::new();
        let mut equity_curve: Vec<(i64, i64)> = Vec::new();
        let mut open: Option<Position> = None;
        let mut closed: Vec<Position> = Vec::new();
        let mut cash = self.initial_cash;

        let mut i: usize = 0;
        while i < n
            invariant
                0 <= i <= n,
                prices@ == spec_prices_of(samples@, i as int),
                ({
                    let st = spec_pos_run(samples@, strat, fracg, init, i as int);
                    &&& !st.overflow
                    &&& cash == st.cash
                    &&& (match (open, st.open_pos) {
                        (Some(p), Some(s)) => pos_matches(p, s) && p.entry_collateral_gross >= 0
                            && p.size >= 0,
                        (None, None) => true,
                        _ => false,
                    })
                    &&& positions_match(closed@, st.closed)
                    &&& equity_curve@ == st.curve
                }),
            decreases n - i,
        {
            let ghost st = spec_pos_run(samples@, strat, fracg, init, i as int);
            let ghost st_next = spec_pos_step(st, samples@, i as int, strat, fracg);
            let candle = samples[i];
            let price = candle.price;
            prices.push(price);
            proof {
                assert(samples@.take(i + 1).drop_last() =~= samples@.take(i as int));
                assert(prices@ =~= spec_prices_of(samples@, i + 1));
            }

            let liq: i128 = match &open {
                Some(p) => position_liquidation_value(p, price),
                None => 0,
            };
            proof {
                if st.open_pos is Some {
                    assert(pos_matches(open->0, st.open_pos->0));
                    assert(liq == spec_position_liq(st.open_pos->0, price as int));
                }
            }
            let equity_w: i128 = (cash as i128) + liq;
            proof {
                assert(equity_w as int == st.cash + (match st.open_pos {
                    Some(p) => spec_position_liq(p, samples@[i as int].price as int),
                    None => 0int,
                }));
            }
            if equity_w > i64::MAX as i128 || equity_w < i64::MIN as i128 {
                proof {
                    assert(st_next.overflow);
                    assert(spec_pos_run(samples@, strat, fracg, init, i + 1) == st_next);
                    lemma_pos_overflow_persists(samples@, strat, fracg, init, i + 1, n as int);
                }
                return Err("Numeric overflow".to_owned());
            }
            let equity = equity_w as i64;
            equity_curve.push((candle.ts, equity));
            let ghost st1 = PosState { curve: st.curve.push((candle.ts as i64, equity)), ..st };
            proof {
                assert(equity_curve@ =~= st1.curve);
            }

            if prices.len() <= strat.sma_config.long_window {
                proof {
                    assert(st_next == st1);
                }
                i = i + 1;
                continue;
            }

            let smas = match compute_smas(&prices, strat.sma_config) {
                Some(s) => s,
                None => {
                    proof {
                        assert(st_next == st1);
                    }
                    i = i + 1;
                    continue;
                },
            };
            proof {
                assert(prices@.subrange(0, prices@.len() - 1) =~= prices@.drop_last());
                assert(smas == spec_smas_of(prices@, strat.sma_config));
            }

            let hourly_prefix_len = i + 1;
            let analysis = analyze_prefix(samples, hourly_prefix_len, &prices, smas, strat);
            let signal = crate::backtest::common::suggestion_to_signal(analysis.suggestion.as_str());
            let ghost decision = spec_suggest(prices@, smas, strat);
            proof {
                reveal_strlit("BUY");
                reveal_strlit("SELL");
                reveal_strlit("HOLD");
                assert("BUY"@.len() == 3 && "SELL"@.len() == 4 && "HOLD"@.len() == 4);
                assert("HOLD"@[0] == 'H' && "SELL"@[0] == 'S');
                assert(match decision.0 {
                    Action::Buy => signal == Some(Signal::Buy),
                    Action::Sell => signal == Some(Signal::Sell),
                    Action::Hold => signal is None,
                });
            }

            match signal {
                Some(signal) => {
                    let want_side = PositionSide::from(signal);
                    proof {
                        assert(want_side == spec_side_of(signal));
                    }
                    let same_side = match &open {
                        Some(p) => p.side == want_side,
                        None => false,
                    };
                    if !same_side {
                        let mut cash_w: i128 = cash as i128;
                        if let Some(pos) = open.take() {
                            let closed_pos = close_position(
                                pos,
                                price,
                                candle.ts,
                                analysis.reason.clone(),
                            );
                            match self.logger.log(&closed_pos) {
                                Ok(_) => {},
                                Err(e) => {
                                    return Err(e);
                                },
                            }
                            cash_w = cash_w + (closed_pos.entry_collateral_gross as i128) + (
                            match closed_pos.profit {
                                Some(p) => p,
                                None => 0,
                            });
                            closed.push(closed_pos);
                        }
                        if cash_w > i64::MAX as i128 || cash_w < i64::MIN as i128 {
                            proof {
                                assert(st_next.overflow);
                                assert(spec_pos_run(samples@, strat, fracg, init, i + 1)
                                    == st_next);
                                lemma_pos_overflow_persists(
                                    samples@,
                                    strat,
                                    fracg,
                                    init,
                                    i + 1,
                                    n as int,
                                );
                            }
                            return Err("Numeric overflow".to_owned());
                        }
                        cash = cash_w as i64;
                        if let Some(pos) = open_position(
                            want_side,
                            price,
                            candle.ts,
                            &mut cash,
                            buy_frac,
                            analysis.reason,
                        ) {
                            open = Some(pos);
                        }
                    }
                },
                None => {},
            }
            proof {
                assert(spec_pos_run(samples@, strat, fracg, init, i + 1) == st_next);
            }
            i = i + 1;
        }

        // Force-close any open position at the last sample.
        let ghost st_all = spec_pos_run(samples@, strat, fracg, init, n as int);
        let ghost fin = spec_pos_final(samples@, strat, fracg, init);
        if let Some(pos) = open.take() {
            let last = samples[n - 1];
            let closed_pos = close_position(pos, last.price, last.ts, "EOF".to_owned());
            match self.logger.log(&closed_pos) {
                Ok(_) => {},
                Err(e) => {
                    return Err(e);
                },
            }
            let cash_w: i128 = (cash as i128) + (closed_pos.entry_collateral_gross as i128) + (
            match closed_pos.profit {
                Some(p) => p,
                None => 0,
            });
            if cash_w > i64::MAX as i128 || cash_w < i64::MIN as i128 {
                return Err("Numeric overflow".to_owned());
            }
            cash = cash_w as i64;
            closed.push(closed_pos);
        }
        proof {
            assert(!fin.overflow);
            assert(cash == fin.cash);
            assert(positions_match(closed@, fin.closed));
            assert(equity_curve@ == fin.curve);
        }

        let final_equity = cash;
        let wide = crate::num::mul_i64_wide(final_equity, PPM);
        proof {
            crate::num::lemma_div_euclid_in_range(wide as int, initial_equity as int);
        }
        let ret_w: i128 = wide.checked_div_euclid(initial_equity as i128).unwrap();
        let total_return_ppm: i128 = ret_w - (PPM as i128);

        let max_drawdown_ppm = crate::backtest::common::compute_max_drawdown(&equity_curve);
        let win_rate_ppm = compute_win_rate(&closed);

        Ok(
            PositionBacktestResult {
                initial_equity,
                positions: closed,
                equity_curve,
                final_equity,
                total_return_ppm,
                max_drawdown_ppm,
                win_rate_ppm,
            },
        )
    }
}

impl crate::backtest::common::TradingMetrics for PositionBacktestResult {
    open spec fn spec_total_return_ppm(&self) -> i128 {
        self.total_return_ppm
    }

    open spec fn spec_max_drawdown_ppm(&self) -> i128 {
        self.max_drawdown_ppm
    }

    fn total_return_ppm(&self) -> (r: i128)
    {
        self.total_return_ppm
    }

    fn max_drawdown_ppm(&self) -> (r: i128)
    {
        self.max_drawdown_ppm
    }
}

impl<L: PositionLogger> crate::backtest::common::Backtester for PositionBacktester<L> {
    type Output = PositionBacktestResult;

    open spec fn spec_valid(&self) -> bool {
        self.initial_cash > 0
    }

    open spec fn spec_reliable(&self) -> bool {
        self.logger.spec_log_ok()
    }

    open spec fn spec_result(
        &self,
        samples: Seq<Sample>,
        strategy: StrategyConfig,
        frac: i64,
    ) -> Option<(i128, i128)> {
        let fr = crate::num::spec_clamp_frac(frac) as int;
        let fin = spec_pos_final(samples, strategy, fr, self.initial_cash as int);
        if samples.len() > strategy.sma_config.long_window && !fin.overflow {
            Some(
                (
                    (fin.cash * (PPM as int) / (self.initial_cash as int) - PPM) as i128,
                    crate::backtest::common::spec_max_drawdown(
                        fin.curve,
                        fin.curve.len() as int,
                    ) as i128,
                ),
            )
        } else {
            None
        }
    }

    fn run_backtest(&self, samples: &Vec<Sample>, candidate: &Candidate) -> (r: Result<
        PositionBacktestResult,
        String,
    >) {
        let r = PositionBacktester::<L>::run_backtest(self, samples, candidate);
        r
    }
}

/// Run the analysis on the first `upto` samples, as the replay loop sees
/// them.
fn analyze_prefix(
    samples: &Vec<Sample>,
    upto: usize,
    prices: &Vec<i64>,
    smas: Smas,
    strategy: StrategyConfig,
) -> (r: crate::signal::AnalysisResult)
    requires
        1 <= upto <= samples@.len(),
        prices@.len() >= 1,
    ensures
        r.suggestion@ == spec_action_label(spec_suggest(prices@, smas, strategy).0),
        r.reason@ == spec_suggest(prices@, smas, strategy).1,
{
    let mut hourly: Vec<Sample> = Vec::new();
    let mut j: usize = 0;
    while j < upto
        invariant
            0 <= j <= upto <= samples@.len(),
            hourly@ == samples@.take(j as int),
        decreases upto - j,
    {
        hourly.push(samples[j]);
        proof {
            assert(hourly@ =~= samples@.take(j + 1));
        }
        j = j + 1;
    }
    analyze(&hourly, prices, smas, strategy)
}

} // verus!
