//! The fractional spot-accumulation replay engine: buys invest a fraction
//! of cash, sells realize a fraction of the held coin against a
//! proportional share of the cumulative cost basis. Remaining coin is
//! marked to market at the end of data, not realized.

use vstd::prelude::*;

use crate::backtest::common::{spec_max_drawdown, Candidate};
use crate::data::Sample;
use crate::indicators::compute_smas;
use crate::num::PPM;
use crate::signal::{spec_suggest, Action, StrategyConfig};

verus! {

/// The flat-fee denominator: fees are quoted in basis points.
pub const BPS: i64 = 10_000;

/// One partial-sell event against the average cost basis. Money values
/// are fixed-point units, prices are per whole coin, the return is in
/// parts per million.
#[derive(Debug, Clone)]
pub struct Trade {
    pub entry_time: i64,
    pub exit_time: i64,
    pub entry_price: i64,
    pub exit_price: i64,
    pub entry_value: i64,
    pub exit_value: i64,
    pub profit: i128,
    pub return_ppm: i128,
}

/// The specification-level image of a trade.
pub struct SpecTrade {
    pub entry_time: int,
    pub exit_time: int,
    pub entry_price: int,
    pub exit_price: int,
    pub entry_value: int,
    pub exit_value: int,
    pub profit: int,
    pub return_ppm: int,
}

pub open spec fn trade_matches(t: Trade, s: SpecTrade) -> bool {
    &&& t.entry_time == s.entry_time
    &&& t.exit_time == s.exit_time
    &&& t.entry_price == s.entry_price
    &&& t.exit_price == s.exit_price
    &&& t.entry_value == s.entry_value
    &&& t.exit_value == s.exit_value
    &&& t.profit == s.profit
    &&& t.return_ppm == s.return_ppm
}

pub open spec fn trades_match(ts: Seq<Trade>, ss: Seq<SpecTrade>) -> bool {
    &&& ts.len() == ss.len()
    &&& forall|i: int| 0 <= i < ts.len() ==> trade_matches(#[trigger] ts[i], ss[i])
}

/// The clamped fee multiplier numerator: of every gross amount,
/// `keep / BPS` survives the flat fee.
pub open spec fn spec_fee_keep(fee_bps: i64) -> int {
    if fee_bps < 0 {
        BPS as int
    } else if fee_bps > BPS {
        0
    } else {
        BPS - fee_bps
    }
}

/// The portfolio state of the spot-accumulation replay.
pub struct SpotState {
    pub cash: int,
    pub coin: int,
    pub cost_basis_total: int,
    pub in_position: bool,
    pub entry_time: int,
    pub avg_entry_price: int,
    pub trades: Seq<SpecTrade>,
    pub curve: Seq<(i64, i64)>,
    pub overflow: bool,
}

/// One step of the spot replay: mark to market, then (once enough history
/// exists) invest on a buy or realize on a sell. The overflow flag is set,
/// and the state frozen, as soon as a stored value would leave the money
/// type.
pub open spec fn spec_spot_step(
    st: SpotState,
    samples: Seq<Sample>,
    i: int,
    strat: StrategyConfig,
    frac: int,
    keep: int,
) -> SpotState {
    if st.overflow {
        st
    } else {
        let price = samples[i].price as int;
        let ts = samples[i].ts;
        let equity = st.cash + st.coin * price / (PPM as int);
        if equity > i64::MAX || equity < i64::MIN {
            SpotState { overflow: true, ..st }
        } else {
            let st1 = SpotState { curve: st.curve.push((ts, equity as i64)), ..st };
            let prices = crate::backtest::position::spec_prices_of(samples, i + 1);
            if i + 1 <= strat.sma_config.long_window
                || !crate::indicators::sma::spec_smas_available(i + 1, strat.sma_config) {
                st1
            } else {
                let smas = crate::backtest::position::spec_smas_of(prices, strat.sma_config);
                let decision = spec_suggest(prices, smas, strat);
                match decision.0 {
                    Action::Buy => spec_spot_buy(st1, price, ts as int, frac, keep),
                    Action::Sell => spec_spot_sell(st1, price, ts as int, frac, keep),
                    Action::Hold => st1,
                }
            }
        }
    }
}

/// A buy: invest `cash * frac` gross, net of the fee, converted to coin
/// at the current price.
pub open spec fn spec_spot_buy(st: SpotState, price: int, ts: int, frac: int, keep: int) -> SpotState {
    if frac <= 0 || st.cash <= 0 || price <= 0 {
        st
    } else {
        let invest_gross = st.cash * frac / (PPM as int);
        if invest_gross <= 0 {
            st
        } else {
            let invest_net = invest_gross * keep / (BPS as int);
            let qty = invest_net * (PPM as int) / price;
            if qty <= 0 {
                st
            } else {
                let entering = !st.in_position && st.coin == 0;
                let coin2 = st.coin + qty;
                let basis2 = st.cost_basis_total + invest_net;
                if coin2 > i64::MAX || basis2 > i64::MAX {
                    SpotState { overflow: true, ..st }
                } else {
                    let avg2 = if coin2 > 0 {
                        basis2 * (PPM as int) / coin2
                    } else {
                        0
                    };
                    if avg2 > i64::MAX || avg2 < i64::MIN {
                        SpotState { overflow: true, ..st }
                    } else {
                        SpotState {
                            cash: st.cash - invest_gross,
                            coin: coin2,
                            cost_basis_total: basis2,
                            in_position: if entering {
                                true
                            } else {
                                st.in_position
                            },
                            entry_time: if entering {
                                ts
                            } else {
                                st.entry_time
                            },
                            avg_entry_price: avg2,
                            ..st
                        }
                    }
                }
            }
        }
    }
}

/// A sell: realize `coin * frac` against a proportional share of the
/// cost basis, recording one trade.
pub open spec fn spec_spot_sell(st: SpotState, price: int, ts: int, frac: int, keep: int) -> SpotState {
    if frac <= 0 || st.coin <= 0 || price <= 0 {
        st
    } else {
        let pos_before = st.coin;
        let sell_qty = pos_before * frac / (PPM as int);
        if sell_qty <= 0 {
            st
        } else {
            let gross = sell_qty * price / (PPM as int);
            if gross > i64::MAX {
                SpotState { overflow: true, ..st }
            } else {
                let exit_value = gross * keep / (BPS as int);
                let has_basis = st.cost_basis_total > 0;
                let chunk_basis = if has_basis {
                    st.cost_basis_total * sell_qty / pos_before
                } else {
                    0
                };
                let avg_entry = if has_basis {
                    chunk_basis * (PPM as int) / sell_qty
                } else {
                    st.avg_entry_price
                };
                let basis2 = if has_basis {
                    st.cost_basis_total - chunk_basis
                } else {
                    st.cost_basis_total
                };
                let cash2 = st.cash + exit_value;
                if avg_entry > i64::MAX || avg_entry < i64::MIN || cash2 > i64::MAX {
                    SpotState { overflow: true, ..st }
                } else {
                    let coin2 = pos_before - sell_qty;
                    let profit = exit_value - chunk_basis;
                    let ret = if chunk_basis > 0 {
                        exit_value * (PPM as int) / chunk_basis - PPM
                    } else {
                        0
                    };
                    let trade = SpecTrade {
                        entry_time: st.entry_time,
                        exit_time: ts,
                        entry_price: avg_entry,
                        exit_price: price,
                        entry_value: chunk_basis,
                        exit_value,
                        profit,
                        return_ppm: ret,
                    };
                    let emptied = coin2 <= 0;
                    SpotState {
                        cash: cash2,
                        coin: coin2,
                        cost_basis_total: if emptied {
                            0
                        } else {
                            basis2
                        },
                        in_position: if emptied {
                            false
                        } else {
                            st.in_position
                        },
                        avg_entry_price: if emptied {
                            0
                        } else {
                            avg_entry
                        },
                        trades: st.trades.push(trade),
                        ..st
                    }
                }
            }
        }
    }
}

/// The initial spot state: pre-existing coin counts as bought at the
/// first price with no fee.
pub open spec fn spec_spot_initial(
    samples: Seq<Sample>,
    initial_cash: int,
    initial_coin: int,
) -> SpotState {
    let first_price = if samples[0].price > 0 {
        samples[0].price as int
    } else {
        0
    };
    let basis = initial_coin * first_price / (PPM as int);
    SpotState {
        cash: initial_cash,
        coin: initial_coin,
        cost_basis_total: basis,
        in_position: initial_coin > 0,
        entry_time: samples[0].ts as int,
        avg_entry_price: if initial_coin > 0 {
            first_price
        } else {
            0
        },
        trades: Seq::empty(),
        curve: Seq::empty(),
        overflow: basis > i64::MAX || basis < i64::MIN,
    }
}

/// The replay state after the first `n` samples.
pub open spec fn spec_spot_run(
    samples: Seq<Sample>,
    strat: StrategyConfig,
    frac: int,
    keep: int,
    initial_cash: int,
    initial_coin: int,
    n: int,
) -> SpotState
    decreases n,
{
    if n <= 0 {
        spec_spot_initial(samples, initial_cash, initial_coin)
    } else {
        spec_spot_step(
            spec_spot_run(samples, strat, frac, keep, initial_cash, initial_coin, n - 1),
            samples,
            n - 1,
            strat,
            frac,
            keep,
        )
    }
}

proof fn lemma_spot_overflow_persists(
    samples: Seq<Sample>,
    strat: StrategyConfig,
    frac: int,
    keep: int,
    initial_cash: int,
    initial_coin: int,
    i: int,
    n: int,
)
    requires
        0 <= i <= n,
        spec_spot_run(samples, strat, frac, keep, initial_cash, initial_coin, i).overflow,
    ensures
        spec_spot_run(samples, strat, frac, keep, initial_cash, initial_coin, n).overflow,
    decreases n - i,
{
    if i < n {
        lemma_spot_overflow_persists(samples, strat, frac, keep, initial_cash, initial_coin, i, n - 1);
    }
}

/// The number of trades with positive realized profit.
pub open spec fn spec_count_trade_wins(ts: Seq<Trade>) -> int
    decreases ts.len(),
{
    if ts.len() == 0 {
        0
    } else {
        spec_count_trade_wins(ts.drop_last()) + (
        if ts.last().profit > 0 {
            1int
        } else {
            0int
        })
    }
}

/// The fraction of trades with positive profit, in parts per million;
/// zero when nothing was realized.
pub open spec fn spec_trade_win_rate(ts: Seq<Trade>) -> int {
    if ts.len() == 0 {
        0
    } else {
        spec_count_trade_wins(ts) * (PPM as int) / ts.len() as int
    }
}

proof fn lemma_count_trade_wins_bounds(ts: Seq<Trade>)
    ensures
        0 <= spec_count_trade_wins(ts) <= ts.len(),
    decreases ts.len(),
{
    if ts.len() > 0 {
        lemma_count_trade_wins_bounds(ts.drop_last());
    }
}

fn compute_win_rate(trades: &Vec<Trade>) -> (r: i64)
    ensures
        r == spec_trade_win_rate(trades@),
        0 <= r <= PPM,
{
    let n = trades.len();
    if n == 0 {
        return 0;
    }
    let mut wins: usize = 0;
    let mut i: usize = 0;
    while i < n
        invariant
            0 <= i <= n,
            n == trades@.len(),
            wins == spec_count_trade_wins(trades@.take(i as int)),
            wins <= i,
        decreases n - i,
    {
        proof {
            assert(trades@.take(i + 1).drop_last() =~= trades@.take(i as int));
            assert(trades@.take(i + 1).last() == trades@[i as int]);
        }
        if trades[i].profit > 0 {
            wins = wins + 1;
        }
        i = i + 1;
    }
    proof {
        assert(trades@.take(n as int) =~= trades@);
        lemma_count_trade_wins_bounds(trades@);
        vstd::arithmetic::div_mod::lemma_div_is_ordered(
            spec_count_trade_wins(trades@) * PPM,
            (n as int) * (PPM as int),
            n as int,
        );
        vstd::arithmetic::div_mod::lemma_div_multiples_vanish(PPM as int, n as int);
        assert((n as int) * (PPM as int) == (PPM as int) * (n as int)) by (nonlinear_arith);
        assert(spec_count_trade_wins(trades@) * PPM >= 0) by (nonlinear_arith)
            requires
                spec_count_trade_wins(trades@) >= 0,
        ;
        vstd::arithmetic::div_mod::lemma_div_is_ordered(
            0,
            spec_count_trade_wins(trades@) * PPM,
            n as int,
        );
    }
    let wide: u128 = (wins as u128) * (PPM as u128);
    let rate = (wide / (n as u128)) as i64;
    rate
}

/// Buy-and-hold equity for a starting mix of cash and coin: everything
/// converted to coin at the first price and marked at the last.
pub fn buy_and_hold_equity(hourly: &Vec<Sample>, initial_cash: i64, initial_coin: i64) -> (r:
    Option<i64>)
    ensures
        r is Some <==> ({
            let n = hourly@.len();
            let qty = (initial_cash as int) * (PPM as int) / (hourly@[0].price as int)
                + initial_coin;
            &&& n >= 1
            &&& hourly@[0].price > 0
            &&& i64::MIN <= qty <= i64::MAX
            &&& i64::MIN <= qty * (hourly@.last().price as int) / (PPM as int) <= i64::MAX
        }),
        r is Some ==> r->0 == ((initial_cash as int) * (PPM as int) / (hourly@[0].price as int)
            + initial_coin) * (hourly@.last().price as int) / (PPM as int),
{
    if hourly.len() == 0 {
        return None;
    }
    let first = hourly[0].price;
    let last = hourly[hourly.len() - 1].price;
    if first <= 0 {
        return None;
    }
    let prod = crate::num::mul_i64_wide(initial_cash, PPM);
    proof {
        crate::num::lemma_div_euclid_in_range(prod as int, first as int);
    }
    let qty_w = prod.checked_div_euclid(first as i128).unwrap() + (initial_coin as i128);
    if qty_w < i64::MIN as i128 || qty_w > i64::MAX as i128 {
        return None;
    }
    let qty = qty_w as i64;
    let wide = crate::num::mul_i64_wide(qty, last);
    proof {
        crate::num::lemma_div_euclid_in_range(wide as int, PPM as int);
    }
    let equity_w = wide.checked_div_euclid(PPM as i128).unwrap();
    if equity_w < i64::MIN as i128 || equity_w > i64::MAX as i128 {
        return None;
    }
    Some(equity_w as i64)
}

/// The result of one spot-accumulation run. Returns, drawdown and win
/// rate are in parts per million.
#[derive(Debug, Clone)]
pub struct SpotBacktestResult {
    pub initial_equity: i64,
    pub trades: Vec<Trade>,
    pub equity_curve: Vec<(i64, i64)>,
    pub final_equity: i64,
    pub total_return_ppm: i128,
    pub max_drawdown_ppm: i128,
    pub win_rate_ppm: i64,
}

/// The spot-accumulation simulator: initial cash, initial coin, and a
/// flat fee in basis points (clamped into `[0, BPS]` when applied).
#[derive(Clone, Copy)]
pub struct SpotBacktester {
    pub initial_cash: i64,
    pub initial_coin: i64,
    pub fee_bps: i64,
}

impl SpotBacktester {
    pub fn new(initial_cash: i64, initial_coin: i64, fee_bps: i64) -> (r: Self)
        ensures
            r.initial_cash == initial_cash,
            r.initial_coin == initial_coin,
            r.fee_bps == fee_bps,
    {
        Self { initial_cash, initial_coin, fee_bps }
    }
}

/// When a spot run succeeds: enough data, no overflow along the replay,
/// and initial and final equity fit the money type.
pub open spec fn spec_spot_success(
    bt: SpotBacktester,
    samples: Seq<Sample>,
    strat: StrategyConfig,
    frac: int,
) -> bool {
    let keep = spec_fee_keep(bt.fee_bps);
    let fin = spec_spot_run(
        samples,
        strat,
        frac,
        keep,
        bt.initial_cash as int,
        bt.initial_coin as int,
        samples.len() as int,
    );
    let first_price = if samples[0].price > 0 {
        samples[0].price as int
    } else {
        0
    };
    let initial_equity = bt.initial_cash + bt.initial_coin * first_price / (PPM as int);
    let final_equity = fin.cash + fin.coin * (samples.last().price as int) / (PPM as int);
    &&& samples.len() > strat.sma_config.long_window
    &&& !fin.overflow
    &&& i64::MIN <= initial_equity <= i64::MAX
    &&& i64::MIN <= final_equity <= i64::MAX
}

/// What a finished spot run must look like, relative to the replay
/// specification.
pub open spec fn spec_spot_result_ok(
    res: SpotBacktestResult,
    samples: Seq<Sample>,
    strat: StrategyConfig,
    frac: int,
    keep: int,
    initial_cash: int,
    initial_coin: int,
) -> bool {
    let fin = spec_spot_run(samples, strat, frac, keep, initial_cash, initial_coin, samples.len() as int);
    let initial_equity = initial_cash + initial_coin * (
    if samples[0].price > 0 {
        samples[0].price as int
    } else {
        0
    }) / (PPM as int);
    let final_equity = fin.cash + fin.coin * (samples.last().price as int) / (PPM as int);
    let effective_initial = if initial_equity > 0 {
        initial_equity
    } else {
        1
    };
    &&& res.initial_equity == initial_equity
    &&& res.final_equity == final_equity
    &&& trades_match(res.trades@, fin.trades)
    &&& res.equity_curve@ == fin.curve
    &&& res.total_return_ppm == (final_equity * (PPM as int)) / effective_initial - PPM
    &&& res.max_drawdown_ppm == spec_max_drawdown(fin.curve, fin.curve.len() as int)
    &&& res.win_rate_ppm == spec_trade_win_rate(res.trades@)
}

impl SpotBacktester {
    /// Replay the samples: mark to market each step, follow the decision
    /// engine once enough history exists, investing on buys and realizing
    /// partial trades on sells. Remaining coin is marked to market in the
    /// final equity but not realized.
    ///
    /// Fails with "Not enough data" when fewer than `long_window + 1`
    /// samples exist, and with "Numeric overflow" when a stored value
    /// leaves the money type.
    #[verifier::loop_isolation(false)]
    #[verifier::rlimit(100)]
    #[verifier::spinoff_prover]
    pub fn run_backtest(&self, samples: &Vec<Sample>, candidate: &Candidate) -> (r: Result<
        SpotBacktestResult,
        String,
    >)
        ensures
            samples@.len() <= candidate.strategy.sma_config.long_window ==> (r is Err
                && r->Err_0@ == "Not enough data"@),
            r is Ok <==> spec_spot_success(
                *self,
                samples@,
                candidate.strategy,
                crate::num::spec_clamp_frac(candidate.buy_sell_fraction) as int,
            ),
            r is Ok ==> spec_spot_result_ok(
                r->Ok_0,
                samples@,
                candidate.strategy,
                crate::num::spec_clamp_frac(candidate.buy_sell_fraction) as int,
                spec_fee_keep(self.fee_bps),
                self.initial_cash as int,
                self.initial_coin as int,
            ),
            r is Err ==> (r->Err_0@ == "Not enough data"@ || r->Err_0@ == "Numeric overflow"@),
    {
        let strat = candidate.strategy;
        let n = samples.len();
        if n <= strat.sma_config.long_window {
            return Err("Not enough data".to_owned());
        }

        let first_price = if samples[0].price > 0 {
            samples[0].price
        } else {
            0
        };
        let basis_w = crate::num::mul_i64_wide(self.initial_coin, first_price);
        proof {
            crate::num::lemma_div_euclid_in_range(basis_w as int, PPM as int);
        }
        let basis0 = basis_w.checked_div_euclid(PPM as i128).unwrap();
        if basis0 > i64::MAX as i128 || basis0 < i64::MIN as i128 {
            proof {
                let ghost fr = crate::num::spec_clamp_frac(candidate.buy_sell_fraction) as int;
                let ghost kp = spec_fee_keep(self.fee_bps);
                assert(spec_spot_initial(samples@, self.initial_cash as int, self.initial_coin as int).overflow);
                lemma_spot_overflow_persists(
                    samples@,
                    strat,
                    fr,
                    kp,
                    self.initial_cash as int,
                    self.initial_coin as int,
                    0,
                    n as int,
                );
            }
            return Err("Numeric overflow".to_owned());
        }
        let init_eq_w: i128 = (self.initial_cash as i128) + basis0;
        if init_eq_w > i64::MAX as i128 || init_eq_w < i64::MIN as i128 {
            return Err("Numeric overflow".to_owned());
        }
        let initial_equity = init_eq_w as i64;

        let keep: i64 = if self.fee_bps < 0 {
            BPS
        } else if self.fee_bps > BPS {
            0
        } else {
            BPS - self.fee_bps
        };
        let buy_sell_frac = crate::num::clamp_frac(candidate.buy_sell_fraction);
        let ghost fracg = buy_sell_frac as int;
        let ghost keepg = keep as int;
        let ghost initc = self.initial_cash as int;
        let ghost initk = self.initial_coin as int;

        let mut prices: Vec<i64> = Vec::new();
        let mut equity_curve: Vec<(i64, i64)> = Vec::new();
        let mut trades: Vec<Trade> = Vec::new();

        let mut cash = self.initial_cash;
        let mut coin = self.initial_coin;
        let mut cost_basis_total = basis0 as i64;
        let mut in_position = self.initial_coin > 0;
        let mut entry_time = samples[0].ts;
        let mut avg_entry_price: i64 = if coin > 0 {
            first_price
        } else {
            0
        };

        let mut i: usize = 0;
        while i < n
            invariant
                0 <= i <= n,
                prices@ == crate::backtest::position::spec_prices_of(samples@, i as int),
                ({
                    let st = spec_spot_run(samples@, strat, fracg, keepg, initc, initk, i as int);
                    &&& !st.overflow
                    &&& cash == st.cash
                    &&& coin == st.coin
                    &&& cost_basis_total == st.cost_basis_total
                    &&& in_position == st.in_position
                    &&& entry_time == st.entry_time
                    &&& avg_entry_price == st.avg_entry_price
                    &&& trades_match(trades@, st.trades)
                    &&& equity_curve@ == st.curve
                }),
            decreases n - i,
        {
            let ghost st = spec_spot_run(samples@, strat, fracg, keepg, initc, initk, i as int);
            let ghost st_next = spec_spot_step(st, samples@, i as int, strat, fracg, keepg);
            let candle = samples[i];
            let price = candle.price;
            prices.push(price);
            proof {
                assert(samples@.take(i + 1).drop_last() =~= samples@.take(i as int));
                assert(prices@ =~= crate::backtest::position::spec_prices_of(samples@, i + 1));
            }

            let marked_w = crate::num::mul_i64_wide(coin, price);
            proof {
                crate::num::lemma_div_euclid_in_range(marked_w as int, PPM as int);
            }
            let marked = marked_w.checked_div_euclid(PPM as i128).unwrap();
            let equity_w: i128 = (cash as i128) + marked;
            if equity_w > i64::MAX as i128 || equity_w < i64::MIN as i128 {
                proof {
                    assert(st_next.overflow);
                    assert(spec_spot_run(samples@, strat, fracg, keepg, initc, initk, i + 1)
                        == st_next);
                    lemma_spot_overflow_persists(
                        samples@,
                        strat,
                        fracg,
                        keepg,
                        initc,
                        initk,
                        i + 1,
                        n as int,
                    );
                }
                return Err("Numeric overflow".to_owned());
            }
            let equity = equity_w as i64;
            equity_curve.push((candle.ts, equity));
            let ghost st1 = SpotState { curve: st.curve.push((candle.ts as i64, equity)), ..st };
            proof {
                assert(equity_curve@ =~= st1.curve);
            }

            if prices.len() <= strat.sma_config.long_window {
                proof {
                    assert(st_next == st1);
                }
                i = i + 1;
                continue;
            }

            let smas = match compute_smas(&prices, strat.sma_config) {
                Some(s) => s,
                None => {
                    proof {
                        assert(st_next == st1);
                    }
                    i = i + 1;
                    continue;
                },
            };
            proof {
                assert(prices@.subrange(0, prices@.len() - 1) =~= prices@.drop_last());
                assert(smas == crate::backtest::position::spec_smas_of(prices@, strat.sma_config));
            }

            let decision = crate::signal::suggest_action(&prices, smas, strat);

            match decision.0 {
                Action::Buy => {
                    let ghost stb = spec_spot_buy(st1, price as int, candle.ts as int, fracg, keepg);
                    proof {
                        assert(st_next == stb);
                    }
                    if buy_sell_frac <= 0 || cash <= 0 || price <= 0 {
                        i = i + 1;
                        continue;
                    }
                    proof {
                        assert((cash as int) * (fracg) <= (cash as int) * (PPM as int))
                            by (nonlinear_arith)
                            requires
                                0 < cash,
                                0 < fracg <= PPM,
                        ;
                        vstd::arithmetic::div_mod::lemma_div_is_ordered(
                            (cash as int) * fracg,
                            (cash as int) * (PPM as int),
                            PPM as int,
                        );
                        vstd::arithmetic::div_mod::lemma_div_multiples_vanish(
                            cash as int,
                            PPM as int,
                        );
                        assert((PPM as int) * (cash as int) == (cash as int) * (PPM as int))
                            by (nonlinear_arith);
                        vstd::arithmetic::div_mod::lemma_div_is_ordered(
                            0,
                            (cash as int) * fracg,
                            PPM as int,
                        );
                        assert((cash as int) * fracg >= 0) by (nonlinear_arith)
                            requires
                                0 < cash,
                                0 < fracg,
                        ;
                    }
                    let invest_gross = (((cash as u128) * (buy_sell_frac as u128)) / (
                    PPM as u128)) as i64;
                    if invest_gross <= 0 {
                        i = i + 1;
                        continue;
                    }
                    proof {
                        assert((invest_gross as int) * keepg <= (invest_gross as int) * (
                        BPS as int)) by (nonlinear_arith)
                            requires
                                0 < invest_gross,
                                0 <= keepg <= BPS,
                        ;
                        vstd::arithmetic::div_mod::lemma_div_is_ordered(
                            (invest_gross as int) * keepg,
                            (invest_gross as int) * (BPS as int),
                            BPS as int,
                        );
                        vstd::arithmetic::div_mod::lemma_div_multiples_vanish(
                            invest_gross as int,
                            BPS as int,
                        );
                        assert((BPS as int) * (invest_gross as int) == (invest_gross as int) * (
                        BPS as int)) by (nonlinear_arith);
                        assert((invest_gross as int) * keepg >= 0) by (nonlinear_arith)
                            requires
                                0 < invest_gross,
                                0 <= keepg,
                        ;
                        vstd::arithmetic::div_mod::lemma_div_is_ordered(
                            0,
                            (invest_gross as int) * keepg,
                            BPS as int,
                        );
                    }
                    let invest_net = (((invest_gross as u128) * (keep as u128)) / (
                    BPS as u128)) as i64;
                    let qty_w = ((invest_net as u128) * (PPM as u128)) / (price as u128);
                    proof {
                        vstd::arithmetic::div_mod::lemma_div_is_ordered(
                            0,
                            (invest_net as int) * (PPM as int),
                            price as int,
                        );
                        assert((invest_net as int) * (PPM as int) >= 0) by (nonlinear_arith)
                            requires
                                0 <= invest_net,
                        ;
                    }
                    if qty_w == 0 {
                        i = i + 1;
                        continue;
                    }
                    let coin2_w: i128 = (coin as i128) + (qty_w as i128);
                    let basis2_w: i128 = (cost_basis_total as i128) + (invest_net as i128);
                    if coin2_w > i64::MAX as i128 || basis2_w > i64::MAX as i128 {
                        proof {
                            assert(st_next.overflow);
                            assert(spec_spot_run(samples@, strat, fracg, keepg, initc, initk, i + 1)
                                == st_next);
                            lemma_spot_overflow_persists(
                                samples@,
                                strat,
                                fracg,
                                keepg,
                                initc,
                                initk,
                                i + 1,
                                n as int,
                            );
                        }
                        return Err("Numeric overflow".to_owned());
                    }
                    let coin2 = coin2_w as i64;
                    let basis2 = basis2_w as i64;
                    let avg2: i64 = if coin2 > 0 {
                        let avg_w = crate::num::mul_i64_wide(basis2, PPM);
                        proof {
                            crate::num::lemma_div_euclid_in_range(avg_w as int, coin2 as int);
                        }
                        let q = avg_w.checked_div_euclid(coin2 as i128).unwrap();
                        if q > i64::MAX as i128 || q < i64::MIN as i128 {
                            proof {
                                assert(st_next.overflow);
                                assert(spec_spot_run(
                                    samples@,
                                    strat,
                                    fracg,
                                    keepg,
                                    initc,
                                    initk,
                                    i + 1,
                                ) == st_next);
                                lemma_spot_overflow_persists(
                                    samples@,
                                    strat,
                                    fracg,
                                    keepg,
                                    initc,
                                    initk,
                                    i + 1,
                                    n as int,
                                );
                            }
                            return Err("Numeric overflow".to_owned());
                        }
                        q as i64
                    } else {
                        0
                    };
                    if !in_position && coin == 0 {
                        in_position = true;
                        entry_time = candle.ts;
                    }
                    cash = cash - invest_gross;
                    coin = coin2;
                    cost_basis_total = basis2;
                    avg_entry_price = avg2;
                },
                Action::Sell => {
                    let ghost sts = spec_spot_sell(st1, price as int, candle.ts as int, fracg, keepg);
                    proof {
                        assert(st_next == sts);
                    }
                    if buy_sell_frac <= 0 || coin <= 0 || price <= 0 {
                        i = i + 1;
                        continue;
                    }
                    let pos_before = coin;
                    proof {
                        assert((pos_before as int) * fracg <= (pos_before as int) * (PPM as int))
                            by (nonlinear_arith)
                            requires
                                0 < pos_before,
                                0 < fracg <= PPM,
                        ;
                        vstd::arithmetic::div_mod::lemma_div_is_ordered(
                            (pos_before as int) * fracg,
                            (pos_before as int) * (PPM as int),
                            PPM as int,
                        );
                        vstd::arithmetic::div_mod::lemma_div_multiples_vanish(
                            pos_before as int,
                            PPM as int,
                        );
                        assert((PPM as int) * (pos_before as int) == (pos_before as int) * (
                        PPM as int)) by (nonlinear_arith);
                        assert((pos_before as int) * fracg >= 0) by (nonlinear_arith)
                            requires
                                0 < pos_before,
                                0 < fracg,
                        ;
                        vstd::arithmetic::div_mod::lemma_div_is_ordered(
                            0,
                            (pos_before as int) * fracg,
                            PPM as int,
                        );
                    }
                    let sell_qty = (((pos_before as u128) * (buy_sell_frac as u128)) / (
                    PPM as u128)) as i64;
                    if sell_qty <= 0 {
                        i = i + 1;
                        continue;
                    }
                    proof {
                        assert((sell_qty as int) * (price as int) <= (i64::MAX as int) * (
                        i64::MAX as int)) by (nonlinear_arith)
                            requires
                                0 < sell_qty <= i64::MAX,
                                0 < price <= i64::MAX,
                        ;
                    }
                    let gross_w = ((sell_qty as u128) * (price as u128)) / (PPM as u128);
                    proof {
                        vstd::arithmetic::div_mod::lemma_div_is_ordered(
                            0,
                            (sell_qty as int) * (price as int),
                            PPM as int,
                        );
                        assert((sell_qty as int) * (price as int) >= 0) by (nonlinear_arith)
                            requires
                                0 < sell_qty,
                                0 < price,
                        ;
                    }
                    if gross_w > i64::MAX as u128 {
                        proof {
                            assert(st_next.overflow);
                            assert(spec_spot_run(samples@, strat, fracg, keepg, initc, initk, i + 1)
                                == st_next);
                            lemma_spot_overflow_persists(
                                samples@,
                                strat,
                                fracg,
                                keepg,
                                initc,
                                initk,
                                i + 1,
                                n as int,
                            );
                        }
                        return Err("Numeric overflow".to_owned());
                    }
                    let gross = gross_w as i64;
                    proof {
                        assert((gross as int) * keepg <= (gross as int) * (BPS as int))
                            by (nonlinear_arith)
                            requires
                                0 <= gross,
                                0 <= keepg <= BPS,
                        ;
                        vstd::arithmetic::div_mod::lemma_div_is_ordered(
                            (gross as int) * keepg,
                            (gross as int) * (BPS as int),
                            BPS as int,
                        );
                        vstd::arithmetic::div_mod::lemma_div_multiples_vanish(
                            gross as int,
                            BPS as int,
                        );
                        assert((BPS as int) * (gross as int) == (gross as int) * (BPS as int))
                            by (nonlinear_arith);
                        assert((gross as int) * keepg >= 0) by (nonlinear_arith)
                            requires
                                0 <= gross,
                                0 <= keepg,
                        ;
                        vstd::arithmetic::div_mod::lemma_div_is_ordered(
                            0,
                            (gross as int) * keepg,
                            BPS as int,
                        );
                    }
                    let exit_value = (((gross as u128) * (keep as u128)) / (BPS as u128)) as i64;
                    let has_basis = cost_basis_total > 0;
                    let chunk_basis: i64 = if has_basis {
                        proof {
                            assert((cost_basis_total as int) * (sell_qty as int) <= (
                            i64::MAX as int) * (i64::MAX as int)) by (nonlinear_arith)
                                requires
                                    0 < cost_basis_total <= i64::MAX,
                                    0 < sell_qty <= i64::MAX,
                            ;
                            assert((cost_basis_total as int) * (sell_qty as int)
                                <= (cost_basis_total as int) * (pos_before as int))
                                by (nonlinear_arith)
                                requires
                                    0 < cost_basis_total,
                                    0 < sell_qty <= pos_before,
                            ;
                            vstd::arithmetic::div_mod::lemma_div_is_ordered(
                                (cost_basis_total as int) * (sell_qty as int),
                                (cost_basis_total as int) * (pos_before as int),
                                pos_before as int,
                            );
                            vstd::arithmetic::div_mod::lemma_div_multiples_vanish(
                                cost_basis_total as int,
                                pos_before as int,
                            );
                            assert((pos_before as int) * (cost_basis_total as int) == (
                            cost_basis_total as int) * (pos_before as int)) by (nonlinear_arith);
                            assert((cost_basis_total as int) * (sell_qty as int) >= 0)
                                by (nonlinear_arith)
                                requires
                                    0 < cost_basis_total,
                                    0 < sell_qty,
                            ;
                            vstd::arithmetic::div_mod::lemma_div_is_ordered(
                                0,
                                (cost_basis_total as int) * (sell_qty as int),
                                pos_before as int,
                            );
                        }
                        (((cost_basis_total as u128) * (sell_qty as u128)) / (
                        pos_before as u128)) as i64
                    } else {
                        0
                    };
                    let avg_entry: i64 = if has_basis {
                        let avg_w = crate::num::mul_i64_wide(chunk_basis, PPM);
                        proof {
                            crate::num::lemma_div_euclid_in_range(avg_w as int, sell_qty as int);
                        }
                        let q = avg_w.checked_div_euclid(sell_qty as i128).unwrap();
                        if q > i64::MAX as i128 || q < i64::MIN as i128 {
                            proof {
                                assert(st_next.overflow);
                                assert(spec_spot_run(
                                    samples@,
                                    strat,
                                    fracg,
                                    keepg,
                                    initc,
                                    initk,
                                    i + 1,
                                ) == st_next);
                                lemma_spot_overflow_persists(
                                    samples@,
                                    strat,
                                    fracg,
                                    keepg,
                                    initc,
                                    initk,
                                    i + 1,
                                    n as int,
                                );
                            }
                            return Err("Numeric overflow".to_owned());
                        }
                        q as i64
                    } else {
                        avg_entry_price
                    };
                    let cash2_w: i128 = (cash as i128) + (exit_value as i128);
                    if cash2_w > i64::MAX as i128 {
                        proof {
                            assert(st_next.overflow);
                            assert(spec_spot_run(samples@, strat, fracg, keepg, initc, initk, i + 1)
                                == st_next);
                            lemma_spot_overflow_persists(
                                samples@,
                                strat,
                                fracg,
                                keepg,
                                initc,
                                initk,
                                i + 1,
                                n as int,
                            );
                        }
                        return Err("Numeric overflow".to_owned());
                    }
                    let basis2: i64 = if has_basis {
                        cost_basis_total - chunk_basis
                    } else {
                        cost_basis_total
                    };
                    cash = cash2_w as i64;
                    coin = pos_before - sell_qty;
                    let profit: i128 = (exit_value as i128) - (chunk_basis as i128);
                    let ret: i128 = if chunk_basis > 0 {
                        let ret_w = crate::num::mul_i64_wide(exit_value, PPM);
                        proof {
                            crate::num::lemma_div_euclid_in_range(ret_w as int, chunk_basis as int);
                        }
                        ret_w.checked_div_euclid(chunk_basis as i128).unwrap() - (PPM as i128)
                    } else {
                        0
                    };
                    trades.push(
                        Trade {
                            entry_time,
                            exit_time: candle.ts,
                            entry_price: avg_entry,
                            exit_price: price,
                            entry_value: chunk_basis,
                            exit_value,
                            profit,
                            return_ppm: ret,
                        },
                    );
                    proof {
                        assert(trades_match(trades@, st_next.trades));
                    }
                    if coin <= 0 {
                        in_position = false;
                        cost_basis_total = 0;
                        avg_entry_price = 0;
                    } else {
                        cost_basis_total = basis2;
                        avg_entry_price = avg_entry;
                    }
                },
                Action::Hold => {
                    proof {
                        assert(st_next == st1);
                    }
                },
            }
            proof {
                assert(spec_spot_run(samples@, strat, fracg, keepg, initc, initk, i + 1)
                    == st_next);
            }
            i = i + 1;
        }

        let ghost fin = spec_spot_run(samples@, strat, fracg, keepg, initc, initk, n as int);
        let last_price = samples[n - 1].price;
        let marked_w = crate::num::mul_i64_wide(coin, last_price);
        proof {
            crate::num::lemma_div_euclid_in_range(marked_w as int, PPM as int);
        }
        let marked = marked_w.checked_div_euclid(PPM as i128).unwrap();
        let final_w: i128 = (cash as i128) + marked;
        if final_w > i64::MAX as i128 || final_w < i64::MIN as i128 {
            return Err("Numeric overflow".to_owned());
        }
        let final_equity = final_w as i64;
        let effective_initial: i64 = if initial_equity > 0 {
            initial_equity
        } else {
            1
        };
        let wide = crate::num::mul_i64_wide(final_equity, PPM);
        proof {
            crate::num::lemma_div_euclid_in_range(wide as int, effective_initial as int);
        }
        let ret_w: i128 = wide.checked_div_euclid(effective_initial as i128).unwrap();
        let total_return_ppm: i128 = ret_w - (PPM as i128);

        let max_drawdown_ppm = crate::backtest::common::compute_max_drawdown(&equity_curve);
        let win_rate_ppm = compute_win_rate(&trades);

        Ok(
            SpotBacktestResult {
                initial_equity,
                trades,
                equity_curve,
                final_equity,
                total_return_ppm,
                max_drawdown_ppm,
                win_rate_ppm,
            },
        )
    }
}


impl crate::backtest::common::TradingMetrics for SpotBacktestResult {
    open spec fn spec_total_return_ppm(&self) -> i128 {
        self.total_return_ppm
    }

    open spec fn spec_max_drawdown_ppm(&self) -> i128 {
        self.max_drawdown_ppm
    }

    fn total_return_ppm(&self) -> (r: i128) {
        self.total_return_ppm
    }

    fn max_drawdown_ppm(&self) -> (r: i128) {
        self.max_drawdown_ppm
    }
}

impl crate::backtest::common::Backtester for SpotBacktester {
    type Output = SpotBacktestResult;

    open spec fn spec_valid(&self) -> bool {
        true
    }

    open spec fn spec_reliable(&self) -> bool {
        true
    }

    open spec fn spec_result(
        &self,
        samples: Seq<Sample>,
        strategy: StrategyConfig,
        frac: i64,
    ) -> Option<(i128, i128)> {
        let fr = crate::num::spec_clamp_frac(frac) as int;
        let keep = spec_fee_keep(self.fee_bps);
        let fin = spec_spot_run(
            samples,
            strategy,
            fr,
            keep,
            self.initial_cash as int,
            self.initial_coin as int,
            samples.len() as int,
        );
        let first_price = if samples[0].price > 0 {
            samples[0].price as int
        } else {
            0
        };
        let initial_equity = self.initial_cash + self.initial_coin * first_price / (PPM as int);
        let final_equity = fin.cash + fin.coin * (samples.last().price as int) / (PPM as int);
        let effective_initial = if initial_equity > 0 {
            initial_equity
        } else {
            1
        };
        if spec_spot_success(*self, samples, strategy, fr) {
            Some(
                (
                    (final_equity * (PPM as int) / effective_initial - PPM) as i128,
                    spec_max_drawdown(fin.curve, fin.curve.len() as int) as i128,
                ),
            )
        } else {
            None
        }
    }

    fn run_backtest(&self, samples: &Vec<Sample>, candidate: &Candidate) -> (r: Result<
        SpotBacktestResult,
        String,
    >) {
        let r = SpotBacktester::run_backtest(self, samples, candidate);
        r
    }
}


/// Law: a spot replay fed a single buy and then a single full sell, with
/// 100% sizing both ways and zero fees, realizes exactly one trade whose
/// entry value equals the invested cash, holds no coin afterwards, and
/// reports a final equity of exactly the initial cash plus the price
/// appreciation on the bought quantity between the two fills. Stated for
/// fills that divide exactly; otherwise the floor rounding keeps a
/// remainder out of the round trip.
pub proof fn lemma_spot_round_trip(cash: int, p1: int, p2: int, t1: int, t2: int)
    requires
        0 < cash <= i64::MAX,
        0 < p1 <= i64::MAX,
        0 < p2 <= i64::MAX,
        cash * (PPM as int) % p1 == 0,
        cash * (PPM as int) / p1 <= i64::MAX,
        (cash * (PPM as int) / p1) * p2 % (PPM as int) == 0,
        (cash * (PPM as int) / p1) * p2 / (PPM as int) <= i64::MAX,
    ensures
        ({
            let st0 = SpotState {
                cash,
                coin: 0,
                cost_basis_total: 0,
                in_position: false,
                entry_time: t1,
                avg_entry_price: 0,
                trades: Seq::empty(),
                curve: Seq::empty(),
                overflow: false,
            };
            let qty = cash * (PPM as int) / p1;
            let st2 = spec_spot_sell(
                spec_spot_buy(st0, p1, t1, PPM as int, BPS as int),
                p2,
                t2,
                PPM as int,
                BPS as int,
            );
            &&& !st2.overflow
            &&& st2.trades.len() == 1
            &&& st2.trades[0].entry_value == cash
            &&& st2.trades[0].entry_price == p1
            &&& st2.coin == 0
            &&& st2.cash == cash + qty * (p2 - p1) / (PPM as int)
        }),
{
    let st0 = SpotState {
        cash,
        coin: 0,
        cost_basis_total: 0,
        in_position: false,
        entry_time: t1,
        avg_entry_price: 0,
        trades: Seq::empty(),
        curve: Seq::empty(),
        overflow: false,
    };
    let ppm = PPM as int;
    let bps = BPS as int;
    let qty = cash * ppm / p1;

    vstd::arithmetic::div_mod::lemma_fundamental_div_mod(cash * ppm, p1);
    assert(cash * ppm == p1 * qty);
    assert(qty >= 1) by (nonlinear_arith)
        requires
            cash * ppm == p1 * qty,
            cash >= 1,
            ppm == 1_000_000,
            p1 >= 1,
            qty >= 0,
    ;
    assert(qty >= 0) by {
        vstd::arithmetic::div_mod::lemma_div_is_ordered(0, cash * ppm, p1);
        assert(cash * ppm >= 0) by (nonlinear_arith)
            requires
                cash >= 1,
                ppm >= 1,
        ;
    }

    // The buy: all cash in, no fee, quantity at p1.
    vstd::arithmetic::div_mod::lemma_div_multiples_vanish(cash, ppm);
    assert(cash * ppm == ppm * cash) by (nonlinear_arith);
    assert(cash * ppm / ppm == cash);
    vstd::arithmetic::div_mod::lemma_div_multiples_vanish(cash, bps);
    assert(cash * bps == bps * cash) by (nonlinear_arith);
    assert(cash * bps / bps == cash);
    vstd::arithmetic::div_mod::lemma_div_multiples_vanish(p1, qty);
    assert(cash * ppm == qty * p1) by (nonlinear_arith)
        requires
            cash * ppm == p1 * qty,
    ;
    assert(qty * p1 / qty == p1) by {
        vstd::arithmetic::div_mod::lemma_div_multiples_vanish(p1, qty);
        assert(qty * p1 == p1 * qty) by (nonlinear_arith);
    }
    let st1 = spec_spot_buy(st0, p1, t1, ppm, bps);
    assert(st1.cash == 0 && st1.coin == qty && st1.cost_basis_total == cash && st1.in_position
        && st1.entry_time == t1 && st1.avg_entry_price == p1 && !st1.overflow);

    // The sell: the whole quantity out at p2, no fee.
    vstd::arithmetic::div_mod::lemma_div_multiples_vanish(qty, ppm);
    assert(qty * ppm == ppm * qty) by (nonlinear_arith);
    assert(qty * ppm / ppm == qty);
    let gross = qty * p2 / ppm;
    vstd::arithmetic::div_mod::lemma_fundamental_div_mod(qty * p2, ppm);
    assert(qty * p2 == ppm * gross);
    assert(gross >= 0) by {
        vstd::arithmetic::div_mod::lemma_div_is_ordered(0, qty * p2, ppm);
        assert(qty * p2 >= 0) by (nonlinear_arith)
            requires
                qty >= 0,
                p2 >= 1,
        ;
    }
    vstd::arithmetic::div_mod::lemma_div_multiples_vanish(gross, bps);
    assert(gross * bps == bps * gross) by (nonlinear_arith);
    assert(gross * bps / bps == gross);
    assert(cash * qty / qty == cash) by {
        vstd::arithmetic::div_mod::lemma_div_multiples_vanish(cash, qty);
        assert(cash * qty == qty * cash) by (nonlinear_arith);
    }
    assert(cash * ppm / qty == p1) by {
        vstd::arithmetic::div_mod::lemma_div_multiples_vanish(p1, qty);
        assert(cash * ppm == qty * p1) by (nonlinear_arith)
            requires
                cash * ppm == p1 * qty,
        ;
    }
    let st2 = spec_spot_sell(st1, p2, t2, ppm, bps);
    assert(st2.trades.len() == 1 && st2.trades[0].entry_value == cash && st2.trades[0].entry_price
        == p1 && st2.coin == 0 && st2.cash == gross && !st2.overflow);

    // The proceeds are the invested cash plus the exact appreciation.
    assert(qty * (p2 - p1) == ppm * (gross - cash)) by (nonlinear_arith)
        requires
            qty * p2 == ppm * gross,
            cash * ppm == p1 * qty,
    ;
    vstd::arithmetic::div_mod::lemma_div_multiples_vanish(gross - cash, ppm);
    assert(qty * (p2 - p1) / ppm == gross - cash);
}

} // verus!
