//! The decision engine: a gated, prioritized rule evaluator that turns
//! indicator state into a BUY/SELL/HOLD action with a human-readable
//! justification or veto reason.
//!
//! The gates (trend, price confirmation, regime) are computed once per
//! step into an immutable context; each rule applies them independently.
//! Rules are tried in priority order and the first non-vetoed match wins;
//! rules that fired but were vetoed accumulate their reasons.

use vstd::prelude::*;

use crate::data::Sample;
use crate::indicators::atr::{spec_atr_ppm, spec_atr_ppm_available, AtrFilter};
use crate::indicators::regime::{spec_detect_regime, Regime, RegimeFilter};
use crate::indicators::sma::{SmaConfig, Smas};
use crate::patterns::{
    is_breakdown_below_recent_low, is_breakout_above_recent_high,
    is_pullback_to_sma_short_and_bounce, is_pullback_to_sma_short_and_reject_down,
    spec_breakdown_below, spec_breakout_above, spec_pullback_bounce, spec_pullback_reject,
};
use crate::text::{i64_to_string, spec_dec, spec_join_reasons, usize_to_string};

verus! {

/// One point in the strategy parameter space.
#[derive(Clone, Copy, Debug)]
pub struct StrategyConfig {
    pub breakouts: Option<BreakoutConfig>,
    pub pullbacks: Option<PullbackConfig>,
    pub enable_crossovers: bool,
    pub enable_bias_only: bool,
    pub sma_config: SmaConfig,
    pub filters: FilterConfig,
}

/// The parts of the human-readable encoding of a configuration: one for
/// the window pair and one for every enabled sub-configuration.
pub open spec fn spec_config_parts(c: StrategyConfig) -> Seq<Seq<char>> {
    let p0 = seq![
        "SMA"@ + spec_dec(c.sma_config.short_window as int) + "/"@ + spec_dec(
            c.sma_config.long_window as int,
        ),
    ];
    let p1 = if c.breakouts is Some {
        p0.push(
            "breakout(lookback="@ + spec_dec(c.breakouts->0.breakout_lookback as int) + ")"@,
        )
    } else {
        p0
    };
    let p2 = if c.pullbacks is Some {
        p1.push(
            "pullback(bounce="@ + spec_dec(c.pullbacks->0.bounce_tolerance_ppm as int)
                + "ppm,rejection="@ + spec_dec(c.pullbacks->0.reject_tolerance_ppm as int)
                + "ppm)"@,
        )
    } else {
        p1
    };
    let p3 = if c.enable_crossovers {
        p2.push("crossovers"@)
    } else {
        p2
    };
    let p4 = if c.enable_bias_only {
        p3.push("bias_only"@)
    } else {
        p3
    };
    let p5 = if c.filters.require_price_confirmation {
        p4.push("require_price_confirmation"@)
    } else {
        p4
    };
    let p6 = if c.filters.require_trend_filter {
        p5.push("require_trend_filter"@)
    } else {
        p5
    };
    let p7 = if c.filters.atr is Some {
        p6.push(
            "atr(floor="@ + spec_dec(c.filters.atr->0.spec_floor() as int) + ", period="@
                + spec_dec(c.filters.atr->0.spec_period() as int) + ")"@,
        )
    } else {
        p6
    };
    if c.filters.regime is Some {
        p7.push(
            "regime(long_window="@ + spec_dec(c.filters.regime->0.long_window as int)
                + ", slope_window="@ + spec_dec(c.filters.regime->0.slope_window as int)
                + ", min_trend_strength="@ + spec_dec(c.filters.regime->0.min_trend_strength as int)
                + ", min_range="@ + spec_dec(c.filters.regime->0.min_range as int) + ")"@,
        )
    } else {
        p7
    }
}

/// The human-readable encoding of every enabled sub-configuration,
/// joined with `" + "`.
pub open spec fn spec_describe_config(c: StrategyConfig) -> Seq<char> {
    let parts = spec_config_parts(c);
    if parts.len() == 0 {
        "none"@
    } else {
        crate::text::spec_join_with(parts, " + "@)
    }
}

impl StrategyConfig {
    /// Describe the configuration for summaries and logs.
    #[verifier::rlimit(100)]
    pub fn describe_config(&self) -> (r: String)
        ensures
            r@ == spec_describe_config(*self),
    {
        let mut parts: Vec<String> = Vec::new();
        let mut sma_part = String::from_str("SMA");
        let short_text = usize_to_string(self.sma_config.short_window);
        sma_part.append(short_text.as_str());
        sma_part.append("/");
        let long_text = usize_to_string(self.sma_config.long_window);
        sma_part.append(long_text.as_str());
        parts.push(sma_part);

        if let Some(b) = &self.breakouts {
            let mut part = String::from_str("breakout(lookback=");
            let lb_text = usize_to_string(b.breakout_lookback);
            part.append(lb_text.as_str());
            part.append(")");
            parts.push(part);
        }
        if let Some(p) = &self.pullbacks {
            let mut part = String::from_str("pullback(bounce=");
            let bounce_text = i64_to_string(p.bounce_tolerance_ppm);
            part.append(bounce_text.as_str());
            part.append("ppm,rejection=");
            let reject_text = i64_to_string(p.reject_tolerance_ppm);
            part.append(reject_text.as_str());
            part.append("ppm)");
            parts.push(part);
        }
        if self.enable_crossovers {
            parts.push("crossovers".to_owned());
        }
        if self.enable_bias_only {
            parts.push("bias_only".to_owned());
        }
        if self.filters.require_price_confirmation {
            parts.push("require_price_confirmation".to_owned());
        }
        if self.filters.require_trend_filter {
            parts.push("require_trend_filter".to_owned());
        }
        if let Some(atr) = &self.filters.atr {
            let mut part = String::from_str("atr(floor=");
            let floor_text = i64_to_string(atr.floor());
            part.append(floor_text.as_str());
            part.append(", period=");
            let period_text = usize_to_string(atr.period());
            part.append(period_text.as_str());
            part.append(")");
            parts.push(part);
        }
        if let Some(regime) = &self.filters.regime {
            let mut part = String::from_str("regime(long_window=");
            let lw_text = usize_to_string(regime.long_window);
            part.append(lw_text.as_str());
            part.append(", slope_window=");
            let sw_text = usize_to_string(regime.slope_window);
            part.append(sw_text.as_str());
            part.append(", min_trend_strength=");
            let ts_text = i64_to_string(regime.min_trend_strength);
            part.append(ts_text.as_str());
            part.append(", min_range=");
            let mr_text = i64_to_string(regime.min_range);
            part.append(mr_text.as_str());
            part.append(")");
            parts.push(part);
        }
        proof {
            assert(parts@.map_values(|s: String| s@) =~= spec_config_parts(*self));
        }

        if parts.len() == 0 {
            "none".to_owned()
        } else {
            crate::text::join_with(&parts, " + ")
        }
    }
}

#[derive(Clone, Copy, Debug, PartialEq, Eq, Structural)]
pub struct BreakoutConfig {
    pub breakout_lookback: usize,
}

/// Tolerances around the short moving average, in parts per million
/// (e.g. 3000 = 0.3%).
#[derive(Clone, Copy, Debug, PartialEq, Eq, Structural)]
pub struct PullbackConfig {
    pub bounce_tolerance_ppm: i64,
    pub reject_tolerance_ppm: i64,
}

#[derive(Clone, Copy, Debug)]
pub struct FilterConfig {
    pub require_trend_filter: bool,
    pub require_price_confirmation: bool,
    pub atr: Option<AtrFilter>,
    pub regime: Option<RegimeFilter>,
}

#[derive(Debug, Clone, Copy, PartialEq, Eq, Structural)]
pub enum Action {
    Buy,
    Sell,
    Hold,
}

pub open spec fn spec_action_label(a: Action) -> Seq<char> {
    match a {
        Action::Buy => "BUY"@,
        Action::Sell => "SELL"@,
        Action::Hold => "HOLD"@,
    }
}

impl Action {
    /// The upper-case name of the action, as the suggestion strings use it.
    pub fn label(&self) -> (r: String)
        ensures
            r@ == spec_action_label(*self),
    {
        match self {
            Action::Buy => "BUY".to_owned(),
            Action::Sell => "SELL".to_owned(),
            Action::Hold => "HOLD".to_owned(),
        }
    }
}

// ~~~~ Gate computation ~~~~

pub open spec fn spec_uptrend(s: Smas) -> bool {
    s.sma_short > s.sma_long && s.sma_long >= s.prev_sma_long
}

pub open spec fn spec_downtrend(s: Smas) -> bool {
    s.sma_short < s.sma_long && s.sma_long <= s.prev_sma_long
}

pub open spec fn spec_price_above_both(last: i64, s: Smas) -> bool {
    last > s.sma_short && last > s.sma_long
}

pub open spec fn spec_price_below_both(last: i64, s: Smas) -> bool {
    last < s.sma_short && last < s.sma_long
}

pub open spec fn spec_golden_cross(s: Smas) -> bool {
    s.prev_sma_short <= s.prev_sma_long && s.sma_short > s.sma_long
}

pub open spec fn spec_death_cross(s: Smas) -> bool {
    s.prev_sma_short >= s.prev_sma_long && s.sma_short < s.sma_long
}

/// Why a candidate action was vetoed.
pub enum GateVeto {
    Trend,
    Price,
    Regime,
}

/// The veto check for long actions: trend filter, then price
/// confirmation, then regime filter; the first failing check names the
/// veto.
pub open spec fn spec_gate_long(prices: Seq<i64>, smas: Smas, strat: StrategyConfig) -> Option<
    GateVeto,
> {
    if strat.filters.require_trend_filter && !spec_uptrend(smas) {
        Some(GateVeto::Trend)
    } else if strat.filters.require_price_confirmation && !spec_price_above_both(
        prices.last(),
        smas,
    ) {
        Some(GateVeto::Price)
    } else if strat.filters.regime is Some && spec_detect_regime(strat.filters.regime->0, prices)
        != Regime::TrendingUp {
        Some(GateVeto::Regime)
    } else {
        None
    }
}

/// The veto check for short actions, the counterpart of
/// [`spec_gate_long`].
pub open spec fn spec_gate_short(prices: Seq<i64>, smas: Smas, strat: StrategyConfig) -> Option<
    GateVeto,
> {
    if strat.filters.require_trend_filter && !spec_downtrend(smas) {
        Some(GateVeto::Trend)
    } else if strat.filters.require_price_confirmation && !spec_price_below_both(
        prices.last(),
        smas,
    ) {
        Some(GateVeto::Price)
    } else if strat.filters.regime is Some && spec_detect_regime(strat.filters.regime->0, prices)
        != Regime::TrendingDown {
        Some(GateVeto::Regime)
    } else {
        None
    }
}

pub open spec fn spec_gate_long_text(v: GateVeto) -> Seq<char> {
    match v {
        GateVeto::Trend => "Trend filter vetoed long (not uptrend)"@,
        GateVeto::Price => "Price confirmation vetoed long (not above both MAs)"@,
        GateVeto::Regime => "Regime filter vetoed long"@,
    }
}

pub open spec fn spec_gate_short_text(v: GateVeto) -> Seq<char> {
    match v {
        GateVeto::Trend => "Trend filter vetoed short (not downtrend)"@,
        GateVeto::Price => "Price confirmation vetoed short (not below both MAs)"@,
        GateVeto::Regime => "Regime filter vetoed short"@,
    }
}

pub open spec fn spec_gate_long_msg(prices: Seq<i64>, smas: Smas, strat: StrategyConfig) -> Option<
    Seq<char>,
> {
    match spec_gate_long(prices, smas, strat) {
        Some(v) => Some(spec_gate_long_text(v)),
        None => None,
    }
}

pub open spec fn spec_gate_short_msg(prices: Seq<i64>, smas: Smas, strat: StrategyConfig) -> Option<
    Seq<char>,
> {
    match spec_gate_short(prices, smas, strat) {
        Some(v) => Some(spec_gate_short_text(v)),
        None => None,
    }
}

pub open spec fn view_opt(o: Option<String>) -> Option<Seq<char>> {
    match o {
        Some(s) => Some(s@),
        None => None,
    }
}

/// The per-step evaluation context: derived, stateless, not persisted
/// across steps. Each gate holds the veto reason, or `None` when the side
/// is allowed.
pub struct AnalysisCtx {
    pub smas: Smas,
    pub gate_long: Option<String>,
    pub gate_short: Option<String>,
}

/// The context carries exactly the veto messages that
/// [`spec_gate_long_msg`] and [`spec_gate_short_msg`] prescribe.
pub open spec fn spec_ctx_matches(
    ctx: AnalysisCtx,
    prices: Seq<i64>,
    smas: Smas,
    strat: StrategyConfig,
) -> bool {
    &&& ctx.smas == smas
    &&& view_opt(ctx.gate_long) == spec_gate_long_msg(prices, smas, strat)
    &&& view_opt(ctx.gate_short) == spec_gate_short_msg(prices, smas, strat)
}

impl AnalysisCtx {
    /// Compute the gates once for this step.
    pub fn new(prices: &Vec<i64>, smas: Smas, strategy: &StrategyConfig) -> (r: Self)
        requires
            prices@.len() >= 1,
        ensures
            spec_ctx_matches(r, prices@, smas, *strategy),
    {
        let last_price = prices[prices.len() - 1];

        let uptrend = smas.sma_short > smas.sma_long && smas.sma_long >= smas.prev_sma_long;
        let downtrend = smas.sma_short < smas.sma_long && smas.sma_long <= smas.prev_sma_long;

        let price_above_both = last_price > smas.sma_short && last_price > smas.sma_long;
        let price_below_both = last_price < smas.sma_short && last_price < smas.sma_long;

        let (regime_up, regime_down) = match strategy.filters.regime {
            Some(rf) => {
                let r = rf.detect_regime(prices);
                (r == Regime::TrendingUp, r == Regime::TrendingDown)
            },
            None => (true, true),
        };

        let gate_long: Option<String> = if strategy.filters.require_trend_filter && !uptrend {
            Some("Trend filter vetoed long (not uptrend)".to_owned())
        } else if strategy.filters.require_price_confirmation && !price_above_both {
            Some("Price confirmation vetoed long (not above both MAs)".to_owned())
        } else if !regime_up {
            Some("Regime filter vetoed long".to_owned())
        } else {
            None
        };

        let gate_short: Option<String> = if strategy.filters.require_trend_filter && !downtrend {
            Some("Trend filter vetoed short (not downtrend)".to_owned())
        } else if strategy.filters.require_price_confirmation && !price_below_both {
            Some("Price confirmation vetoed short (not below both MAs)".to_owned())
        } else if !regime_down {
            Some("Regime filter vetoed short".to_owned())
        } else {
            None
        };

        Self { smas, gate_long, gate_short }
    }
}

// ~~~~ Rules ~~~~

/// A rule that fired and was not vetoed.
pub struct Decision {
    pub action: Action,
    pub reason: String,
    pub rule: String,
}

/// The outcome of evaluating one rule against the context.
pub enum RuleOutcome {
    NoMatch,
    Blocked { reason: String },
    Fired(Decision),
}

/// The specification-level outcome: the same three shapes with the
/// reason as a character sequence.
pub enum SpecOutcome {
    NoMatch,
    Blocked(Seq<char>),
    Fired(Action, Seq<char>),
}

pub open spec fn outcome_matches(r: RuleOutcome, s: SpecOutcome) -> bool {
    match r {
        RuleOutcome::NoMatch => s is NoMatch,
        RuleOutcome::Blocked { reason } => s is Blocked && reason@ == s->Blocked_0,
        RuleOutcome::Fired(d) => s is Fired && d.action == s->Fired_0 && d.reason@ == s->Fired_1,
    }
}

pub open spec fn spec_rule_crossovers(
    smas: Smas,
    gl: Option<Seq<char>>,
    gs: Option<Seq<char>>,
) -> SpecOutcome {
    if spec_golden_cross(smas) {
        if gl is Some {
            SpecOutcome::Blocked("Golden Cross, but "@ + gl->0)
        } else {
            SpecOutcome::Fired(Action::Buy, "Golden Cross"@)
        }
    } else if spec_death_cross(smas) {
        if gs is Some {
            SpecOutcome::Blocked("Death Cross, but "@ + gs->0)
        } else {
            SpecOutcome::Fired(Action::Sell, "Death Cross"@)
        }
    } else {
        SpecOutcome::NoMatch
    }
}

/// Moving-average crossover rule: a fresh golden cross is a buy, a fresh
/// death cross a sell.
pub fn rule_crossovers(ctx: &AnalysisCtx) -> (r: RuleOutcome)
    ensures
        outcome_matches(r, spec_rule_crossovers(ctx.smas, view_opt(ctx.gate_long), view_opt(ctx.gate_short))),
        r is Fired ==> r->Fired_0.rule@ == "Crossovers"@,
{
    let golden = ctx.smas.prev_sma_short <= ctx.smas.prev_sma_long && ctx.smas.sma_short
        > ctx.smas.sma_long;
    let death = ctx.smas.prev_sma_short >= ctx.smas.prev_sma_long && ctx.smas.sma_short
        < ctx.smas.sma_long;

    if golden {
        if let Some(r) = &ctx.gate_long {
            let mut reason = String::from_str("Golden Cross, but ");
            reason.append(r.as_str());
            return RuleOutcome::Blocked { reason };
        }
        return RuleOutcome::Fired(
            Decision {
                action: Action::Buy,
                rule: "Crossovers".to_owned(),
                reason: "Golden Cross".to_owned(),
            },
        );
    }

    if death {
        if let Some(r) = &ctx.gate_short {
            let mut reason = String::from_str("Death Cross, but ");
            reason.append(r.as_str());
            return RuleOutcome::Blocked { reason };
        }
        return RuleOutcome::Fired(
            Decision {
                action: Action::Sell,
                rule: "Crossovers".to_owned(),
                reason: "Death Cross".to_owned(),
            },
        );
    }

    RuleOutcome::NoMatch
}

pub open spec fn spec_rule_breakouts(
    prices: Seq<i64>,
    gl: Option<Seq<char>>,
    gs: Option<Seq<char>>,
    config: BreakoutConfig,
) -> SpecOutcome {
    if spec_breakout_above(prices, config.breakout_lookback as int) {
        if gl is Some {
            SpecOutcome::Blocked("Breakout above recent high, but "@ + gl->0)
        } else {
            SpecOutcome::Fired(Action::Buy, "Breakout above recent high"@)
        }
    } else if spec_breakdown_below(prices, config.breakout_lookback as int) {
        if gs is Some {
            SpecOutcome::Blocked("Breakdown below recent low, but "@ + gs->0)
        } else {
            SpecOutcome::Fired(Action::Sell, "Breakdown below recent low"@)
        }
    } else {
        SpecOutcome::NoMatch
    }
}

/// Breakout/breakdown rule against the recent reference window.
pub fn rule_breakouts(ctx: &AnalysisCtx, prices: &Vec<i64>, config: BreakoutConfig) -> (r:
    RuleOutcome)
    ensures
        outcome_matches(
            r,
            spec_rule_breakouts(prices@, view_opt(ctx.gate_long), view_opt(ctx.gate_short), config),
        ),
        r is Fired ==> r->Fired_0.rule@ == "Breakouts"@,
{
    if is_breakout_above_recent_high(prices, config.breakout_lookback) {
        if let Some(r) = &ctx.gate_long {
            let mut reason = String::from_str("Breakout above recent high, but ");
            reason.append(r.as_str());
            return RuleOutcome::Blocked { reason };
        }
        return RuleOutcome::Fired(
            Decision {
                action: Action::Buy,
                rule: "Breakouts".to_owned(),
                reason: "Breakout above recent high".to_owned(),
            },
        );
    }

    if is_breakdown_below_recent_low(prices, config.breakout_lookback) {
        if let Some(r) = &ctx.gate_short {
            let mut reason = String::from_str("Breakdown below recent low, but ");
            reason.append(r.as_str());
            return RuleOutcome::Blocked { reason };
        }
        return RuleOutcome::Fired(
            Decision {
                action: Action::Sell,
                rule: "Breakouts".to_owned(),
                reason: "Breakdown below recent low".to_owned(),
            },
        );
    }

    RuleOutcome::NoMatch
}

pub open spec fn spec_rule_pullbacks(
    prices: Seq<i64>,
    smas: Smas,
    gl: Option<Seq<char>>,
    gs: Option<Seq<char>>,
    config: PullbackConfig,
) -> SpecOutcome {
    if spec_pullback_bounce(prices, smas.sma_short, config.bounce_tolerance_ppm) {
        if gl is Some {
            SpecOutcome::Blocked("Pullback to SMA short and bounce, but "@ + gl->0)
        } else {
            SpecOutcome::Fired(Action::Buy, "Pullback to SMA short and bounce"@)
        }
    } else if spec_pullback_reject(prices, smas.sma_short, config.reject_tolerance_ppm) {
        if gs is Some {
            SpecOutcome::Blocked("Pullback up to SMA short and rejection, but "@ + gs->0)
        } else {
            SpecOutcome::Fired(Action::Sell, "Pullback up to SMA short and rejection"@)
        }
    } else {
        SpecOutcome::NoMatch
    }
}

/// Pullback-and-bounce / pullback-and-reject rule around the short
/// moving average.
pub fn rule_pullbacks(ctx: &AnalysisCtx, prices: &Vec<i64>, pullback_config: PullbackConfig) -> (r:
    RuleOutcome)
    ensures
        outcome_matches(
            r,
            spec_rule_pullbacks(
                prices@,
                ctx.smas,
                view_opt(ctx.gate_long),
                view_opt(ctx.gate_short),
                pullback_config,
            ),
        ),
        r is Fired ==> r->Fired_0.rule@ == "Pullbacks"@,
{
    if is_pullback_to_sma_short_and_bounce(
        prices,
        ctx.smas.sma_short,
        pullback_config.bounce_tolerance_ppm,
    ) {
        if let Some(r) = &ctx.gate_long {
            let mut reason = String::from_str("Pullback to SMA short and bounce, but ");
            reason.append(r.as_str());
            return RuleOutcome::Blocked { reason };
        }
        return RuleOutcome::Fired(
            Decision {
                action: Action::Buy,
                rule: "Pullbacks".to_owned(),
                reason: "Pullback to SMA short and bounce".to_owned(),
            },
        );
    }

    if is_pullback_to_sma_short_and_reject_down(
        prices,
        ctx.smas.sma_short,
        pullback_config.reject_tolerance_ppm,
    ) {
        if let Some(r) = &ctx.gate_short {
            let mut reason = String::from_str("Pullback up to SMA short and rejection, but ");
            reason.append(r.as_str());
            return RuleOutcome::Blocked { reason };
        }
        return RuleOutcome::Fired(
            Decision {
                action: Action::Sell,
                rule: "Pullbacks".to_owned(),
                reason: "Pullback up to SMA short and rejection".to_owned(),
            },
        );
    }

    RuleOutcome::NoMatch
}

pub open spec fn spec_rule_bias_only(
    smas: Smas,
    gl: Option<Seq<char>>,
    gs: Option<Seq<char>>,
) -> SpecOutcome {
    if smas.sma_short > smas.sma_long {
        if gl is Some {
            SpecOutcome::Blocked("Uptrend (SMA short > SMA long), but "@ + gl->0)
        } else {
            SpecOutcome::Fired(Action::Buy, "Uptrend (SMA short > SMA long)"@)
        }
    } else if smas.sma_short < smas.sma_long {
        if gs is Some {
            SpecOutcome::Blocked("Downtrend (SMA short < SMA long), but "@ + gs->0)
        } else {
            SpecOutcome::Fired(Action::Sell, "Downtrend (SMA short < SMA long)"@)
        }
    } else {
        SpecOutcome::NoMatch
    }
}

/// Bias-only rule: the current ordering of the averages alone, with no
/// freshness requirement.
pub fn rule_bias_only(ctx: &AnalysisCtx) -> (r: RuleOutcome)
    ensures
        outcome_matches(
            r,
            spec_rule_bias_only(ctx.smas, view_opt(ctx.gate_long), view_opt(ctx.gate_short)),
        ),
        r is Fired ==> r->Fired_0.rule@ == "Bias only"@,
{
    if ctx.smas.sma_short > ctx.smas.sma_long {
        if let Some(r) = &ctx.gate_long {
            let mut reason = String::from_str("Uptrend (SMA short > SMA long), but ");
            reason.append(r.as_str());
            return RuleOutcome::Blocked { reason };
        }
        return RuleOutcome::Fired(
            Decision {
                action: Action::Buy,
                rule: "Bias only".to_owned(),
                reason: "Uptrend (SMA short > SMA long)".to_owned(),
            },
        );
    }

    if ctx.smas.sma_short < ctx.smas.sma_long {
        if let Some(r) = &ctx.gate_short {
            let mut reason = String::from_str("Downtrend (SMA short < SMA long), but ");
            reason.append(r.as_str());
            return RuleOutcome::Blocked { reason };
        }
        return RuleOutcome::Fired(
            Decision {
                action: Action::Sell,
                rule: "Bias only".to_owned(),
                reason: "Downtrend (SMA short < SMA long)".to_owned(),
            },
        );
    }

    RuleOutcome::NoMatch
}

// ~~~~ The prioritized cascade ~~~~

/// Append a blocked rule's reason to the accumulated veto reasons.
pub open spec fn acc_of(o: SpecOutcome, acc: Seq<Seq<char>>) -> Seq<Seq<char>> {
    if o is Blocked {
        acc.push(o->Blocked_0)
    } else {
        acc
    }
}

/// The rule cascade after the volatility pre-filter: breakouts, then
/// pullbacks, then crossovers, then bias-only; the first non-vetoed match
/// wins, and if every fired rule was vetoed the reasons are joined.
pub open spec fn spec_suggest_rules(prices: Seq<i64>, smas: Smas, strat: StrategyConfig) -> (
    Action,
    Seq<char>,
) {
    let gl = spec_gate_long_msg(prices, smas, strat);
    let gs = spec_gate_short_msg(prices, smas, strat);
    let o1 = if strat.breakouts is Some {
        spec_rule_breakouts(prices, gl, gs, strat.breakouts->0)
    } else {
        SpecOutcome::NoMatch
    };
    if o1 is Fired {
        (o1->Fired_0, o1->Fired_1)
    } else {
        let a1 = acc_of(o1, Seq::empty());
        let o2 = if strat.pullbacks is Some {
            spec_rule_pullbacks(prices, smas, gl, gs, strat.pullbacks->0)
        } else {
            SpecOutcome::NoMatch
        };
        if o2 is Fired {
            (o2->Fired_0, o2->Fired_1)
        } else {
            let a2 = acc_of(o2, a1);
            let o3 = if strat.enable_crossovers {
                spec_rule_crossovers(smas, gl, gs)
            } else {
                SpecOutcome::NoMatch
            };
            if o3 is Fired {
                (o3->Fired_0, o3->Fired_1)
            } else {
                let a3 = acc_of(o3, a2);
                let o4 = if strat.enable_bias_only {
                    spec_rule_bias_only(smas, gl, gs)
                } else {
                    SpecOutcome::NoMatch
                };
                if o4 is Fired {
                    (o4->Fired_0, o4->Fired_1)
                } else {
                    let a4 = acc_of(o4, a3);
                    if a4.len() > 0 {
                        (Action::Hold, spec_join_reasons(a4))
                    } else {
                        (Action::Hold, "No strategy matched"@)
                    }
                }
            }
        }
    }
}

/// The full decision for one step: the volatility pre-filter first, then
/// the rule cascade.
pub open spec fn spec_suggest(prices: Seq<i64>, smas: Smas, strat: StrategyConfig) -> (
    Action,
    Seq<char>,
) {
    if strat.filters.atr is Some {
        let f = strat.filters.atr->0;
        if !spec_atr_ppm_available(prices, f.spec_period() as int) {
            (
                Action::Hold,
                "Insufficient data for ATR("@ + spec_dec(f.spec_period() as int)
                    + ") volatility filter"@,
            )
        } else if spec_atr_ppm(prices, f.spec_period() as int) < f.spec_floor() {
            (
                Action::Hold,
                "Volatility too low: ATR("@ + spec_dec(f.spec_period() as int) + ") = "@
                    + spec_dec(spec_atr_ppm(prices, f.spec_period() as int)) + "ppm < floor "@
                    + spec_dec(f.spec_floor() as int) + "ppm"@,
            )
        } else {
            spec_suggest_rules(prices, smas, strat)
        }
    } else {
        spec_suggest_rules(prices, smas, strat)
    }
}

/// Evaluate one step: volatility pre-filter, gates, then the prioritized
/// rules. Returns the action and the reason or accumulated veto reasons.
pub fn suggest_action(prices: &Vec<i64>, smas: Smas, strategy: StrategyConfig) -> (r: (
    Action,
    String,
))
    requires
        prices@.len() >= 1,
    ensures
        r.0 == spec_suggest(prices@, smas, strategy).0,
        r.1@ == spec_suggest(prices@, smas, strategy).1,
{
    // ~~~~ Volatility pre-filter ~~~~
    if let Some(atr_filter) = strategy.filters.atr {
        match atr_filter.atr_percent(prices) {
            None => {
                let mut reason = String::from_str("Insufficient data for ATR(");
                let period_text = usize_to_string(atr_filter.period());
                reason.append(period_text.as_str());
                reason.append(") volatility filter");
                return (Action::Hold, reason);
            },
            Some(atr_p) => {
                if atr_p < atr_filter.floor() {
                    let mut reason = String::from_str("Volatility too low: ATR(");
                    let period_text = usize_to_string(atr_filter.period());
                    reason.append(period_text.as_str());
                    reason.append(") = ");
                    let atr_text = i64_to_string(atr_p);
                    reason.append(atr_text.as_str());
                    reason.append("ppm < floor ");
                    let floor_text = i64_to_string(atr_filter.floor());
                    reason.append(floor_text.as_str());
                    reason.append("ppm");
                    return (Action::Hold, reason);
                }
            },
        }
    }

    let ghost gl = spec_gate_long_msg(prices@, smas, strategy);
    let ghost gs = spec_gate_short_msg(prices@, smas, strategy);
    let analysis_ctx = AnalysisCtx::new(prices, smas, &strategy);

    let mut fired_but_blocked: Vec<String> = Vec::new();

    if let Some(breakouts) = strategy.breakouts {
        match rule_breakouts(&analysis_ctx, prices, breakouts) {
            RuleOutcome::Fired(d) => {
                return (d.action, d.reason);
            },
            RuleOutcome::Blocked { reason } => fired_but_blocked.push(reason),
            _ => {},
        }
    }
    let ghost o1 = if strategy.breakouts is Some {
        spec_rule_breakouts(prices@, gl, gs, strategy.breakouts->0)
    } else {
        SpecOutcome::NoMatch
    };
    let ghost a1 = acc_of(o1, Seq::empty());
    proof {
        assert(fired_but_blocked@.map_values(|s: String| s@) =~= a1);
    }

    if let Some(lookback) = strategy.pullbacks {
        match rule_pullbacks(&analysis_ctx, prices, lookback) {
            RuleOutcome::Fired(d) => {
                return (d.action, d.reason);
            },
            RuleOutcome::Blocked { reason } => fired_but_blocked.push(reason),
            _ => {},
        }
    }
    let ghost o2 = if strategy.pullbacks is Some {
        spec_rule_pullbacks(prices@, smas, gl, gs, strategy.pullbacks->0)
    } else {
        SpecOutcome::NoMatch
    };
    let ghost a2 = acc_of(o2, a1);
    proof {
        assert(fired_but_blocked@.map_values(|s: String| s@) =~= a2);
    }

    if strategy.enable_crossovers {
        match rule_crossovers(&analysis_ctx) {
            RuleOutcome::Fired(d) => {
                return (d.action, d.reason);
            },
            RuleOutcome::Blocked { reason } => fired_but_blocked.push(reason),
            _ => {},
        }
    }
    let ghost o3 = if strategy.enable_crossovers {
        spec_rule_crossovers(smas, gl, gs)
    } else {
        SpecOutcome::NoMatch
    };
    let ghost a3 = acc_of(o3, a2);
    proof {
        assert(fired_but_blocked@.map_values(|s: String| s@) =~= a3);
    }

    if strategy.enable_bias_only {
        match rule_bias_only(&analysis_ctx) {
            RuleOutcome::Fired(d) => {
                return (d.action, d.reason);
            },
            RuleOutcome::Blocked { reason } => fired_but_blocked.push(reason),
            _ => {},
        }
    }
    let ghost o4 = if strategy.enable_bias_only {
        spec_rule_bias_only(smas, gl, gs)
    } else {
        SpecOutcome::NoMatch
    };
    let ghost a4 = acc_of(o4, a3);
    proof {
        assert(fired_but_blocked@.map_values(|s: String| s@) =~= a4);
    }

    if fired_but_blocked.len() > 0 {
        let joined = crate::text::join_reasons(&fired_but_blocked);
        return (Action::Hold, joined);
    }

    (Action::Hold, "No strategy matched".to_owned())
}

/// The analysis of the newest step of a price series.
pub struct AnalysisResult {
    pub last: Sample,
    pub smas: Smas,
    pub suggestion: String,
    pub reason: String,
}

/// Run the decision engine on the newest step and package the result
/// with the last sample and the averages it used.
pub fn analyze(
    hourly: &Vec<Sample>,
    prices: &Vec<i64>,
    smas: Smas,
    strategy: StrategyConfig,
) -> (r: AnalysisResult)
    requires
        hourly@.len() >= 1,
        prices@.len() >= 1,
    ensures
        r.last == hourly@.last(),
        r.smas == smas,
        r.suggestion@ == spec_action_label(spec_suggest(prices@, smas, strategy).0),
        r.reason@ == spec_suggest(prices@, smas, strategy).1,
{
    let last = hourly[hourly.len() - 1];
    let (action, reason) = suggest_action(prices, smas, strategy);
    let suggestion = action.label();
    AnalysisResult { last, smas, suggestion, reason }
}

} // verus!
