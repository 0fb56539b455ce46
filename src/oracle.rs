//! The oracle's per-tick decision: from collected quotes to a mark and a funding update.
use vstd::prelude::*;
use crate::config::OracleConfig;
use crate::consensus::{
    fused_price, kept_quotes, kept_weight, ticks_of, all_positive, CfdConsensus, MAX_QUOTES,
};
use crate::funding::{ema_step, funding_rate, Ema, FundingEngine};
use crate::guards::{
    clamp_step, filter_fresh, fresh_quotes, staleness_bound, staleness_ms, step_clamped,
    step_floor, step_limit, CircuitBreaker,
};
use crate::stats::abs_diff;
use crate::types::{same_tick, CfdQuote, ConsensusStats, FundingUpdate, IndexTick, TickSource, PPM};

verus! {

/// Default breaker threshold: seven percent per minute.
pub const BREAKER_PER_MIN_PPM: u64 = 70_000;

/// Default smoothing factor of the funding reference EMA.
pub const REF_EMA_ALPHA_PPM: u64 = 5_000;

/// What a tick published.
#[derive(Debug, Clone)]
pub struct TickReport {
    pub mark: IndexTick,
    pub funding: FundingUpdate,
    pub stats: ConsensusStats,
    /// The breaker tripped and the previous good mark was published again.
    pub frozen: bool,
    /// The spread of the kept quotes exceeded the configured soft limit.
    pub wide_dispersion: bool,
}

/// The result of one tick.
#[derive(Debug, Clone)]
pub enum TickOutcome {
    /// Fewer fresh quotes than the configured minimum.
    InsufficientFresh,
    /// The consensus builder found no usable quotes.
    NoConsensus,
    /// The breaker tripped with no earlier good mark to fall back on.
    BreakerNoAnchor,
    /// A mark and a funding update to publish, in that order.
    Published(TickReport),
}

/// The oracle's decision state: configuration, last good mark, funding
/// reference and breaker. Collecting quotes and publishing happen outside.
pub struct Oracle {
    pub cfg: OracleConfig,
    pub name: String,
    /// Last good mark after all guards.
    pub last_good_mark: Option<IndexTick>,
    /// Slow EMA used as the funding reference.
    pub funding_ref_ema: Ema,
    pub funding_engine: FundingEngine,
    pub cb: CircuitBreaker,
}

/// The smallest number of fresh quotes a tick needs.
pub open spec fn min_fresh_needed(min_fresh: usize) -> nat {
    if min_fresh < 1 {
        1
    } else {
        min_fresh as nat
    }
}

/// The consensus over `ts` succeeds.
pub open spec fn consensus_holds(ts: Seq<crate::types::CfdTick>, k_ppm: u64, now: i64, tau: u64) -> bool {
    &&& ts.len() > 0
    &&& kept_quotes(ts, k_ppm).len() > 0
    &&& kept_weight(ts, k_ppm, now, tau) > 0
}

/// The EMA value after feeding in `x`.
pub open spec fn ema_after(e: Ema, x: u64) -> u64 {
    match e.value {
        None => x,
        Some(v) => ema_step(v, x, e.alpha_ppm),
    }
}

impl Oracle {
    /// Well formed: the stored mark, the EMA value and the breaker anchor are
    /// positive, and the EMA's smoothing factor lies strictly inside (0, 1).
    pub open spec fn wf(&self) -> bool {
        &&& self.funding_ref_ema.wf()
        &&& self.funding_ref_ema.value matches Some(v) ==> v > 0
        &&& self.last_good_mark matches Some(m) ==> m.price > 0
        &&& self.cb.wf()
    }

    pub fn new(cfg: OracleConfig, funding_engine: FundingEngine) -> (r: Self)
        ensures
            r.cfg == cfg,
            r.funding_engine == funding_engine,
            r.last_good_mark is None,
            r.funding_ref_ema.value is None,
            r.funding_ref_ema.alpha_ppm == REF_EMA_ALPHA_PPM,
            r.cb.per_min_threshold_ppm == BREAKER_PER_MIN_PPM,
            r.cb.last_anchor_price is None,
            r.wf(),
    {
        Oracle {
            cb: CircuitBreaker::new(BREAKER_PER_MIN_PPM),
            cfg,
            name: String::new(),
            last_good_mark: None,
            funding_ref_ema: Ema::new(REF_EMA_ALPHA_PPM),
            funding_engine,
        }
    }

    /// The staleness bound: three freshness time constants, within 15 s to 120 s.
    pub fn derived_staleness_ms(&self) -> (r: u64)
        ensures
            r == staleness_bound(self.cfg.cfd_tau_ms),
    {
        staleness_ms(self.cfg.cfd_tau_ms)
    }

    /// The trading-hours gate. Every setting of `hours_guard` ("off",
    /// "vendor", "cme" or any other) currently keeps the market open.
    pub fn hours_ok(&self) -> (r: bool)
        ensures
            r,
    {
        true
    }

    /// Runs one tick on the quotes collected for it, at time `now_ms`: freshness
    /// filter, consensus, step clamp, circuit breaker, then the funding update
    /// against the reference EMA. Nothing changes unless a mark is published.
    pub fn tick_at(&mut self, quotes: Vec<CfdQuote>, now_ms: i64) -> (r: TickOutcome)
        requires
            old(self).wf(),
            quotes.len() <= MAX_QUOTES,
            all_positive(ticks_of(quotes@)),
        ensures
            final(self).wf(),
            final(self).cfg == old(self).cfg,
            final(self).funding_engine == old(self).funding_engine,
            ({
                let cfg = old(self).cfg;
                let fresh = ticks_of(
                    fresh_quotes(quotes@, now_ms, staleness_bound(cfg.cfd_tau_ms)),
                );
                let k = cfg.cfd_mad_k_ppm;
                let tau = cfg.cfd_tau_ms;
                let fused = fused_price(fresh, k, now_ms, tau) as u64;
                let px = match old(self).last_good_mark {
                    Some(prev) => step_clamped(fused, prev.price, step_limit(cfg.max_step_ppm)),
                    None => fused,
                };
                if fresh.len() < min_fresh_needed(cfg.cfd_min_fresh) {
                    r is InsufficientFresh && *final(self) == *old(self)
                } else if !consensus_holds(fresh, k, now_ms, tau) {
                    r is NoConsensus && *final(self) == *old(self)
                } else if old(self).cb.trips(px, now_ms) {
                    match old(self).last_good_mark {
                        None => r is BreakerNoAnchor && *final(self) == *old(self),
                        Some(good) => r matches TickOutcome::Published(rep) && rep.frozen
                            && same_tick(rep.mark, good) && final(self).last_good_mark
                            == old(self).last_good_mark && final(self).cb == old(self).cb,
                    }
                } else {
                    r matches TickOutcome::Published(rep) && !rep.frozen && rep.mark.price == px
                        && rep.mark.symbol@ == cfg.symbol@ && rep.mark.expo == cfg.expo
                        && rep.mark.ts_ms == now_ms && rep.mark.source == TickSource::CfdConsensus
                        && rep.mark.window_sec == 0 && (final(self).last_good_mark matches Some(
                        m) && same_tick(m, rep.mark)) && final(self).cb == old(self).cb.after(
                        px,
                        now_ms,
                    )
                }
            }),
            r matches TickOutcome::Published(rep) ==> {
                &&& rep.mark.price > 0
                &&& (old(self).last_good_mark matches Some(prev) ==> abs_diff(
                    rep.mark.price,
                    prev.price,
                ) as int * PPM as int <= step_limit(old(self).cfg.max_step_ppm) as int
                    * prev.price as int)
                &&& final(self).last_good_mark matches Some(m) && same_tick(m, rep.mark)
                &&& final(self).funding_ref_ema.alpha_ppm == old(self).funding_ref_ema.alpha_ppm
                &&& final(self).funding_ref_ema.value == Some(
                    ema_after(old(self).funding_ref_ema, rep.mark.price),
                )
                &&& rep.funding.rate_ppm == funding_rate(
                    rep.mark.price,
                    ema_after(old(self).funding_ref_ema, rep.mark.price),
                    old(self).funding_engine.kappa_ppm,
                    old(self).funding_engine.cap_ppm,
                )
                &&& -(old(self).funding_engine.cap_ppm as int) <= rep.funding.rate_ppm
                    <= old(self).funding_engine.cap_ppm
                &&& rep.funding.symbol@ == rep.mark.symbol@ + "-PERP"@
                &&& rep.funding.ts_ms == rep.mark.ts_ms
                &&& rep.funding.interval_sec == old(self).funding_engine.interval_sec
                &&& rep.wide_dispersion == (rep.stats.spread_bps
                    > old(self).cfg.cfd_dispersion_bps_max)
            },
    {
        let max_stale = self.derived_staleness_ms();
        let fresh = filter_fresh(quotes, now_ms, max_stale);
        let need: usize = if self.cfg.cfd_min_fresh < 1 {
            1
        } else {
            self.cfg.cfd_min_fresh
        };
        if fresh.len() < need {
            return TickOutcome::InsufficientFresh;
        }
        let builder = CfdConsensus::new(
            self.cfg.symbol.clone(),
            self.cfg.expo,
            self.cfg.cfd_tau_ms,
            self.cfg.cfd_mad_k_ppm,
        );
        let (mut mark, stats) = match builder.build_at(&fresh, now_ms) {
            Ok(x) => x,
            Err(_) => {
                return TickOutcome::NoConsensus;
            },
        };
        let wide_dispersion = stats.spread_bps > self.cfg.cfd_dispersion_bps_max;
        proof {
            assert(mark.price > 0);
        }
        match &self.last_good_mark {
            Some(prev) => {
                mark.price = clamp_step(mark.price, prev.price, step_floor(self.cfg.max_step_ppm));
            },
            None => {},
        }
        let frozen: bool;
        if self.cb.tripped(mark.price, mark.ts_ms) {
            match &self.last_good_mark {
                Some(good) => {
                    mark = good.duplicate();
                    frozen = true;
                },
                None => {
                    return TickOutcome::BreakerNoAnchor;
                },
            }
        } else {
            self.last_good_mark = Some(mark.duplicate());
            frozen = false;
        }
        let ref_px = self.funding_ref_ema.update(mark.price);
        let ref_tick = IndexTick {
            symbol: mark.symbol.clone(),
            price: ref_px,
            expo: mark.expo,
            ts_ms: mark.ts_ms,
            source: TickSource::RefEma,
            window_sec: 0,
        };
        let funding = self.funding_engine.compute(&mark, &ref_tick);
        TickOutcome::Published(TickReport { mark, funding, stats, frozen, wide_dispersion })
    }
}

} // verus!
