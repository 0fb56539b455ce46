//! Consensus over quotes from several CFD providers.
//!
//! The median price anchors the run; quotes farther than `k` scaled MADs from
//! it are dropped; the rest are averaged with weights that fall with age and
//! with distance from the anchor: freshness `exp(-age / tau)` and damping
//! `exp(-0.15 dev)`, both in fixed point (see `decay`).
use vstd::prelude::*;
use vstd::arithmetic::div_mod::{
    lemma_div_by_multiple, lemma_div_is_ordered,
};
use crate::clock::utc_now_ms;
use crate::decay::{exp_neg, exp_neg_ppm, lemma_exp_neg};
use crate::index::IndexError;
use crate::stats::{
    abs_diff, abs_diff_u64, ascending, deviations, lemma_ascending_unique, median,
    median_deviation, median_of, sort_ascending,
};
use crate::types::{CfdQuote, CfdTick, ConsensusStats, IndexTick, TickSource, PPM};

verus! {

/// The largest number of quotes one consensus run accepts.
pub const MAX_QUOTES: usize = 1_000_000;

/// Cap on the normalised deviation used for damping, in parts per million.
pub const DEV_CAP_PPM: u64 = 10_000_000;

/// Robust consensus over several CFD providers: median anchor, MAD outlier
/// rejection, then a freshness- and deviation-weighted mean.
pub struct CfdConsensus {
    pub symbol: String,
    pub expo: i8,
    /// Freshness time constant in milliseconds.
    pub tau_ms: u64,
    /// Outlier band half-width as a multiple of the MAD, in parts per million.
    pub mad_k_ppm: u64,
}

pub open spec fn prices_of(ts: Seq<CfdTick>) -> Seq<u64> {
    ts.map_values(|t: CfdTick| t.price)
}

pub open spec fn tick_of(q: CfdQuote) -> CfdTick {
    CfdTick { price: q.price, ts_ms: q.ts_ms }
}

/// The price and time of each quote, in order.
pub open spec fn ticks_of(qs: Seq<CfdQuote>) -> Seq<CfdTick> {
    qs.map_values(|q: CfdQuote| tick_of(q))
}

pub open spec fn all_positive(ts: Seq<CfdTick>) -> bool {
    forall|i: int| 0 <= i < ts.len() ==> (#[trigger] ts[i]).price > 0
}

/// The scaled median absolute deviation, floored at one price unit.
pub open spec fn mad_of(prices: Seq<u64>, med: u64) -> nat {
    let m = median_of(deviations(prices, med)) as int * 14826 / 10000;
    if m < 1 {
        1
    } else {
        m as nat
    }
}

/// `|p - med| <= k * mad`, with `k` in parts per million.
pub open spec fn in_band(p: u64, med: u64, mad: nat, k_ppm: u64) -> bool {
    abs_diff(p, med) as int * PPM as int <= k_ppm as int * mad as int
}

/// The quotes inside the outlier band, in input order.
pub open spec fn kept_of(qs: Seq<CfdTick>, med: u64, mad: nat, k_ppm: u64) -> Seq<CfdTick>
    decreases qs.len(),
{
    if qs.len() == 0 {
        seq![]
    } else {
        let rest = kept_of(qs.drop_last(), med, mad, k_ppm);
        if in_band(qs.last().price, med, mad, k_ppm) {
            rest.push(qs.last())
        } else {
            rest
        }
    }
}

pub open spec fn age_of(now: i64, ts: i64) -> nat {
    if now >= ts {
        (now - ts) as nat
    } else {
        (ts - now) as nat
    }
}

/// Freshness weight `exp(-age / tau)` in parts per million: one at age zero,
/// falling towards zero as the age grows. With `tau` zero only age zero counts.
pub open spec fn fresh_weight(age: nat, tau: u64) -> nat {
    if tau == 0 {
        if age == 0 {
            PPM as nat
        } else {
            0
        }
    } else {
        exp_neg((age * PPM as int / tau as int) as nat)
    }
}

/// Deviation from the anchor in units of MAD, in parts per million, capped at ten.
pub open spec fn dev_ppm(p: u64, med: u64, mad: nat) -> nat {
    let d = abs_diff(p, med) as int * PPM as int / mad as int;
    if d > DEV_CAP_PPM {
        DEV_CAP_PPM as nat
    } else {
        d as nat
    }
}

/// Damping `exp(-0.15 dev)` in parts per million.
pub open spec fn dev_weight(d: nat) -> nat {
    exp_neg(3 * d / 20)
}

/// The weight of one kept quote, in parts per million.
pub open spec fn weight(t: CfdTick, med: u64, mad: nat, now: i64, tau: u64) -> nat {
    ((fresh_weight(age_of(now, t.ts_ms), tau) * dev_weight(dev_ppm(t.price, med, mad))) as int
        / PPM as int) as nat
}

pub open spec fn total_weight(ks: Seq<CfdTick>, med: u64, mad: nat, now: i64, tau: u64) -> nat
    decreases ks.len(),
{
    if ks.len() == 0 {
        0
    } else {
        total_weight(ks.drop_last(), med, mad, now, tau) + weight(ks.last(), med, mad, now, tau)
    }
}

pub open spec fn weighted_sum(ks: Seq<CfdTick>, med: u64, mad: nat, now: i64, tau: u64) -> nat
    decreases ks.len(),
{
    if ks.len() == 0 {
        0
    } else {
        (weighted_sum(ks.drop_last(), med, mad, now, tau) + weight(ks.last(), med, mad, now, tau)
            * ks.last().price) as nat
    }
}

pub open spec fn min_price(ks: Seq<CfdTick>) -> u64
    decreases ks.len(),
{
    if ks.len() == 0 {
        0
    } else if ks.len() == 1 {
        ks[0].price
    } else {
        let m = min_price(ks.drop_last());
        if ks.last().price < m {
            ks.last().price
        } else {
            m
        }
    }
}

pub open spec fn max_price(ks: Seq<CfdTick>) -> u64
    decreases ks.len(),
{
    if ks.len() == 0 {
        0
    } else if ks.len() == 1 {
        ks[0].price
    } else {
        let m = max_price(ks.drop_last());
        if ks.last().price > m {
            ks.last().price
        } else {
            m
        }
    }
}

/// `round(10_000 * |hi - lo| / med)`, saturated to `u32`.
pub open spec fn spread_bps_of(lo: u64, hi: u64, med: u64) -> u32 {
    let s = (20_000 * abs_diff(hi, lo) as int + med as int) / (2 * med as int);
    if s > u32::MAX {
        u32::MAX
    } else {
        s as u32
    }
}

/// `(kept / n) / (1 + spread / 50)` in parts per million, at most one.
pub open spec fn confidence_of(kept: nat, n: nat, spread: u32) -> u32 {
    let c = kept as int * 50 * PPM as int / (n as int * (50 + spread as int));
    if c > PPM {
        PPM as u32
    } else {
        c as u32
    }
}

/// The median anchor of a set of quotes.
pub open spec fn anchor_of(qs: Seq<CfdTick>) -> u64 {
    median_of(prices_of(qs))
}

/// The scaled MAD of a set of quotes around their anchor.
pub open spec fn spread_mad_of(qs: Seq<CfdTick>) -> nat {
    mad_of(prices_of(qs), anchor_of(qs))
}

/// The quotes a consensus run keeps.
pub open spec fn kept_quotes(qs: Seq<CfdTick>, k_ppm: u64) -> Seq<CfdTick> {
    kept_of(qs, anchor_of(qs), spread_mad_of(qs), k_ppm)
}

pub open spec fn kept_weight(qs: Seq<CfdTick>, k_ppm: u64, now: i64, tau: u64) -> nat {
    total_weight(kept_quotes(qs, k_ppm), anchor_of(qs), spread_mad_of(qs), now, tau)
}

/// The fused price: the weighted mean of the kept quotes, rounded down.
pub open spec fn fused_price(qs: Seq<CfdTick>, k_ppm: u64, now: i64, tau: u64) -> int {
    weighted_sum(kept_quotes(qs, k_ppm), anchor_of(qs), spread_mad_of(qs), now, tau) as int
        / kept_weight(qs, k_ppm, now, tau) as int
}

/// The median with the two middle elements averaged (rounded down) for an
/// even count.
pub open spec fn midpoint_median_of(s: Seq<u64>) -> Option<u64> {
    let a = ascending(s);
    let n = s.len();
    if n == 0 {
        None
    } else if n % 2 == 1 {
        Some(a[(n / 2) as int])
    } else {
        Some(((a[n / 2 - 1] + a[(n / 2) as int]) / 2) as u64)
    }
}

/// `a / d <= b` when `a <= b * d`.
proof fn lemma_div_at_most(a: int, b: int, d: int)
    requires
        0 <= a <= b * d,
        0 < d,
        0 <= b,
    ensures
        a / d <= b,
{
    lemma_div_is_ordered(a, b * d, d);
    lemma_div_by_multiple(b, d);
}

/// The weight of one quote, as `weight` defines it.
fn quote_weight(price: u64, ts_ms: i64, med: u64, mad: u128, now_ms: i64, tau_ms: u64) -> (w: u128)
    requires
        1 <= mad <= 0x2_0000_0000_0000_0000,
    ensures
        w == weight(CfdTick { price, ts_ms }, med, mad as nat, now_ms, tau_ms),
        w <= PPM,
{
    let d: i128 = now_ms as i128 - ts_ms as i128;
    let age: u128 = if d >= 0 {
        d as u128
    } else {
        (-d) as u128
    };
    assert(age == age_of(now_ms, ts_ms));
    let fresh: u128 = if tau_ms == 0 {
        if age == 0 {
            PPM as u128
        } else {
            0
        }
    } else {
        proof {
            assert(age * PPM <= 0x1_0000_0000_0000_0000 * 1_000_000) by (nonlinear_arith)
                requires
                    0 <= age <= 0x1_0000_0000_0000_0000,
            ;
        }
        exp_neg_ppm(age * (PPM as u128) / (tau_ms as u128)) as u128
    };
    let raw: u128 = (abs_diff_u64(price, med) as u128) * (PPM as u128) / mad;
    let dev: u128 = if raw > DEV_CAP_PPM as u128 {
        DEV_CAP_PPM as u128
    } else {
        raw
    };
    let damp: u128 = exp_neg_ppm(3 * dev / 20) as u128;
    proof {
        assert(fresh * damp <= PPM as int * PPM as int) by (nonlinear_arith)
            requires
                fresh <= PPM as int,
                damp <= PPM as int,
                0 <= fresh,
                0 <= damp,
        ;
        lemma_div_at_most(fresh * damp, PPM as int, PPM as int);
    }
    fresh * damp / (PPM as u128)
}

/// Every kept price lies between `min_price` and `max_price`.
proof fn lemma_min_max_bound(ks: Seq<CfdTick>)
    ensures
        forall|j: int|
            0 <= j < ks.len() ==> min_price(ks) <= #[trigger] ks[j].price <= max_price(ks),
    decreases ks.len(),
{
    if ks.len() > 1 {
        lemma_min_max_bound(ks.drop_last());
        assert forall|j: int| 0 <= j < ks.len() implies min_price(ks) <= #[trigger] ks[j].price
            <= max_price(ks) by {
            if j < ks.len() - 1 {
                assert(ks[j] == ks.drop_last()[j]);
            }
        }
    }
}

/// A weighted sum of prices in `[lo, hi]` lies between `lo` and `hi` times the total weight.
proof fn lemma_weighted_sum_bound(
    ks: Seq<CfdTick>,
    med: u64,
    mad: nat,
    now: i64,
    tau: u64,
    lo: u64,
    hi: u64,
)
    requires
        forall|j: int| 0 <= j < ks.len() ==> lo <= #[trigger] ks[j].price <= hi,
    ensures
        lo * total_weight(ks, med, mad, now, tau) <= weighted_sum(ks, med, mad, now, tau),
        weighted_sum(ks, med, mad, now, tau) <= hi * total_weight(ks, med, mad, now, tau),
    decreases ks.len(),
{
    if ks.len() > 0 {
        let r = ks.drop_last();
        assert forall|j: int| 0 <= j < r.len() implies lo <= #[trigger] r[j].price <= hi by {
            assert(r[j] == ks[j]);
        }
        lemma_weighted_sum_bound(r, med, mad, now, tau, lo, hi);
        let w = weight(ks.last(), med, mad, now, tau);
        let p = ks.last().price;
        let tw = total_weight(r, med, mad, now, tau);
        assert(lo * w <= w * p <= hi * w) by (nonlinear_arith)
            requires
                lo <= p <= hi,
                0 <= w,
        ;
        assert(total_weight(ks, med, mad, now, tau) == tw + w);
        assert(weighted_sum(ks, med, mad, now, tau) == weighted_sum(r, med, mad, now, tau) + w * p);
        let wr = weighted_sum(r, med, mad, now, tau);
        assert(lo * (tw + w) <= wr + w * p) by (nonlinear_arith)
            requires
                lo * tw <= wr,
                lo * w <= w * p,
        ;
        assert(wr + w * p <= hi * (tw + w)) by (nonlinear_arith)
            requires
                wr <= hi * tw,
                w * p <= hi * w,
        ;
    } else {
        assert(total_weight(ks, med, mad, now, tau) == 0);
        assert(lo * 0 == 0);
    }
}

/// A weighted mean lies between the smallest and largest kept price.
pub proof fn lemma_fused_within_kept(ks: Seq<CfdTick>, med: u64, mad: nat, now: i64, tau: u64)
    requires
        total_weight(ks, med, mad, now, tau) > 0,
    ensures
        min_price(ks) <= weighted_sum(ks, med, mad, now, tau) as int / total_weight(
            ks,
            med,
            mad,
            now,
            tau,
        ) as int <= max_price(ks),
{
    lemma_min_max_bound(ks);
    lemma_weighted_sum_bound(ks, med, mad, now, tau, min_price(ks), max_price(ks));
    let tw = total_weight(ks, med, mad, now, tau) as int;
    let ws = weighted_sum(ks, med, mad, now, tau) as int;
    lemma_div_at_most(ws, max_price(ks) as int, tw);
    vstd::arithmetic::div_mod::lemma_div_is_ordered(min_price(ks) * tw, ws, tw);
    vstd::arithmetic::div_mod::lemma_div_multiples_vanish(min_price(ks) as int, tw);
    assert(min_price(ks) * tw == tw * min_price(ks)) by (nonlinear_arith);
}

/// A quote outside the outlier band adds nothing: when adding it leaves the
/// median anchor and the MAD as they were, the kept quotes and the fused price
/// stay exactly the same.
pub proof fn lemma_outlier_ignored(
    qs: Seq<CfdTick>,
    outlier: CfdTick,
    k_ppm: u64,
    now: i64,
    tau: u64,
)
    requires
        anchor_of(qs.push(outlier)) == anchor_of(qs),
        spread_mad_of(qs.push(outlier)) == spread_mad_of(qs),
        !in_band(outlier.price, anchor_of(qs), spread_mad_of(qs), k_ppm),
    ensures
        kept_quotes(qs.push(outlier), k_ppm) == kept_quotes(qs, k_ppm),
        kept_weight(qs.push(outlier), k_ppm, now, tau) == kept_weight(qs, k_ppm, now, tau),
        fused_price(qs.push(outlier), k_ppm, now, tau) == fused_price(qs, k_ppm, now, tau),
{
    assert(qs.push(outlier).drop_last() =~= qs);
}

/// Each tick of `older` has the price of the tick at the same index of
/// `ks` and twice its age at `now`.
pub open spec fn twice_as_old(ks: Seq<CfdTick>, older: Seq<CfdTick>, now: i64) -> bool {
    &&& older.len() == ks.len()
    &&& forall|j: int|
        0 <= j < ks.len() ==> (#[trigger] older[j]).price == ks[j].price && age_of(now, older[j].ts_ms)
            == 2 * age_of(now, ks[j].ts_ms)
}

proof fn lemma_weight_older(t: CfdTick, u: CfdTick, med: u64, mad: nat, now: i64, tau: u64)
    requires
        u.price == t.price,
        age_of(now, u.ts_ms) == 2 * age_of(now, t.ts_ms),
    ensures
        weight(u, med, mad, now, tau) <= weight(t, med, mad, now, tau),
{
    let a = age_of(now, t.ts_ms);
    let f1 = fresh_weight(a, tau);
    let f2 = fresh_weight(2 * a, tau);
    if tau > 0 {
        lemma_div_is_ordered(a * PPM as int, 2 * a * PPM as int, tau as int);
        lemma_exp_neg(
            (a * PPM as int / tau as int) as nat,
            (2 * a * PPM as int / tau as int) as nat,
        );
    }
    assert(f2 <= f1);
    let d = dev_weight(dev_ppm(t.price, med, mad));
    assert(f2 * d <= f1 * d) by (nonlinear_arith)
        requires
            f2 <= f1,
            0 <= d,
    ;
    lemma_div_is_ordered((f2 * d) as int, (f1 * d) as int, PPM as int);
}

/// Doubling the age of every kept quote never raises the total weight, and
/// the fused price of the older quotes still lies within the kept prices.
pub proof fn lemma_older_quotes_weigh_less(
    ks: Seq<CfdTick>,
    older: Seq<CfdTick>,
    med: u64,
    mad: nat,
    now: i64,
    tau: u64,
)
    requires
        twice_as_old(ks, older, now),
    ensures
        total_weight(older, med, mad, now, tau) <= total_weight(ks, med, mad, now, tau),
        total_weight(older, med, mad, now, tau) > 0 ==> min_price(ks) <= weighted_sum(
            older,
            med,
            mad,
            now,
            tau,
        ) as int / total_weight(older, med, mad, now, tau) as int <= max_price(ks),
    decreases ks.len(),
{
    if ks.len() > 0 {
        let r = ks.drop_last();
        let ro = older.drop_last();
        assert forall|j: int| 0 <= j < r.len() implies (#[trigger] ro[j]).price == r[j].price
            && age_of(now, ro[j].ts_ms) == 2 * age_of(now, r[j].ts_ms) by {
            assert(ro[j] == older[j] && r[j] == ks[j]);
        }
        lemma_older_quotes_weigh_less(r, ro, med, mad, now, tau);
        assert(older.last() == older[ks.len() - 1]);
        lemma_weight_older(ks.last(), older.last(), med, mad, now, tau);
    }
    if total_weight(older, med, mad, now, tau) > 0 {
        lemma_fused_within_kept(older, med, mad, now, tau);
        lemma_same_prices_same_bounds(ks, older);
    }
}

/// Two sequences with the same prices have the same smallest and largest price.
proof fn lemma_same_prices_same_bounds(ks: Seq<CfdTick>, other: Seq<CfdTick>)
    requires
        other.len() == ks.len(),
        forall|j: int| 0 <= j < ks.len() ==> (#[trigger] other[j]).price == ks[j].price,
    ensures
        min_price(other) == min_price(ks),
        max_price(other) == max_price(ks),
    decreases ks.len(),
{
    if ks.len() > 1 {
        let r = ks.drop_last();
        let ro = other.drop_last();
        assert forall|j: int| 0 <= j < r.len() implies (#[trigger] ro[j]).price == r[j].price by {
            assert(ro[j] == other[j] && r[j] == ks[j]);
        }
        lemma_same_prices_same_bounds(r, ro);
        assert(other.last() == other[ks.len() - 1]);
    }
}

impl CfdConsensus {
    pub fn new(symbol: String, expo: i8, tau_ms: u64, mad_k_ppm: u64) -> (r: Self)
        ensures
            r.symbol == symbol,
            r.expo == expo,
            r.tau_ms == tau_ms,
            r.mad_k_ppm == mad_k_ppm,
    {
        CfdConsensus { symbol, expo, tau_ms, mad_k_ppm }
    }

    /// The median of `prices`, averaging the two middle prices (rounded down)
    /// for an even count; `None` for no prices.
    pub fn fuse(&self, prices: Vec<u64>) -> (r: Option<u64>)
        ensures
            r == midpoint_median_of(prices@),
    {
        if prices.len() == 0 {
            return None;
        }
        let ghost s = prices@;
        let mut w = prices;
        sort_ascending(&mut w);
        proof {
            lemma_ascending_unique(s, w@);
        }
        let mid = w.len() / 2;
        if w.len() % 2 == 1 {
            Some(w[mid])
        } else {
            let a = w[mid - 1];
            let b = w[mid];
            Some(((a as u128 + b as u128) / 2) as u64)
        }
    }

    /// The scaled MAD of `values` around `med`: `max(1.4826 * median|v - med|, 1)`.
    pub fn mad(values: &Vec<u64>, med: u64) -> (r: u128)
        requires
            values.len() > 0,
        ensures
            r == mad_of(values@, med),
            1 <= r <= 0x2_0000_0000_0000_0000,
    {
        let m = median_deviation(values, med);
        let s: u128 = (m as u128) * 14826 / 10000;
        if s < 1 {
            1
        } else {
            s
        }
    }

    /// Builds a consensus mark at time `now_ms` from quotes with positive prices.
    pub fn build_at(&self, quotes: &Vec<CfdQuote>, now_ms: i64) -> (r: Result<
        (IndexTick, ConsensusStats),
        IndexError,
    >)
        requires
            quotes.len() <= MAX_QUOTES,
            all_positive(ticks_of(quotes@)),
        ensures
            ({
                let kept = kept_quotes(ticks_of(quotes@), self.mad_k_ppm);
                let tw = kept_weight(ticks_of(quotes@), self.mad_k_ppm, now_ms, self.tau_ms);
                match r {
                    Ok((tick, stats)) => {
                        &&& quotes.len() > 0 && kept.len() > 0 && tw > 0
                        &&& tick.price == fused_price(ticks_of(quotes@), self.mad_k_ppm, now_ms, self.tau_ms)
                        &&& min_price(kept) <= tick.price <= max_price(kept)
                        &&& tick.price > 0
                        &&& tick.symbol@ == self.symbol@
                        &&& tick.expo == self.expo
                        &&& tick.ts_ms == now_ms
                        &&& tick.source == TickSource::CfdConsensus
                        &&& tick.window_sec == 0
                        &&& stats.n_fresh == quotes.len()
                        &&& stats.n_used == kept.len()
                        &&& stats.n_dropped == quotes.len() - kept.len()
                        &&& stats.spread_bps == spread_bps_of(
                            min_price(kept),
                            max_price(kept),
                            anchor_of(ticks_of(quotes@)),
                        )
                        &&& stats.confidence_ppm == confidence_of(
                            kept.len(),
                            quotes.len() as nat,
                            stats.spread_bps,
                        )
                    },
                    Err(e) => {
                        &&& e is NotEnoughData
                        &&& (quotes.len() == 0 || kept.len() == 0 || tw == 0)
                    },
                }
            }),
    {
        if quotes.len() == 0 {
            return Err(IndexError::NotEnoughData);
        }
        let mut ps: Vec<u64> = Vec::new();
        let mut i: usize = 0;
        while i < quotes.len()
            invariant
                i <= quotes.len(),
                ps@.len() == i,
                forall|j: int| 0 <= j < i ==> ps@[j] == #[trigger] quotes@[j].price,
            decreases quotes.len() - i,
        {
            ps.push(quotes[i].price);
            i += 1;
        }
        assert(ps@ =~= prices_of(ticks_of(quotes@)));
        let ps2 = ps.clone();
        assert(ps2@ =~= ps@);
        let med = median(ps2);
        let mad = Self::mad(&ps, med);
        assert(med == anchor_of(ticks_of(quotes@)));
        assert(med > 0);
        assert(mad == spread_mad_of(ticks_of(quotes@)));

        let ghost kept: Seq<CfdTick> = seq![];
        let mut n_kept: usize = 0;
        let mut num: u128 = 0;
        let mut den: u128 = 0;
        let mut minp: u64 = u64::MAX;
        let mut maxp: u64 = 0;
        let k = self.mad_k_ppm;
        let tau = self.tau_ms;
        i = 0;
        while i < quotes.len()
            invariant
                i <= quotes.len() <= MAX_QUOTES,
                1 <= mad <= 0x2_0000_0000_0000_0000,
                kept == kept_of(ticks_of(quotes@).subrange(0, i as int), med, mad as nat, k),
                n_kept == kept.len(),
                n_kept <= i,
                den == total_weight(kept, med, mad as nat, now_ms, tau),
                num == weighted_sum(kept, med, mad as nat, now_ms, tau),
                den <= n_kept * PPM,
                num <= n_kept * 0xF_4240_0000_0000_000F_423F_FFFF,
                kept.len() > 0 ==> minp == min_price(kept) && maxp == max_price(kept),
                kept.len() == 0 ==> minp == u64::MAX && maxp == 0,
                minp > 0,
                all_positive(ticks_of(quotes@)),
            decreases quotes.len() - i,
        {
            let p = quotes[i].price;
            proof {
                assert(ticks_of(quotes@)[i as int].price > 0);
            }
            let ts = quotes[i].ts_ms;
            let dev = abs_diff_u64(p, med) as u128 * (PPM as u128);
            let keep = match (k as u128).checked_mul(mad) {
                None => true,
                Some(b) => dev <= b,
            };
            proof {
                let pre = ticks_of(quotes@).subrange(0, i as int);
                let post = ticks_of(quotes@).subrange(0, i + 1);
                assert(post.drop_last() =~= pre);
                assert(post.last() == tick_of(quotes@[i as int]));
            }
            if keep {
                let w = quote_weight(p, ts, med, mad, now_ms, tau);
                proof {
                    assert(w * p <= 0xF_4240_0000_0000_000F_423F_FFFF) by (nonlinear_arith)
                        requires
                            w <= 1_000_000,
                            p <= 0xFFFF_FFFF_FFFF_FFFF,
                    ;
                    let t = CfdTick { price: p, ts_ms: ts };
                    assert(kept.push(t).drop_last() =~= kept);
                    kept = kept.push(t);
                }
                num = num + w * (p as u128);
                den = den + w;
                n_kept += 1;
                if p < minp {
                    minp = p;
                }
                if p > maxp {
                    maxp = p;
                }
            }
            i += 1;
        }
        assert(ticks_of(quotes@).subrange(0, quotes.len() as int) =~= ticks_of(quotes@));
        if n_kept == 0 || den == 0 {
            return Err(IndexError::NotEnoughData);
        }
        proof {
            lemma_fused_within_kept(kept, med, mad as nat, now_ms, tau);
        }
        let fused = (num / den) as u64;
        let width = abs_diff_u64(maxp, minp) as u128;
        let s: u128 = (20_000 * width + med as u128) / (2 * (med as u128));
        let spread_bps: u32 = if s > u32::MAX as u128 {
            u32::MAX
        } else {
            s as u32
        };
        let n = quotes.len() as u128;
        proof {
            assert(n * (50 + spread_bps as int) >= 50) by (nonlinear_arith)
                requires
                    n >= 1,
                    spread_bps >= 0,
            ;
            assert(n * (50 + spread_bps as int) <= 1_000_000 * 0x1_0000_0031) by (nonlinear_arith)
                requires
                    n <= 1_000_000,
                    spread_bps <= u32::MAX,
            ;
        }
        let c: u128 = (n_kept as u128) * 50 * (PPM as u128) / (n * (50 + spread_bps as u128));
        let confidence_ppm: u32 = if c > PPM as u128 {
            PPM as u32
        } else {
            c as u32
        };
        let tick = IndexTick {
            symbol: self.symbol.clone(),
            price: fused,
            expo: self.expo,
            ts_ms: now_ms,
            source: TickSource::CfdConsensus,
            window_sec: 0,
        };
        let stats = ConsensusStats {
            n_fresh: quotes.len(),
            n_used: n_kept,
            n_dropped: quotes.len() - n_kept,
            spread_bps,
            confidence_ppm,
        };
        Ok((tick, stats))
    }

    /// Builds a consensus mark stamped with the current wall-clock time. Whatever
    /// the time, a mark lies within the kept prices and the counts add up.
    pub fn build(&self, quotes: &Vec<CfdQuote>) -> (r: Result<(IndexTick, ConsensusStats), IndexError>)
        requires
            quotes.len() <= MAX_QUOTES,
            all_positive(ticks_of(quotes@)),
        ensures
            ({
                let kept = kept_quotes(ticks_of(quotes@), self.mad_k_ppm);
                &&& (quotes.len() == 0 || kept.len() == 0) ==> r is Err
                &&& match r {
                    Ok((tick, stats)) => {
                        &&& kept.len() > 0
                        &&& min_price(kept) <= tick.price <= max_price(kept)
                        &&& tick.price > 0
                        &&& tick.symbol@ == self.symbol@
                        &&& tick.expo == self.expo
                        &&& tick.source == TickSource::CfdConsensus
                        &&& tick.window_sec == 0
                        &&& stats.n_fresh == quotes.len()
                        &&& stats.n_used == kept.len()
                        &&& stats.n_dropped == quotes.len() - kept.len()
                        &&& stats.spread_bps == spread_bps_of(
                            min_price(kept),
                            max_price(kept),
                            anchor_of(ticks_of(quotes@)),
                        )
                        &&& stats.confidence_ppm == confidence_of(
                            kept.len(),
                            quotes.len() as nat,
                            stats.spread_bps,
                        )
                        &&& exists|now: i64|
                            tick.ts_ms == now && tick.price == #[trigger] fused_price(
                                ticks_of(quotes@),
                                self.mad_k_ppm,
                                now,
                                self.tau_ms,
                            )
                    },
                    Err(e) => e is NotEnoughData,
                }
            }),
    {
        let now = utc_now_ms();
        self.build_at(quotes, now)
    }
}

} // verus!
