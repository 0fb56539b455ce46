//! Per-tick guards: quote sanitizing, freshness, step clamp, circuit breaker.
use vstd::prelude::*;
use crate::consensus::{age_of, all_positive, ticks_of, tick_of};
use crate::stats::{abs_diff, abs_diff_u64};
use crate::types::{CfdQuote, PPM};

verus! {

/// Quotes stamped more than this far ahead of now are re-stamped to now.
pub const MAX_FUTURE_SKEW_MS: i64 = 2_000;

/// The smallest per-tick step, in parts per million (five basis points).
pub const MIN_STEP_PPM: u64 = 500;

/// The anchor rolls forward once it is at least this old and the breaker holds.
pub const ANCHOR_ROLL_MS: i64 = 10_000;

/// A quote as it enters consensus: its timestamp is pulled back to `now` when
/// it lies more than two seconds in the future.
pub open spec fn sanitized(q: CfdQuote, now: i64) -> CfdQuote {
    CfdQuote {
        src: q.src,
        price: q.price,
        ts_ms: if q.ts_ms - now > MAX_FUTURE_SKEW_MS {
            now
        } else {
            q.ts_ms
        },
    }
}

/// The successful results with a positive price, sanitized, in order.
pub open spec fn sanitize_all(rs: Seq<Option<CfdQuote>>, now: i64) -> Seq<CfdQuote>
    decreases rs.len(),
{
    if rs.len() == 0 {
        seq![]
    } else {
        let r = sanitize_all(rs.drop_last(), now);
        match rs.last() {
            Some(q) => if q.price > 0 {
                r.push(sanitized(q, now))
            } else {
                r
            },
            None => r,
        }
    }
}

/// The quotes no older (or newer) than `max_stale` milliseconds at `now`, in order.
pub open spec fn fresh_quotes(qs: Seq<CfdQuote>, now: i64, max_stale: u64) -> Seq<CfdQuote>
    decreases qs.len(),
{
    if qs.len() == 0 {
        seq![]
    } else {
        let r = fresh_quotes(qs.drop_last(), now, max_stale);
        if age_of(now, qs.last().ts_ms) <= max_stale {
            r.push(qs.last())
        } else {
            r
        }
    }
}

/// `clamp(3 * tau, 15 s, 120 s)`.
pub open spec fn staleness_bound(tau_ms: u64) -> u64 {
    let t = 3 * tau_ms;
    if t < 15_000 {
        15_000
    } else if t > 120_000 {
        120_000
    } else {
        t as u64
    }
}

/// The configured step, floored at five basis points.
pub open spec fn step_limit(max_step_ppm: u64) -> u64 {
    if max_step_ppm < MIN_STEP_PPM {
        MIN_STEP_PPM
    } else {
        max_step_ppm
    }
}

/// `price` pulled into `[prev - prev * step, prev + prev * step]`, the band
/// kept within `[1, u64::MAX]`; the step is in parts per million.
pub open spec fn step_clamped(price: u64, prev: u64, step_ppm: u64) -> u64 {
    let delta = prev as int * step_ppm as int / PPM as int;
    let lo = if prev - delta < 1 {
        1
    } else {
        prev - delta
    };
    let hi = if prev + delta > u64::MAX {
        u64::MAX as int
    } else {
        prev + delta
    };
    if price < lo {
        lo as u64
    } else if price > hi {
        hi as u64
    } else {
        price
    }
}

/// Relative move from `anchor` to `px` scaled to one minute, compared with a
/// threshold in parts per million:
/// `|px / anchor - 1| * 60_000 / max(dt, 1) > threshold`.
pub open spec fn move_exceeds(px: u64, ts: i64, anchor_px: u64, anchor_ts: i64, thr_ppm: u64) -> bool {
    let dt = if ts - anchor_ts < 1 {
        1
    } else {
        ts - anchor_ts
    };
    abs_diff(px, anchor_px) as int * 60_000 * PPM as int > thr_ppm as int * anchor_px as int * dt
}

/// A realized-move guard that freezes output when the per-minute move from its
/// anchor exceeds a threshold.
#[derive(Debug, Clone, Copy)]
pub struct CircuitBreaker {
    /// Largest allowed move per minute, in parts per million.
    pub per_min_threshold_ppm: u64,
    pub last_anchor_price: Option<u64>,
    pub last_anchor_ms: Option<i64>,
}

impl CircuitBreaker {
    /// Well formed: the anchor is either absent or a positive price with a time.
    pub open spec fn wf(&self) -> bool {
        &&& self.last_anchor_price is Some <==> self.last_anchor_ms is Some
        &&& self.last_anchor_price matches Some(p) ==> p > 0
    }

    /// Whether `(px, ts)` trips the breaker in this state.
    pub open spec fn trips(&self, px: u64, ts: i64) -> bool {
        match (self.last_anchor_price, self.last_anchor_ms) {
            (Some(bp), Some(bt)) => move_exceeds(px, ts, bp, bt, self.per_min_threshold_ppm),
            _ => false,
        }
    }

    /// The state after `(px, ts)`: the anchor is set when empty, kept when the
    /// breaker trips, and rolled to `(px, ts)` once it is ten seconds old.
    pub open spec fn after(&self, px: u64, ts: i64) -> CircuitBreaker {
        match (self.last_anchor_price, self.last_anchor_ms) {
            (Some(bp), Some(bt)) => if move_exceeds(px, ts, bp, bt, self.per_min_threshold_ppm)
                || ts - bt < ANCHOR_ROLL_MS {
                *self
            } else {
                CircuitBreaker { last_anchor_price: Some(px), last_anchor_ms: Some(ts), ..*self }
            },
            _ => CircuitBreaker { last_anchor_price: Some(px), last_anchor_ms: Some(ts), ..*self },
        }
    }

    pub fn new(per_min_threshold_ppm: u64) -> (r: Self)
        ensures
            r.per_min_threshold_ppm == per_min_threshold_ppm,
            r.last_anchor_price is None,
            r.last_anchor_ms is None,
            r.wf(),
    {
        CircuitBreaker { per_min_threshold_ppm, last_anchor_price: None, last_anchor_ms: None }
    }

    /// Feeds `(px, ts_ms)` in; true when the move breaches the threshold.
    pub fn tripped(&mut self, px: u64, ts_ms: i64) -> (r: bool)
        requires
            old(self).wf(),
            px > 0,
        ensures
            r == old(self).trips(px, ts_ms),
            *final(self) == old(self).after(px, ts_ms),
            final(self).wf(),
    {
        match (self.last_anchor_price, self.last_anchor_ms) {
            (Some(base_px), Some(base_ts)) => {
                let d: i128 = ts_ms as i128 - base_ts as i128;
                let dt: u128 = if d < 1 {
                    1
                } else {
                    d as u128
                };
                proof {
                    let ad = abs_diff(px, base_px) as int;
                    assert(ad * 60_000 * 1_000_000 <= 0xFFFF_FFFF_FFFF_FFFF * 60_000_000_000)
                        by (nonlinear_arith)
                        requires
                            0 <= ad <= 0xFFFF_FFFF_FFFF_FFFF,
                    ;
                }
                let moved: u128 = abs_diff_u64(px, base_px) as u128 * 60_000 * (PPM as u128);
                let exceeds = match (self.per_min_threshold_ppm as u128).checked_mul(
                    base_px as u128,
                ) {
                    None => false,
                    Some(a) => match a.checked_mul(dt) {
                        None => false,
                        Some(limit) => moved > limit,
                    },
                };
                proof {
                    let a = self.per_min_threshold_ppm as int * base_px as int;
                    assert(0 <= a * dt) by (nonlinear_arith)
                        requires
                            0 <= a,
                            0 <= dt,
                    ;
                    if a > u128::MAX {
                        assert(a * dt >= a) by (nonlinear_arith)
                            requires
                                dt >= 1,
                                a >= 0,
                        ;
                    }
                }
                if exceeds {
                    return true;
                }
                if d >= ANCHOR_ROLL_MS as i128 {
                    self.last_anchor_price = Some(px);
                    self.last_anchor_ms = Some(ts_ms);
                }
                false
            },
            _ => {
                self.last_anchor_price = Some(px);
                self.last_anchor_ms = Some(ts_ms);
                false
            },
        }
    }
}

/// `max(max_step_ppm, 5 bps)`.
pub fn step_floor(max_step_ppm: u64) -> (r: u64)
    ensures
        r == step_limit(max_step_ppm),
{
    if max_step_ppm < MIN_STEP_PPM {
        MIN_STEP_PPM
    } else {
        max_step_ppm
    }
}

/// Bounds `price` to within `step_ppm` of `prev`; the result stays positive
/// and moves at most `prev * step` away from `prev`.
pub fn clamp_step(price: u64, prev: u64, step_ppm: u64) -> (r: u64)
    requires
        prev > 0,
    ensures
        r == step_clamped(price, prev, step_ppm),
        r > 0,
        abs_diff(r, prev) as int * PPM as int <= step_ppm as int * prev as int,
        price > 0 && abs_diff(price, prev) as int * PPM as int <= step_ppm as int * prev as int
            ==> r == price,
{
    proof {
        assert(prev as int * step_ppm as int <= 0xFFFF_FFFF_FFFF_FFFF * 0xFFFF_FFFF_FFFF_FFFF)
            by (nonlinear_arith)
            requires
                0 <= prev <= 0xFFFF_FFFF_FFFF_FFFF,
                0 <= step_ppm <= 0xFFFF_FFFF_FFFF_FFFF,
        ;
    }
    let p = prev as u128 * step_ppm as u128;
    let delta: u128 = p / (PPM as u128);
    let ghost pi: int = p as int;
    let ghost m: int = pi % (PPM as int);
    proof {
        vstd::arithmetic::div_mod::lemma_fundamental_div_mod(pi, PPM as int);
        vstd::arithmetic::div_mod::lemma_mod_bound(pi, PPM as int);
        assert(delta * PPM <= pi) by (nonlinear_arith)
            requires
                pi == PPM * delta + m,
                0 <= m,
        ;
    }
    let lo: u64 = if (prev as u128) < delta + 1 {
        1
    } else {
        (prev as u128 - delta) as u64
    };
    let hi: u64 = if prev as u128 + delta > u64::MAX as u128 {
        u64::MAX
    } else {
        (prev as u128 + delta) as u64
    };
    proof {
        if price > 0 && abs_diff(price, prev) as int * PPM as int <= step_ppm as int * prev as int {
            let ad = abs_diff(price, prev) as int;
            assert(ad <= delta) by (nonlinear_arith)
                requires
                    ad * PPM <= pi,
                    pi == PPM * delta + m,
                    0 <= m < PPM,
                    ad >= 0,
            ;
        }
        assert(delta * PPM <= step_ppm as int * prev as int);
    }
    if price < lo {
        proof {
            let ad = abs_diff(lo, prev) as int;
            assert(ad * PPM <= delta * PPM) by (nonlinear_arith)
                requires
                    0 <= ad <= delta,
            ;
        }
        lo
    } else if price > hi {
        proof {
            let ad = abs_diff(hi, prev) as int;
            assert(ad * PPM <= delta * PPM) by (nonlinear_arith)
                requires
                    0 <= ad <= delta,
            ;
        }
        hi
    } else {
        proof {
            let ad = abs_diff(price, prev) as int;
            assert(ad * PPM <= delta * PPM) by (nonlinear_arith)
                requires
                    0 <= ad <= delta,
            ;
        }
        price
    }
}

/// `clamp(3 * tau, 15 s, 120 s)`.
pub fn staleness_ms(tau_ms: u64) -> (r: u64)
    ensures
        r == staleness_bound(tau_ms),
{
    let three_tau: u128 = tau_ms as u128 * 3;
    if three_tau < 15_000 {
        15_000
    } else if three_tau > 120_000 {
        120_000
    } else {
        three_tau as u64
    }
}

proof fn lemma_sanitize_all(rs: Seq<Option<CfdQuote>>, now: i64)
    ensures
        sanitize_all(rs, now).len() <= rs.len(),
        all_positive(ticks_of(sanitize_all(rs, now))),
    decreases rs.len(),
{
    if rs.len() > 0 {
        lemma_sanitize_all(rs.drop_last(), now);
    }
    let s = sanitize_all(rs, now);
    assert forall|i: int| 0 <= i < s.len() implies (#[trigger] ticks_of(s)[i]).price > 0 by {
        if rs.len() > 0 {
            let r = sanitize_all(rs.drop_last(), now);
            if i < r.len() {
                assert(ticks_of(r)[i] == tick_of(r[i]));
            }
        }
    }
}

proof fn lemma_fresh_quotes(qs: Seq<CfdQuote>, now: i64, max_stale: u64)
    requires
        all_positive(ticks_of(qs)),
    ensures
        fresh_quotes(qs, now, max_stale).len() <= qs.len(),
        all_positive(ticks_of(fresh_quotes(qs, now, max_stale))),
    decreases qs.len(),
{
    if qs.len() > 0 {
        let r = qs.drop_last();
        assert forall|i: int| 0 <= i < r.len() implies (#[trigger] ticks_of(r)[i]).price > 0 by {
            assert(ticks_of(r)[i] == ticks_of(qs)[i]);
        }
        lemma_fresh_quotes(r, now, max_stale);
        let f = fresh_quotes(qs, now, max_stale);
        let fr = fresh_quotes(r, now, max_stale);
        assert forall|i: int| 0 <= i < f.len() implies (#[trigger] ticks_of(f)[i]).price > 0 by {
            if i < fr.len() {
                assert(ticks_of(fr)[i] == tick_of(fr[i]));
            } else {
                assert(ticks_of(qs)[qs.len() - 1] == tick_of(qs.last()));
            }
        }
    }
}

/// Keeps the successful results with a positive price, re-stamping those
/// more than two seconds in the future to `now_ms`.
pub fn sanitize_quotes(results: Vec<Option<CfdQuote>>, now_ms: i64) -> (r: Vec<CfdQuote>)
    ensures
        r@ == sanitize_all(results@, now_ms),
        r.len() <= results.len(),
        all_positive(ticks_of(r@)),
{
    let ghost all = results@;
    let mut rest = results;
    let count: usize = rest.len();
    let mut out: Vec<CfdQuote> = Vec::new();
    let mut i: usize = 0;
    while rest.len() > 0
        invariant
            i + rest.len() == count,
            count == all.len(),
            rest@ == all.subrange(i as int, all.len() as int),
            out@ == sanitize_all(all.subrange(0, i as int), now_ms),
        decreases rest.len(),
    {
        let item = rest.remove(0);
        proof {
            assert(item == all[i as int]);
            assert(all.subrange(0, i + 1).drop_last() =~= all.subrange(0, i as int));
            assert(rest@ =~= all.subrange(i + 1, all.len() as int));
        }
        match item {
            Some(q) => {
                if q.price > 0 {
                    let ts = if q.ts_ms as i128 - now_ms as i128 > MAX_FUTURE_SKEW_MS as i128 {
                        now_ms
                    } else {
                        q.ts_ms
                    };
                    out.push(CfdQuote { src: q.src, price: q.price, ts_ms: ts });
                }
            },
            None => {},
        }
        i += 1;
    }
    proof {
        assert(all.subrange(0, i as int) =~= all);
        lemma_sanitize_all(all, now_ms);
    }
    out
}

/// Keeps the quotes whose age at `now_ms` is at most `max_stale_ms`.
pub fn filter_fresh(quotes: Vec<CfdQuote>, now_ms: i64, max_stale_ms: u64) -> (r: Vec<CfdQuote>)
    requires
        all_positive(ticks_of(quotes@)),
    ensures
        r@ == fresh_quotes(quotes@, now_ms, max_stale_ms),
        r.len() <= quotes.len(),
        all_positive(ticks_of(r@)),
{
    let ghost all = quotes@;
    let mut rest = quotes;
    let count: usize = rest.len();
    let mut out: Vec<CfdQuote> = Vec::new();
    let mut i: usize = 0;
    while rest.len() > 0
        invariant
            i + rest.len() == count,
            count == all.len(),
            rest@ == all.subrange(i as int, all.len() as int),
            out@ == fresh_quotes(all.subrange(0, i as int), now_ms, max_stale_ms),
        decreases rest.len(),
    {
        let q = rest.remove(0);
        proof {
            assert(q == all[i as int]);
            assert(all.subrange(0, i + 1).drop_last() =~= all.subrange(0, i as int));
            assert(rest@ =~= all.subrange(i + 1, all.len() as int));
        }
        let d: i128 = now_ms as i128 - q.ts_ms as i128;
        let age: u128 = if d >= 0 {
            d as u128
        } else {
            (-d) as u128
        };
        if age <= max_stale_ms as u128 {
            out.push(q);
        }
        i += 1;
    }
    proof {
        assert(all.subrange(0, i as int) =~= all);
        lemma_fresh_quotes(all, now_ms, max_stale_ms);
    }
    out
}

} // verus!
