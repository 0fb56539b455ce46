//! Constant-maturity interpolation between two futures legs.
use vstd::prelude::*;
use crate::clock::utc_now_ms;
use crate::index::{IndexBuilder, IndexError};
use crate::types::{CmfInputs, IndexTick, TickSource};

verus! {

/// Constant-maturity futures over two adjacent expiries: prices are
/// interpolated linearly in time-to-expiry to reach the target maturity.
pub struct CmfIndexBuilder {
    pub symbol: String,
    pub expo: i8,
}

/// Milliseconds from `now` until `future`, or zero once it has passed.
pub open spec fn time_to(now: i64, future: i64) -> nat {
    if future - now > 0 {
        (future - now) as nat
    } else {
        0
    }
}

/// Linear interpolation at maturity `tau` between `(d1, p1)` and `(d2, p2)`
/// with `d1 < d2`, held at the nearer leg outside `[d1, d2]`, rounded down.
pub open spec fn interpolate(d1: nat, p1: u64, d2: nat, p2: u64, tau: nat) -> int {
    if tau <= d1 {
        p1 as int
    } else if tau >= d2 {
        p2 as int
    } else {
        (p1 as int * (d2 - tau) + p2 as int * (tau - d1)) / (d2 - d1)
    }
}

/// The constant-maturity price of `inp` at `now`, or `None` when both legs
/// have expired.
pub open spec fn cmf_price(inp: CmfInputs, now: i64) -> Option<int> {
    let a = time_to(now, inp.f1.expiry_ts_ms);
    let b = time_to(now, inp.f2.expiry_ts_ms);
    let (d1, p1, d2, p2) = if a > b {
        (b, inp.f2.price, a, inp.f1.price)
    } else {
        (a, inp.f1.price, b, inp.f2.price)
    };
    let tau: nat = if inp.target_ms > 0 {
        inp.target_ms as nat
    } else {
        0
    };
    if d1 == 0 && d2 == 0 {
        None
    } else if d1 == d2 {
        Some(p1 as int)
    } else {
        Some(interpolate(d1, p1, d2, p2, tau))
    }
}

/// What building at `now` owes: the interpolated price, or an error when
/// both legs have expired.
pub open spec fn cmf_outcome(
    b: CmfIndexBuilder,
    tick: CmfInputs,
    now: i64,
    r: Result<IndexTick, IndexError>,
) -> bool {
    match cmf_price(tick, now) {
        None => r matches Err(e) && e is InvalidInput,
        Some(p) => r matches Ok(t) && t.price == p && t.symbol@ == b.symbol@ && t.expo == b.expo
            && t.ts_ms == now && t.source == TickSource::Cmf && t.window_sec == 0,
    }
}

impl CmfIndexBuilder {
    pub fn new(symbol: String, expo: i8) -> (r: Self)
        ensures
            r.symbol == symbol,
            r.expo == expo,
    {
        CmfIndexBuilder { symbol, expo }
    }

    /// Milliseconds from `now_ms` until `future_ms`, never negative.
    fn ms_to(now_ms: i64, future_ms: i64) -> (r: u64)
        ensures
            r == time_to(now_ms, future_ms),
    {
        let d: i128 = future_ms as i128 - now_ms as i128;
        if d > 0 {
            d as u64
        } else {
            0
        }
    }

    /// The constant-maturity tick at `now_ms`; an error when both legs have expired.
    pub fn build_at(&self, tick: CmfInputs, now_ms: i64) -> (r: Result<IndexTick, IndexError>)
        ensures
            cmf_outcome(*self, tick, now_ms, r),
    {
        let mut d1 = Self::ms_to(now_ms, tick.f1.expiry_ts_ms);
        let mut d2 = Self::ms_to(now_ms, tick.f2.expiry_ts_ms);
        let mut p1 = tick.f1.price;
        let mut p2 = tick.f2.price;
        if d1 > d2 {
            let t = d1;
            d1 = d2;
            d2 = t;
            let q = p1;
            p1 = p2;
            p2 = q;
        }
        if d1 == 0 && d2 == 0 {
            return Err(IndexError::InvalidInput("invalid time-to-expiry".to_owned()));
        }
        let tau: u64 = if tick.target_ms > 0 {
            tick.target_ms as u64
        } else {
            0
        };
        let price: u64 = if d1 == d2 || tau <= d1 {
            p1
        } else if tau >= d2 {
            p2
        } else {
            let a = (d2 - tau) as u128;
            let b = (tau - d1) as u128;
            let span = (d2 - d1) as u128;
            proof {
                assert(p1 as int * a + p2 as int * b <= 0xFFFF_FFFF_FFFF_FFFF * span)
                    by (nonlinear_arith)
                    requires
                        0 <= p1 <= 0xFFFF_FFFF_FFFF_FFFF,
                        0 <= p2 <= 0xFFFF_FFFF_FFFF_FFFF,
                        0 <= a,
                        0 <= b,
                        span == a + b,
                ;
                assert(0xFFFF_FFFF_FFFF_FFFF * span <= 0xFFFF_FFFF_FFFF_FFFF
                    * 0xFFFF_FFFF_FFFF_FFFF) by (nonlinear_arith)
                    requires
                        0 < span <= 0xFFFF_FFFF_FFFF_FFFF,
                ;
                vstd::arithmetic::div_mod::lemma_div_is_ordered(
                    p1 as int * a + p2 as int * b,
                    0xFFFF_FFFF_FFFF_FFFF * span,
                    span as int,
                );
                vstd::arithmetic::div_mod::lemma_div_by_multiple(
                    0xFFFF_FFFF_FFFF_FFFF,
                    span as int,
                );
            }
            ((p1 as u128 * a + p2 as u128 * b) / span) as u64
        };
        proof {
            reveal_strlit("invalid time-to-expiry");
        }
        Ok(
            IndexTick {
                symbol: self.symbol.clone(),
                price,
                expo: self.expo,
                ts_ms: now_ms,
                source: TickSource::Cmf,
                window_sec: 0,
            },
        )
    }
}

impl IndexBuilder<CmfInputs> for CmfIndexBuilder {
    /// Builds at the current wall-clock time, whatever it reads.
    fn build(&mut self, tick: CmfInputs) -> (r: Result<IndexTick, IndexError>)
        ensures
            final(self).symbol == old(self).symbol,
            final(self).expo == old(self).expo,
            exists|now: i64| #[trigger] cmf_outcome(*old(self), tick, now, r),
    {
        let now = utc_now_ms();
        self.build_at(tick, now)
    }
}

} // verus!
