//! The funding reference EMA and the capped funding rate.
use vstd::prelude::*;
use vstd::string::StringExecFns;
use crate::stats::{abs_diff, abs_diff_u64};
use crate::types::{FundingUpdate, IndexTick, PPM};

verus! {

/// Turns the basis between a mark and a reference into a capped funding rate.
pub struct FundingEngine {
    /// Basis-to-rate coefficient, in parts per million.
    pub kappa_ppm: u64,
    /// Largest rate magnitude, in parts per million.
    pub cap_ppm: u32,
    pub interval_sec: u32,
}

/// `|mark - reference| / reference` in parts per million, rounded down.
pub open spec fn basis_magnitude(mark: u64, reference: u64) -> nat {
    (abs_diff(mark, reference) as int * PPM as int / reference as int) as nat
}

/// `kappa * basis`, rounded towards zero, then clamped to `[-cap, cap]`.
pub open spec fn funding_rate(mark: u64, reference: u64, kappa_ppm: u64, cap_ppm: u32) -> int {
    let raw = kappa_ppm as int * basis_magnitude(mark, reference) as int / PPM as int;
    let mag = if raw > cap_ppm {
        cap_ppm as int
    } else {
        raw
    };
    if mark >= reference {
        mag
    } else {
        -mag
    }
}

impl FundingEngine {
    pub fn new(kappa_ppm: u64, cap_ppm: u32, interval_sec: u32) -> (r: Self)
        ensures
            r.kappa_ppm == kappa_ppm,
            r.cap_ppm == cap_ppm,
            r.interval_sec == interval_sec,
    {
        FundingEngine { kappa_ppm, cap_ppm, interval_sec }
    }

    /// The funding update for `mark` against `index_ref`, for the perpetual
    /// `<symbol>-PERP`. Its rate never exceeds the cap in magnitude.
    pub fn compute(&self, mark: &IndexTick, index_ref: &IndexTick) -> (r: FundingUpdate)
        requires
            index_ref.price > 0,
        ensures
            r.rate_ppm == funding_rate(mark.price, index_ref.price, self.kappa_ppm, self.cap_ppm),
            -(self.cap_ppm as int) <= r.rate_ppm <= self.cap_ppm,
            r.symbol@ == mark.symbol@ + "-PERP"@,
            r.interval_sec == self.interval_sec,
            r.ts_ms == mark.ts_ms,
    {
        let basis: u128 = (abs_diff_u64(mark.price, index_ref.price) as u128) * (PPM as u128)
            / (index_ref.price as u128);
        let mag: u64 = match (self.kappa_ppm as u128).checked_mul(basis) {
            None => self.cap_ppm as u64,
            Some(p) => {
                let raw = p / (PPM as u128);
                if raw > self.cap_ppm as u128 {
                    self.cap_ppm as u64
                } else {
                    raw as u64
                }
            },
        };
        proof {
            let raw = self.kappa_ppm as int * basis as int / PPM as int;
            let kb = self.kappa_ppm as int * basis as int;
            if kb > u128::MAX {
                let big: int = 0x1_0000_0000int * 1_000_000int;
                vstd::arithmetic::div_mod::lemma_div_is_ordered(big, kb, PPM as int);
                vstd::arithmetic::div_mod::lemma_div_by_multiple(0x1_0000_0000, PPM as int);
                assert(raw > self.cap_ppm);
            }
        }
        let rate: i64 = if mark.price >= index_ref.price {
            mag as i64
        } else {
            -(mag as i64)
        };
        proof {
            reveal_strlit("-PERP");
        }
        let symbol = mark.symbol.clone().concat("-PERP");
        FundingUpdate { symbol, rate_ppm: rate, interval_sec: self.interval_sec, ts_ms: mark.ts_ms }
    }
}

/// An exponential moving average with smoothing factor `alpha_ppm`.
pub struct Ema {
    pub alpha_ppm: u64,
    pub value: Option<u64>,
}

/// One EMA step from `v` towards `x`: `alpha * x + (1 - alpha) * v`, rounded
/// towards `x`.
pub open spec fn ema_step(v: u64, x: u64, alpha_ppm: u64) -> u64 {
    let keep = (PPM - alpha_ppm) as int;
    if v >= x {
        (x + keep * (v - x) / PPM as int) as u64
    } else {
        (x - keep * (x - v) / PPM as int) as u64
    }
}

/// `keep * d / PPM < d` for a positive distance `d` and `keep < PPM`.
proof fn lemma_shrinks(keep: int, d: int)
    requires
        0 <= keep < PPM,
        d >= 1,
    ensures
        0 <= keep * d / (PPM as int),
        keep * d / (PPM as int) < d,
{
    let p: int = PPM as int;
    let a = keep * d;
    let q = a / p;
    let m = a % p;
    vstd::arithmetic::div_mod::lemma_fundamental_div_mod(a, p);
    vstd::arithmetic::div_mod::lemma_mod_bound(a, p);
    assert(0 <= a < p * d) by (nonlinear_arith)
        requires
            0 <= keep < p,
            d >= 1,
            a == keep * d,
    ;
    assert(0 <= q < d) by (nonlinear_arith)
        requires
            a == p * q + m,
            0 <= m < p,
            0 <= a < p * d,
    ;
}

impl Ema {
    /// Well formed: the smoothing factor lies strictly between zero and one.
    pub open spec fn wf(&self) -> bool {
        0 < self.alpha_ppm < PPM
    }

    pub fn new(alpha_ppm: u64) -> (r: Self)
        ensures
            r.alpha_ppm == alpha_ppm,
            r.value is None,
    {
        Ema { alpha_ppm, value: None }
    }

    /// Feeds `x` in and returns the new average. The first input sets the
    /// average; afterwards the average moves strictly closer to `x` unless it
    /// is already there.
    pub fn update(&mut self, x: u64) -> (r: u64)
        requires
            old(self).wf(),
        ensures
            final(self).alpha_ppm == old(self).alpha_ppm,
            final(self).value == Some(r),
            old(self).value is None ==> r == x,
            old(self).value matches Some(v) ==> r == ema_step(v, x, old(self).alpha_ppm),
            old(self).value matches Some(v) ==> (v == x ==> r == x),
            old(self).value matches Some(v) ==> (v != x ==> abs_diff(r, x) < abs_diff(v, x)),
            old(self).value matches Some(v) ==> (v <= r <= x || x <= r <= v),
    {
        let keep = (PPM - self.alpha_ppm) as u128;
        let next = match self.value {
            None => x,
            Some(v) => {
                if v >= x {
                    proof {
                        let d: int = v - x;
                        assert(0 <= keep * d <= 1_000_000 * 0xFFFF_FFFF_FFFF_FFFF) by (nonlinear_arith)
                            requires
                                0 <= keep <= 1_000_000,
                                0 <= d <= 0xFFFF_FFFF_FFFF_FFFF,
                        ;
                        if v > x {
                            lemma_shrinks(keep as int, d);
                        } else {
                            assert(keep * d == 0) by (nonlinear_arith)
                                requires
                                    d == 0,
                            ;
                        }
                    }
                    x + (keep * ((v - x) as u128) / (PPM as u128)) as u64
                } else {
                    proof {
                        let d: int = x - v;
                        assert(0 <= keep * d <= 1_000_000 * 0xFFFF_FFFF_FFFF_FFFF) by (nonlinear_arith)
                            requires
                                0 <= keep <= 1_000_000,
                                0 <= d <= 0xFFFF_FFFF_FFFF_FFFF,
                        ;
                        lemma_shrinks(keep as int, d);
                    }
                    x - (keep * ((x - v) as u128) / (PPM as u128)) as u64
                }
            },
        };
        self.value = Some(next);
        next
    }
}

} // verus!
