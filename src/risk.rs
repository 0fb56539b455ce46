//! A standalone risk engine: realized-move guard and trading-hours gate.
use vstd::prelude::*;
use vstd::arithmetic::div_mod::{lemma_fundamental_div_mod, lemma_fundamental_div_mod_converse};
use crate::clock::utc_now_ms;
use crate::index::IndexError;
use crate::stats::{abs_diff, abs_diff_u64};
use crate::types::PPM;

verus! {

/// One day in milliseconds.
pub const DAY_MS: i64 = 86_400_000;

/// One hour in milliseconds.
pub const HOUR_MS: i64 = 3_600_000;

/// A whole number of weeks larger than any `i64` timestamp, used to move
/// timestamps into the non-negative range without changing weekday or hour.
pub const WEEKS_SHIFT_MS: i128 = 604_800_000 * 15_280_070_165;

/// The risk switches for one tick.
#[derive(Debug, Clone, Copy, PartialEq, Eq, Structural)]
pub struct RiskSwitches {
    pub circuit_breaker: bool,
    pub roll_window: bool,
    pub hours_open: bool,
}

/// A one-step realized-move guard over a 60 s lookback, and a simple
/// trading-hours gate.
pub struct RiskEngine {
    /// Largest allowed move over 60 s, in parts per million.
    pub max_delta_ppm_60s: u64,
    /// The last price seen and when.
    pub last_px: Option<(u64, i64)>,
}

/// Day of the week of a Unix timestamp, Monday = 1 through Sunday = 7.
pub open spec fn weekday_of(ms: int) -> int {
    (ms / DAY_MS as int + 3) % 7 + 1
}

/// Hour of the day (0 to 23) of a Unix timestamp.
pub open spec fn hour_of(ms: int) -> int {
    (ms % DAY_MS as int) / HOUR_MS as int
}

/// Open Monday to Friday from 09:00 through 14:59 local time.
pub open spec fn hours_open_spec(now_ms: i64, tz_offset_hours: i32) -> bool {
    let local = now_ms + tz_offset_hours * HOUR_MS;
    1 <= weekday_of(local) <= 5 && 9 <= hour_of(local) <= 14
}

/// Whether the move from `base` to `px` breaches the 60 s guard: the elapsed
/// time is at most 60 s and `|px - base| / base > max_delta`.
pub open spec fn breaches(px: u64, now: i64, base: (u64, i64), max_ppm: u64) -> bool {
    let dt = if now - base.1 < 1 {
        1
    } else {
        now - base.1
    };
    dt <= 60_000 && abs_diff(px, base.0) as int * PPM as int > max_ppm as int * base.0 as int
}

pub open spec fn error_code(e: IndexError) -> Seq<char> {
    match e {
        IndexError::NotEnoughData => "nodata"@,
        IndexError::StaleInput => "stale"@,
        IndexError::JumpRejected => "jump"@,
        IndexError::InvalidInput(_) => "invalid"@,
        IndexError::Internal(_) => "internal"@,
    }
}

impl RiskEngine {
    pub fn new(max_delta_ppm_60s: u64) -> (r: Self)
        ensures
            r.max_delta_ppm_60s == max_delta_ppm_60s,
            r.last_px is None,
    {
        RiskEngine { max_delta_ppm_60s, last_px: None }
    }

    /// The trading-hours gate at `now_ms`, shifted by `tz_offset_hours`.
    pub fn trading_hours_open_at(&self, now_ms: i64, tz_offset_hours: i32) -> (r: bool)
        ensures
            r == hours_open_spec(now_ms, tz_offset_hours),
    {
        proof {
            assert(-0x8000_0000 * 3_600_000 <= tz_offset_hours as int * 3_600_000 <= 0x8000_0000
                * 3_600_000) by (nonlinear_arith)
                requires
                    -0x8000_0000 <= tz_offset_hours <= 0x8000_0000,
            ;
        }
        let local: i128 = now_ms as i128 + tz_offset_hours as i128 * HOUR_MS as i128;
        let shifted: u128 = (local + WEEKS_SHIFT_MS) as u128;
        let days: u128 = shifted / DAY_MS as u128;
        let rem: u128 = shifted % DAY_MS as u128;
        let wd: u128 = (days + 3) % 7 + 1;
        let h: u128 = rem / HOUR_MS as u128;
        proof {
            let d = DAY_MS as int;
            let j: int = 15_280_070_165;
            let k: int = 7 * j;
            assert(WEEKS_SHIFT_MS == k * d);
            let l: int = local as int;
            lemma_fundamental_div_mod(l, d);
            let q = l / d;
            let m = l % d;
            assert(shifted == d * (q + k) + m) by (nonlinear_arith)
                requires
                    l == d * q + m,
                    shifted == l + k * d,
            ;
            lemma_fundamental_div_mod_converse(shifted as int, d, q + k, m);
            lemma_fundamental_div_mod(q + 3, 7);
            let a = (q + 3) / 7;
            let b = (q + 3) % 7;
            lemma_fundamental_div_mod_converse(q + k + 3, 7, a + j, b);
        }
        1 <= wd && wd <= 5 && 9 <= h && h <= 14
    }

    /// The trading-hours gate at the current wall-clock time.
    pub fn trading_hours_open(&self, tz_offset_hours: i32) -> bool {
        let now = utc_now_ms();
        self.trading_hours_open_at(now, tz_offset_hours)
    }

    /// Trips when the move from the base price exceeds the 60 s limit. The base
    /// is `last_good` when given, else the last price seen, else the new price
    /// itself; the new price is remembered either way.
    pub fn eval_circuit_breaker(&mut self, last_good: Option<(u64, i64)>, new_px: u64, now_ms: i64) -> (r: bool)
        ensures
            final(self).max_delta_ppm_60s == old(self).max_delta_ppm_60s,
            final(self).last_px == Some((new_px, now_ms)),
            r == breaches(
                new_px,
                now_ms,
                match last_good {
                    Some(b) => b,
                    None => match old(self).last_px {
                        Some(b) => b,
                        None => (new_px, now_ms),
                    },
                },
                old(self).max_delta_ppm_60s,
            ),
    {
        let base: (u64, i64) = match last_good {
            Some(b) => b,
            None => match self.last_px {
                Some(b) => b,
                None => (new_px, now_ms),
            },
        };
        let d: i128 = now_ms as i128 - base.1 as i128;
        let dt: i128 = if d < 1 {
            1
        } else {
            d
        };
        proof {
            assert(self.max_delta_ppm_60s as int * base.0 as int <= 0xFFFF_FFFF_FFFF_FFFF
                * 0xFFFF_FFFF_FFFF_FFFF) by (nonlinear_arith)
                requires
                    0 <= self.max_delta_ppm_60s <= 0xFFFF_FFFF_FFFF_FFFF,
                    0 <= base.0 <= 0xFFFF_FFFF_FFFF_FFFF,
            ;
        }
        let moved = abs_diff_u64(new_px, base.0) as u128 * PPM as u128;
        let limit = self.max_delta_ppm_60s as u128 * base.0 as u128;
        self.last_px = Some((new_px, now_ms));
        dt <= 60_000 && moved > limit
    }

    /// A short code for an index error.
    pub fn map_index_error(&self, e: IndexError) -> (r: &'static str)
        ensures
            r@ == error_code(e),
    {
        proof {
            reveal_strlit("nodata");
            reveal_strlit("stale");
            reveal_strlit("jump");
            reveal_strlit("invalid");
            reveal_strlit("internal");
        }
        match e {
            IndexError::NotEnoughData => "nodata",
            IndexError::StaleInput => "stale",
            IndexError::JumpRejected => "jump",
            IndexError::InvalidInput(_) => "invalid",
            IndexError::Internal(_) => "internal",
        }
    }

    /// All risk switches at `now_ms`: the hours gate, the breaker on the new
    /// price if one is given, and the roll flag as passed in.
    pub fn compute_switches_at(
        &mut self,
        now_ms: i64,
        tz_offset_hours: i32,
        last_good: Option<(u64, i64)>,
        maybe_new_px: Option<(u64, i64)>,
        roll_active: bool,
    ) -> (r: RiskSwitches)
        ensures
            r.hours_open == hours_open_spec(now_ms, tz_offset_hours),
            r.roll_window == roll_active,
            maybe_new_px is None ==> !r.circuit_breaker && final(self).last_px == old(
                self,
            ).last_px,
            maybe_new_px matches Some((px, ts)) ==> r.circuit_breaker == breaches(
                px,
                ts,
                match last_good {
                    Some(b) => b,
                    None => match old(self).last_px {
                        Some(b) => b,
                        None => (px, ts),
                    },
                },
                old(self).max_delta_ppm_60s,
            ) && final(self).last_px == Some((px, ts)),
            final(self).max_delta_ppm_60s == old(self).max_delta_ppm_60s,
    {
        let hours_open = self.trading_hours_open_at(now_ms, tz_offset_hours);
        let circuit_breaker = match maybe_new_px {
            Some((px, ts)) => self.eval_circuit_breaker(last_good, px, ts),
            None => false,
        };
        RiskSwitches { circuit_breaker, roll_window: roll_active, hours_open }
    }

    /// All risk switches, with the hours gate at the current wall-clock time.
    pub fn compute_switches(
        &mut self,
        tz_offset_hours: i32,
        last_good: Option<(u64, i64)>,
        maybe_new_px: Option<(u64, i64)>,
        roll_active: bool,
    ) -> (r: RiskSwitches)
        ensures
            r.roll_window == roll_active,
            maybe_new_px is None ==> !r.circuit_breaker && final(self).last_px == old(
                self,
            ).last_px,
            maybe_new_px matches Some((px, ts)) ==> r.circuit_breaker == breaches(
                px,
                ts,
                match last_good {
                    Some(b) => b,
                    None => match old(self).last_px {
                        Some(b) => b,
                        None => (px, ts),
                    },
                },
                old(self).max_delta_ppm_60s,
            ) && final(self).last_px == Some((px, ts)),
            final(self).max_delta_ppm_60s == old(self).max_delta_ppm_60s,
    {
        let now = utc_now_ms();
        self.compute_switches_at(now, tz_offset_hours, last_good, maybe_new_px, roll_active)
    }
}

} // verus!
