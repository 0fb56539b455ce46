//! A single-provider CFD index over a rolling buffer of ticks.
use vstd::prelude::*;
use crate::clock::utc_now_ms;
use crate::consensus::prices_of;
use crate::index::{IndexBuilder, IndexError};
use crate::stats::{abs_diff, abs_diff_u64, median, median_of};
use crate::types::{CfdTick, IndexTick, TickSource, PPM};

verus! {

/// A single-provider CFD index: a rolling buffer of ticks, fused as the mean
/// of a time-weighted average and a rolling median.
pub struct CfdIndex {
    pub symbol: String,
    pub expo: i8,
    pub twap_sec: u32,
    pub median_sec: u32,
    pub max_staleness_ms: u64,
    /// Largest accepted relative jump between ticks, in parts per million.
    pub jump_ppm: u64,
    /// Buffered ticks in arrival order.
    pub buf: Vec<CfdTick>,
    pub last_px: Option<u64>,
}

/// Drops ticks from the front while they are older than `window` at `now`.
pub open spec fn pruned(buf: Seq<CfdTick>, now: i64, window: int) -> Seq<CfdTick>
    decreases buf.len(),
{
    if buf.len() > 0 && now - buf[0].ts_ms > window {
        pruned(buf.drop_first(), now, window)
    } else {
        buf
    }
}

/// Time-weighted sums `(sum price * dt, sum dt)` walking back from the newest
/// tick, each tick weighted by the time until the next one (at least 1 ms),
/// stopping at the first tick older than `window`.
pub open spec fn twap_sums(buf: Seq<CfdTick>, now: i64, window: int, last_ts: int) -> (int, int)
    decreases buf.len(),
{
    if buf.len() == 0 {
        (0, 0)
    } else {
        let t = buf.last();
        if now - t.ts_ms > window {
            (0, 0)
        } else {
            let dt = if last_ts - t.ts_ms < 1 {
                1
            } else {
                last_ts - t.ts_ms
            };
            let rest = twap_sums(buf.drop_last(), now, window, t.ts_ms as int);
            (rest.0 + t.price * dt, rest.1 + dt)
        }
    }
}

proof fn lemma_twap_sums_bounds(buf: Seq<CfdTick>, now: i64, window: int, last_ts: int)
    ensures
        0 <= twap_sums(buf, now, window, last_ts).0 <= 0xFFFF_FFFF_FFFF_FFFF * twap_sums(
            buf,
            now,
            window,
            last_ts,
        ).1,
        0 <= twap_sums(buf, now, window, last_ts).1,
    decreases buf.len(),
{
    if buf.len() > 0 {
        let t = buf.last();
        if now - t.ts_ms <= window {
            lemma_twap_sums_bounds(buf.drop_last(), now, window, t.ts_ms as int);
            let dt = if last_ts - t.ts_ms < 1 {
                1
            } else {
                last_ts - t.ts_ms
            };
            let rest = twap_sums(buf.drop_last(), now, window, t.ts_ms as int);
            assert(0 <= t.price * dt <= 0xFFFF_FFFF_FFFF_FFFF * dt) by (nonlinear_arith)
                requires
                    0 <= t.price <= 0xFFFF_FFFF_FFFF_FFFF,
                    dt >= 1,
            ;
            assert(0xFFFF_FFFF_FFFF_FFFF * (rest.1 + dt) == 0xFFFF_FFFF_FFFF_FFFF * rest.1
                + 0xFFFF_FFFF_FFFF_FFFF * dt);
        }
    }
}

/// The rolling window of the buffer, in milliseconds.
pub open spec fn window_of(median_sec: u32, twap_sec: u32) -> int {
    if median_sec > twap_sec {
        median_sec * 1000
    } else {
        twap_sec * 1000
    }
}

/// The time-weighted average of `buf` at `now`, if its weights are positive
/// and its sums fit in 128 bits.
pub open spec fn twap_of(buf: Seq<CfdTick>, now: i64, twap_sec: u32) -> Option<int> {
    let s = twap_sums(buf, now, twap_sec * 1000, now as int);
    if s.1 > 0 && s.0 <= u128::MAX && s.1 <= u128::MAX {
        Some(s.0 / s.1)
    } else {
        None
    }
}

/// What accepting `tick` at `now` owes, from state `before` to state `after`.
pub open spec fn index_outcome(
    before: CfdIndex,
    after: CfdIndex,
    tick: CfdTick,
    now: i64,
    r: Result<IndexTick, IndexError>,
) -> bool {
    &&& after.symbol == before.symbol
    &&& after.expo == before.expo
    &&& after.twap_sec == before.twap_sec
    &&& after.median_sec == before.median_sec
    &&& after.max_staleness_ms == before.max_staleness_ms
    &&& after.jump_ppm == before.jump_ppm
    &&& {
        let age = now - tick.ts_ms;
        let stale = age < 0 || age > before.max_staleness_ms;
        let jump = match before.last_px {
            Some(prev) => abs_diff(tick.price, prev) as int * PPM as int
                > before.jump_ppm as int * prev as int,
            None => false,
        };
        let buf = pruned(
            before.buf@.push(tick),
            now,
            window_of(before.median_sec, before.twap_sec),
        );
        if stale {
            r matches Err(e) && e is StaleInput && after.buf@ == before.buf@
                && after.last_px == before.last_px
        } else if jump {
            r matches Err(e) && e is JumpRejected && after.buf@ == before.buf@
                && after.last_px == before.last_px
        } else {
            &&& after.buf@ == buf
            &&& after.last_px == Some(tick.price)
            &&& match twap_of(buf, now, before.twap_sec) {
                None => r matches Err(e) && e is NotEnoughData,
                Some(tw) => r matches Ok(t) && t.price == (tw + median_of(prices_of(buf)))
                    / 2 && t.symbol@ == before.symbol@ && t.expo == before.expo
                    && t.ts_ms == now && t.source == TickSource::Cfd && t.window_sec
                    == before.twap_sec,
            }
        }
    }
}

impl CfdIndex {
    pub fn new(
        symbol: String,
        expo: i8,
        twap_sec: u32,
        median_sec: u32,
        max_staleness_ms: u64,
        jump_ppm: u64,
    ) -> (r: Self)
        ensures
            r.symbol == symbol,
            r.expo == expo,
            r.twap_sec == twap_sec,
            r.median_sec == median_sec,
            r.max_staleness_ms == max_staleness_ms,
            r.jump_ppm == jump_ppm,
            r.buf@.len() == 0,
            r.last_px is None,
    {
        CfdIndex {
            symbol,
            expo,
            twap_sec,
            median_sec,
            max_staleness_ms,
            jump_ppm,
            buf: Vec::new(),
            last_px: None,
        }
    }

    /// Drops buffered ticks older than the rolling window at `now_ms`.
    fn prune(&mut self, now_ms: i64)
        ensures
            final(self).buf@ == pruned(
                old(self).buf@,
                now_ms,
                window_of(old(self).median_sec, old(self).twap_sec),
            ),
            final(self).symbol == old(self).symbol,
            final(self).expo == old(self).expo,
            final(self).twap_sec == old(self).twap_sec,
            final(self).median_sec == old(self).median_sec,
            final(self).max_staleness_ms == old(self).max_staleness_ms,
            final(self).jump_ppm == old(self).jump_ppm,
            final(self).last_px == old(self).last_px,
    {
        let window: i128 = if self.median_sec > self.twap_sec {
            self.median_sec as i128 * 1000
        } else {
            self.twap_sec as i128 * 1000
        };
        while self.buf.len() > 0 && now_ms as i128 - self.buf[0].ts_ms as i128 > window
            invariant
                pruned(self.buf@, now_ms, window as int) == pruned(
                    old(self).buf@,
                    now_ms,
                    window_of(old(self).median_sec, old(self).twap_sec),
                ),
                window == window_of(old(self).median_sec, old(self).twap_sec),
                self.symbol == old(self).symbol,
                self.expo == old(self).expo,
                self.twap_sec == old(self).twap_sec,
                self.median_sec == old(self).median_sec,
                self.max_staleness_ms == old(self).max_staleness_ms,
                self.jump_ppm == old(self).jump_ppm,
                self.last_px == old(self).last_px,
            decreases self.buf.len(),
        {
            let ghost before = self.buf@;
            self.buf.remove(0);
            assert(self.buf@ =~= before.drop_first());
        }
    }

    /// The median buffered price, if any.
    fn median_px(&self) -> (r: Option<u64>)
        ensures
            self.buf@.len() == 0 ==> r is None,
            self.buf@.len() > 0 ==> r == Some(median_of(prices_of(self.buf@))),
    {
        if self.buf.len() == 0 {
            return None;
        }
        let mut v: Vec<u64> = Vec::new();
        let mut i: usize = 0;
        while i < self.buf.len()
            invariant
                i <= self.buf.len(),
                v@.len() == i,
                forall|j: int| 0 <= j < i ==> v@[j] == #[trigger] self.buf@[j].price,
            decreases self.buf.len() - i,
        {
            v.push(self.buf[i].price);
            i += 1;
        }
        assert(v@ =~= prices_of(self.buf@));
        Some(median(v))
    }

    /// The time-weighted average price over the last `twap_sec` seconds.
    fn twap(&self, now_ms: i64) -> (r: Option<u64>)
        ensures
            r matches Some(v) ==> twap_of(self.buf@, now_ms, self.twap_sec) == Some(v as int),
            r is None ==> twap_of(self.buf@, now_ms, self.twap_sec) is None,
    {
        let window: i128 = self.twap_sec as i128 * 1000;
        let ghost full = twap_sums(self.buf@, now_ms, window as int, now_ms as int);
        proof {
            lemma_twap_sums_bounds(self.buf@, now_ms, window as int, now_ms as int);
        }
        let mut num: u128 = 0;
        let mut den: u128 = 0;
        let mut last_ts: i128 = now_ms as i128;
        let mut j: usize = self.buf.len();
        let mut overflow = false;
        let mut stop = false;
        assert(self.buf@.subrange(0, j as int) =~= self.buf@);
        while j > 0 && !stop && !overflow
            invariant
                j <= self.buf.len(),
                window == self.twap_sec * 1000,
                !overflow ==> num + twap_sums(
                    self.buf@.subrange(0, j as int),
                    now_ms,
                    window as int,
                    last_ts as int,
                ).0 == full.0,
                !overflow ==> den + twap_sums(
                    self.buf@.subrange(0, j as int),
                    now_ms,
                    window as int,
                    last_ts as int,
                ).1 == full.1,
                stop ==> twap_sums(
                    self.buf@.subrange(0, j as int),
                    now_ms,
                    window as int,
                    last_ts as int,
                ) == (0int, 0int),
                overflow ==> full.0 > u128::MAX || full.1 > u128::MAX,
                i64::MIN <= last_ts <= i64::MAX,
            decreases 2 * j + if stop || overflow {
                0int
            } else {
                1int
            },
        {
            let t = self.buf[j - 1];
            let ghost pre = self.buf@.subrange(0, j as int);
            proof {
                assert(pre.last() == t);
                assert(pre.drop_last() =~= self.buf@.subrange(0, j - 1));
                lemma_twap_sums_bounds(pre.drop_last(), now_ms, window as int, t.ts_ms as int);
            }
            if now_ms as i128 - t.ts_ms as i128 > window {
                stop = true;
            } else {
                let gap: i128 = last_ts - t.ts_ms as i128;
                let dt: u128 = if gap < 1 {
                    1
                } else {
                    gap as u128
                };
                proof {
                    assert(0 <= t.price * dt) by (nonlinear_arith)
                        requires
                            dt >= 1,
                            t.price >= 0,
                    ;
                }
                match (t.price as u128).checked_mul(dt) {
                    None => {
                        overflow = true;
                    },
                    Some(pd) => match num.checked_add(pd) {
                        None => {
                            overflow = true;
                        },
                        Some(n2) => match den.checked_add(dt) {
                            None => {
                                overflow = true;
                            },
                            Some(d2) => {
                                num = n2;
                                den = d2;
                                last_ts = t.ts_ms as i128;
                                j -= 1;
                            },
                        },
                    },
                }
            }
        }
        if j == 0 {
            assert(self.buf@.subrange(0, 0) =~= Seq::<CfdTick>::empty());
        }
        if overflow || den == 0 {
            return None;
        }
        proof {
            vstd::arithmetic::div_mod::lemma_div_is_ordered(
                full.0,
                0xFFFF_FFFF_FFFF_FFFF * full.1,
                full.1,
            );
            vstd::arithmetic::div_mod::lemma_div_by_multiple(0xFFFF_FFFF_FFFF_FFFF, full.1);
        }
        Some((num / den) as u64)
    }

    /// Accepts `tick` at `now_ms` and produces the index tick: rejects stale
    /// or future ticks and jumps beyond the limit, otherwise buffers the tick,
    /// prunes the window, and fuses the TWAP with the rolling median.
    pub fn build_at(&mut self, tick: CfdTick, now_ms: i64) -> (r: Result<IndexTick, IndexError>)
        ensures
            index_outcome(*old(self), *final(self), tick, now_ms, r),
    {
        let age: i128 = now_ms as i128 - tick.ts_ms as i128;
        if age < 0 || age > self.max_staleness_ms as i128 {
            return Err(IndexError::StaleInput);
        }
        match self.last_px {
            Some(prev) => {
                proof {
                    assert(self.jump_ppm as int * prev as int <= 0xFFFF_FFFF_FFFF_FFFF
                        * 0xFFFF_FFFF_FFFF_FFFF) by (nonlinear_arith)
                        requires
                            0 <= self.jump_ppm <= 0xFFFF_FFFF_FFFF_FFFF,
                            0 <= prev <= 0xFFFF_FFFF_FFFF_FFFF,
                    ;
                }
                let moved = abs_diff_u64(tick.price, prev) as u128 * PPM as u128;
                if moved > self.jump_ppm as u128 * prev as u128 {
                    return Err(IndexError::JumpRejected);
                }
            },
            None => {},
        }
        self.buf.push(tick);
        self.prune(now_ms);
        self.last_px = Some(tick.price);
        let tw = match self.twap(now_ms) {
            Some(v) => v,
            None => {
                return Err(IndexError::NotEnoughData);
            },
        };
        let med = match self.median_px() {
            Some(m) => m,
            None => tw,
        };
        let fused = ((tw as u128 + med as u128) / 2) as u64;
        Ok(
            IndexTick {
                symbol: self.symbol.clone(),
                price: fused,
                expo: self.expo,
                ts_ms: now_ms,
                source: TickSource::Cfd,
                window_sec: self.twap_sec,
            },
        )
    }
}

impl IndexBuilder<CfdTick> for CfdIndex {
    /// Accepts `tick` at the current wall-clock time, whatever it reads.
    fn build(&mut self, tick: CfdTick) -> (r: Result<IndexTick, IndexError>)
        ensures
            exists|now: i64| #[trigger] index_outcome(*old(self), *final(self), tick, now, r),
    {
        let now = utc_now_ms();
        self.build_at(tick, now)
    }
}

} // verus!
