//! Provider-side logic: symbol mapping, retry policy, quote validation, mock sources.
use vstd::prelude::*;
use rand::Rng;
use crate::clock::utc_now_ms;
use crate::types::{CfdQuote, CfdSource, FuturesLeg};

verus! {

/// Decimal exponent of the prices that providers hand to the core.
pub const PRICE_EXPO: i8 = -8;

/// How many attempts a provider makes before giving up.
pub const MAX_ATTEMPTS: usize = 4;

/// Why a provider produced no quote.
#[derive(Debug, Clone)]
pub enum ProviderError {
    Timeout,
    RemoteBusy,
    BadStatus(u16),
    Decode,
    Stale,
    Transport(String),
    UnsupportedSymbol(String),
    InvalidPrice,
    RetriesExhausted,
}

/// The vendor name of an internal perpetual symbol, if the vendor lists it.
pub open spec fn ninjas_name_of(sym: Seq<char>) -> Option<Seq<char>> {
    if sym == "LEAN_HOGS_PERP"@ {
        Some("lean_hogs"@)
    } else if sym == "LIVE_CATTLE_PERP"@ {
        Some("live_cattle"@)
    } else if sym == "FEEDER_CATTLE_PERP"@ {
        Some("feeder_cattle"@)
    } else if sym == "CORN_PERP"@ {
        Some("corn"@)
    } else if sym == "SOYBEAN_PERP"@ {
        Some("soybean"@)
    } else if sym == "WHEAT_PERP"@ {
        Some("wheat"@)
    } else if sym == "COFFEE_PERP"@ {
        Some("coffee"@)
    } else if sym == "COCOA_PERP"@ {
        Some("cocoa"@)
    } else if sym == "SUGAR_PERP"@ {
        Some("sugar"@)
    } else if sym == "GOLD_PERP"@ {
        Some("gold"@)
    } else if sym == "SILVER_PERP"@ {
        Some("silver"@)
    } else {
        None
    }
}

fn text_is(s: &String, lit: &str) -> (r: bool)
    ensures
        r == (s@ == lit@),
{
    let t = lit.to_owned();
    *s == t
}

/// Maps an internal symbol to the vendor's commodity name; an unknown symbol
/// is a fatal error.
pub fn map_symbol(symbol: &str) -> (r: Result<&'static str, ProviderError>)
    ensures
        match ninjas_name_of(symbol@) {
            Some(n) => r matches Ok(x) && x@ == n,
            None => r matches Err(e) && e is UnsupportedSymbol,
        },
{
    proof {
        reveal_strlit("LEAN_HOGS_PERP");
        reveal_strlit("LIVE_CATTLE_PERP");
        reveal_strlit("FEEDER_CATTLE_PERP");
        reveal_strlit("CORN_PERP");
        reveal_strlit("SOYBEAN_PERP");
        reveal_strlit("WHEAT_PERP");
        reveal_strlit("COFFEE_PERP");
        reveal_strlit("COCOA_PERP");
        reveal_strlit("SUGAR_PERP");
        reveal_strlit("GOLD_PERP");
        reveal_strlit("SILVER_PERP");
        reveal_strlit("lean_hogs");
        reveal_strlit("live_cattle");
        reveal_strlit("feeder_cattle");
        reveal_strlit("corn");
        reveal_strlit("soybean");
        reveal_strlit("wheat");
        reveal_strlit("coffee");
        reveal_strlit("cocoa");
        reveal_strlit("sugar");
        reveal_strlit("gold");
        reveal_strlit("silver");
    }
    let s = symbol.to_owned();
    if text_is(&s, "LEAN_HOGS_PERP") {
        Ok("lean_hogs")
    } else if text_is(&s, "LIVE_CATTLE_PERP") {
        Ok("live_cattle")
    } else if text_is(&s, "FEEDER_CATTLE_PERP") {
        Ok("feeder_cattle")
    } else if text_is(&s, "CORN_PERP") {
        Ok("corn")
    } else if text_is(&s, "SOYBEAN_PERP") {
        Ok("soybean")
    } else if text_is(&s, "WHEAT_PERP") {
        Ok("wheat")
    } else if text_is(&s, "COFFEE_PERP") {
        Ok("coffee")
    } else if text_is(&s, "COCOA_PERP") {
        Ok("cocoa")
    } else if text_is(&s, "SUGAR_PERP") {
        Ok("sugar")
    } else if text_is(&s, "GOLD_PERP") {
        Ok("gold")
    } else if text_is(&s, "SILVER_PERP") {
        Ok("silver")
    } else {
        Err(ProviderError::UnsupportedSymbol(s))
    }
}

/// The wait before attempt `attempt` (counted from zero): 0, 250, 500, 1000 ms.
pub open spec fn backoff_of(attempt: nat) -> Option<u64> {
    if attempt == 0 {
        Some(0)
    } else if attempt == 1 {
        Some(250)
    } else if attempt == 2 {
        Some(500)
    } else if attempt == 3 {
        Some(1000)
    } else {
        None
    }
}

pub fn backoff_ms(attempt: usize) -> (r: Option<u64>)
    ensures
        r == backoff_of(attempt as nat),
{
    if attempt == 0 {
        Some(0)
    } else if attempt == 1 {
        Some(250)
    } else if attempt == 2 {
        Some(500)
    } else if attempt == 3 {
        Some(1000)
    } else {
        None
    }
}

/// What one HTTP attempt came back with.
#[derive(Debug, Clone, Copy, PartialEq, Eq, Structural)]
pub enum FetchOutcome {
    /// The request did not complete (connection error, timeout).
    TransportError,
    /// The server answered with this status code.
    Status(u16),
}

/// What to do after an attempt.
#[derive(Debug, Clone)]
pub enum RetryDecision {
    /// Success: decode the body.
    Decode,
    /// Wait this many milliseconds, then try again.
    RetryAfter(u64),
    /// Give up with this error.
    Fail(ProviderError),
}

/// Transport errors, 429 and 5xx are worth retrying.
pub open spec fn retryable(o: FetchOutcome) -> bool {
    match o {
        FetchOutcome::TransportError => true,
        FetchOutcome::Status(s) => s == 429 || (500 <= s <= 599),
    }
}

/// The retry policy: decode a 2xx; retry transient failures with the next
/// backoff while attempts remain; give up on any other status at once.
pub fn decide_after_attempt(attempt: usize, outcome: FetchOutcome) -> (r: RetryDecision)
    ensures
        (outcome matches FetchOutcome::Status(s) && 200 <= s <= 299) ==> r is Decode,
        retryable(outcome) ==> match backoff_of(attempt as nat + 1) {
            Some(ms) => r matches RetryDecision::RetryAfter(w) && w == ms,
            None => r matches RetryDecision::Fail(e) && e is RetriesExhausted,
        },
        match outcome {
            FetchOutcome::Status(s) => !(200 <= s <= 299) && !retryable(outcome) ==> (r matches RetryDecision::Fail(e)
                && e matches ProviderError::BadStatus(c) && c == s),
            FetchOutcome::TransportError => true,
        },
{
    match outcome {
        FetchOutcome::Status(s) => {
            if 200 <= s && s <= 299 {
                return RetryDecision::Decode;
            }
            if !(s == 429 || (500 <= s && s <= 599)) {
                return RetryDecision::Fail(ProviderError::BadStatus(s));
            }
        },
        FetchOutcome::TransportError => {},
    }
    if attempt >= MAX_ATTEMPTS - 1 {
        return RetryDecision::Fail(ProviderError::RetriesExhausted);
    }
    match backoff_ms(attempt + 1) {
        Some(w) => RetryDecision::RetryAfter(w),
        None => RetryDecision::Fail(ProviderError::RetriesExhausted),
    }
}

/// The quote for a decoded vendor answer: the price must be positive; the
/// update time in seconds becomes milliseconds, and a missing (non-positive)
/// update time is replaced by `now_ms`.
pub fn ninjas_quote(price: u64, updated_sec: i64, now_ms: i64) -> (r: Result<
    CfdQuote,
    ProviderError,
>)
    ensures
        price == 0 ==> (r matches Err(e) && e is InvalidPrice),
        price > 0 && updated_sec <= 0 ==> (r matches Ok(q) && q.src == CfdSource::Ninjas
            && q.price == price && q.ts_ms == now_ms),
        price > 0 && 0 < updated_sec && updated_sec * 1000 <= i64::MAX ==> (r matches Ok(q)
            && q.src == CfdSource::Ninjas && q.price == price && q.ts_ms == updated_sec * 1000),
        price > 0 && updated_sec * 1000 > i64::MAX ==> (r matches Err(e) && e is Decode),
{
    if price == 0 {
        return Err(ProviderError::InvalidPrice);
    }
    let ts_ms: i64 = if updated_sec > 0 {
        let t: i128 = updated_sec as i128 * 1000;
        if t > i64::MAX as i128 {
            return Err(ProviderError::Decode);
        }
        t as i64
    } else {
        now_ms
    };
    Ok(CfdQuote { src: CfdSource::Ninjas, price, ts_ms })
}

/// Relies on rand::rng and Rng::random_range: a value drawn from the
/// half-open range `[lo, hi)`, which must not be empty.
#[verifier::external_body]
fn draw_in_range(lo: i64, hi: i64) -> (r: i64)
    requires
        lo < hi,
    ensures
        lo <= r < hi,
{
    rand::rng().random_range(lo..hi)
}

/// The walk's shocks are drawn from `[-SHOCK_PPM, SHOCK_PPM)` parts per million.
pub const SHOCK_PPM: i64 = 600;

/// The walk's lowest price: 0.1 in units of 1e-8.
pub const WALK_FLOOR: u64 = 10_000_000;

/// The walk's opening price: 0.907 in units of 1e-8.
pub const WALK_START: u64 = 90_700_000;

/// One step of the walk: `px * (1 + shock)` with a small upward drift,
/// rounded down and floored at `WALK_FLOOR`; `shock_ppm` is in parts per million.
pub open spec fn walk_step(px: u64, shock_ppm: i64) -> u64 {
    let next = px as int * (1_000_000 + shock_ppm + 20) / 1_000_000;
    if next < WALK_FLOOR {
        WALK_FLOOR
    } else if next > u64::MAX {
        u64::MAX
    } else {
        next as u64
    }
}

/// A mock CFD provider whose price follows a small random walk.
#[derive(Debug)]
pub struct OwninjaCfd {
    pub px: u64,
}

impl OwninjaCfd {
    pub fn new() -> (r: Self)
        ensures
            r.px == WALK_START,
    {
        OwninjaCfd { px: WALK_START }
    }

    /// The walk's next price after a shock of `shock_ppm` parts per million.
    pub fn step(px: u64, shock_ppm: i64) -> (r: u64)
        requires
            -1_000_000 <= shock_ppm <= 1_000_000,
        ensures
            r == walk_step(px, shock_ppm),
            r >= WALK_FLOOR,
    {
        let factor: u128 = (1_000_000 + shock_ppm + 20) as u128;
        proof {
            assert(px as int * factor <= 0xFFFF_FFFF_FFFF_FFFF * 2_000_020) by (nonlinear_arith)
                requires
                    0 <= px <= 0xFFFF_FFFF_FFFF_FFFF,
                    0 <= factor <= 2_000_020,
            ;
        }
        let next: u128 = px as u128 * factor / 1_000_000;
        if next < WALK_FLOOR as u128 {
            WALK_FLOOR
        } else if next > u64::MAX as u128 {
            u64::MAX
        } else {
            next as u64
        }
    }

    /// Moves the walk one random step and quotes the new price at `now_ms`.
    pub fn next_quote(&mut self, now_ms: i64) -> (r: CfdQuote)
        ensures
            exists|s: i64| -600 <= s < 600 && final(self).px == walk_step(old(self).px, s),
            r.src == CfdSource::Owninja,
            r.price == final(self).px,
            r.price >= WALK_FLOOR,
            r.ts_ms == now_ms,
    {
        let shock = draw_in_range(-SHOCK_PPM, SHOCK_PPM);
        self.px = Self::step(self.px, shock);
        CfdQuote { src: CfdSource::Owninja, price: self.px, ts_ms: now_ms }
    }

    /// Moves the walk and quotes it at the current wall-clock time.
    pub fn latest(&mut self) -> (r: CfdQuote)
        ensures
            r.src == CfdSource::Owninja,
            r.price == final(self).px,
            r.price >= WALK_FLOOR,
    {
        let now = utc_now_ms();
        self.next_quote(now)
    }
}

/// A stand-in CME source with fixed front and next legs.
#[derive(Debug)]
pub struct DummyCme;

/// One day in milliseconds.
pub const DAY_MS: i64 = 86_400_000;

/// `t + days` days, saturating at the largest timestamp.
pub open spec fn days_after(t: i64, days: i64) -> i64 {
    if t + days * DAY_MS > i64::MAX {
        i64::MAX
    } else {
        (t + days * DAY_MS) as i64
    }
}

impl DummyCme {
    /// The two legs at `now_ms`: 0.90 expiring in 20 days and 0.92 in 50 days.
    pub fn legs_at(&self, now_ms: i64) -> (r: (FuturesLeg, FuturesLeg))
        ensures
            r.0 == (FuturesLeg { price: 90_000_000, ts_ms: now_ms, expiry_ts_ms: days_after(now_ms, 20) }),
            r.1 == (FuturesLeg { price: 92_000_000, ts_ms: now_ms, expiry_ts_ms: days_after(now_ms, 50) }),
    {
        let e1: i128 = now_ms as i128 + 20 * DAY_MS as i128;
        let e2: i128 = now_ms as i128 + 50 * DAY_MS as i128;
        let x1: i64 = if e1 > i64::MAX as i128 {
            i64::MAX
        } else {
            e1 as i64
        };
        let x2: i64 = if e2 > i64::MAX as i128 {
            i64::MAX
        } else {
            e2 as i64
        };
        (
            FuturesLeg { price: 90_000_000, ts_ms: now_ms, expiry_ts_ms: x1 },
            FuturesLeg { price: 92_000_000, ts_ms: now_ms, expiry_ts_ms: x2 },
        )
    }

    /// The two legs at the current wall-clock time.
    pub fn latest_f1_f2(&self) -> (r: (FuturesLeg, FuturesLeg))
        ensures
            r.0.price == 90_000_000,
            r.1.price == 92_000_000,
    {
        let now = utc_now_ms();
        self.legs_at(now)
    }
}

} // verus!
