//! Values that flow through the oracle.
use vstd::prelude::*;

verus! {

/// Two ticks agree field by field (the symbols as text).
pub open spec fn same_tick(a: IndexTick, b: IndexTick) -> bool {
    &&& a.symbol@ == b.symbol@
    &&& a.price == b.price
    &&& a.expo == b.expo
    &&& a.ts_ms == b.ts_ms
    &&& a.source == b.source
    &&& a.window_sec == b.window_sec
}

impl IndexTick {
    /// A field-by-field copy of this tick.
    pub fn duplicate(&self) -> (r: IndexTick)
        ensures
            same_tick(r, *self),
    {
        IndexTick {
            symbol: self.symbol.clone(),
            price: self.price,
            expo: self.expo,
            ts_ms: self.ts_ms,
            source: self.source,
            window_sec: self.window_sec,
        }
    }
}

/// One unit expressed in parts per million.
pub const PPM: u64 = 1_000_000;

/// A price observation at a point in time.
#[derive(Debug, Clone, Copy)]
pub struct PricePoint {
    pub price: u64,
    pub expo: i8,
    pub ts_ms: i64,
}

/// Where a published tick comes from.
#[derive(Debug, Clone, Copy, PartialEq, Eq, Structural)]
pub enum TickSource {
    Cmf,
    Cfd,
    CfdConsensus,
    RefEma,
}

impl TickSource {
    /// The tag written next to a published tick.
    pub fn as_str(&self) -> (r: &'static str)
        ensures
            *self == TickSource::Cmf ==> r@ == "cmf"@,
            *self == TickSource::Cfd ==> r@ == "cfd"@,
            *self == TickSource::CfdConsensus ==> r@ == "cfd-consensus"@,
            *self == TickSource::RefEma ==> r@ == "ref-ema"@,
    {
        proof {
            reveal_strlit("cmf");
            reveal_strlit("cfd");
            reveal_strlit("cfd-consensus");
            reveal_strlit("ref-ema");
        }
        match self {
            TickSource::Cmf => "cmf",
            TickSource::Cfd => "cfd",
            TickSource::CfdConsensus => "cfd-consensus",
            TickSource::RefEma => "ref-ema",
        }
    }
}

/// A mark (or reference) price for a symbol.
#[derive(Debug, Clone)]
pub struct IndexTick {
    pub symbol: String,
    pub price: u64,
    pub expo: i8,
    pub ts_ms: i64,
    pub source: TickSource,
    pub window_sec: u32,
}

/// A funding rate for one interval; `rate_ppm` is signed, in parts per million.
#[derive(Debug, Clone)]
pub struct FundingUpdate {
    pub symbol: String,
    pub rate_ppm: i64,
    pub interval_sec: u32,
    pub ts_ms: i64,
}

/// One futures contract: its price, when it was seen, and when it expires.
#[derive(Debug, Clone, Copy)]
pub struct FuturesLeg {
    pub price: u64,
    pub ts_ms: i64,
    pub expiry_ts_ms: i64,
}

/// Two adjacent futures legs and the constant maturity to interpolate to,
/// in milliseconds.
#[derive(Debug, Clone, Copy)]
pub struct CmfInputs {
    pub f1: FuturesLeg,
    pub f2: FuturesLeg,
    pub target_ms: i64,
}

/// A single CFD price observation.
#[derive(Debug, Clone, Copy)]
pub struct CfdTick {
    pub price: u64,
    pub ts_ms: i64,
}

/// The provider a CFD quote came from.
#[derive(Debug, Clone, PartialEq, Eq)]
pub enum CfdSource {
    Ninjas,
    Owninja,
    Other(String),
}

/// A quote from one CFD provider.
#[derive(Debug, Clone)]
pub struct CfdQuote {
    pub src: CfdSource,
    pub price: u64,
    pub ts_ms: i64,
}

/// Statistics that accompany a consensus mark.
#[derive(Debug, Clone, Copy)]
pub struct ConsensusStats {
    pub n_fresh: usize,
    pub n_used: usize,
    pub n_dropped: usize,
    pub spread_bps: u32,
    /// Confidence in parts per million, at most one.
    pub confidence_ppm: u32,
}

} // verus!
