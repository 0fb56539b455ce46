//! Oracle configuration and its defaults.
use vstd::prelude::*;

verus! {

/// Oracle settings, frozen once the oracle is built. Fractions are in parts
/// per million.
#[derive(Debug, Clone)]
pub struct OracleConfig {
    pub symbol: String,
    pub expo: i8,
    /// Tick interval in milliseconds; zero means one second.
    pub poll_ms: u64,
    pub cfd_twap_sec: u32,
    pub cfd_median_sec: u32,
    /// Advisory; the tick pipeline derives its own staleness bound.
    pub cfd_max_staleness_ms: u64,
    pub cfd_jump_ppm: u64,
    pub cmf_target_days: u32,
    pub roll_hike_im_ppm: u64,
    pub funding_kappa_ppm: u64,
    pub funding_cap_ppm: u32,
    pub funding_interval_sec: u32,
    pub trading_hours_only: bool,
    pub mode_cfd_only: bool,
    pub cfd_min_fresh: usize,
    pub cfd_tau_ms: u64,
    pub cfd_mad_k_ppm: u64,
    pub cfd_dispersion_bps_max: u32,
    pub hours_guard: String,
    pub max_step_ppm: u64,
}

pub fn d_poll_ms() -> (r: u64)
    ensures
        r == 2000,
{
    2000
}

pub fn d_stale_ms() -> (r: u64)
    ensures
        r == 90_000,
{
    90_000
}

pub fn d_jump_ppm() -> (r: u64)
    ensures
        r == 50_000,
{
    50_000
}

pub fn d_cmf_days() -> (r: u32)
    ensures
        r == 30,
{
    30
}

pub fn d_roll_hike_ppm() -> (r: u64)
    ensures
        r == 250_000,
{
    250_000
}

pub fn d_funding_kappa_ppm() -> (r: u64)
    ensures
        r == 500_000,
{
    500_000
}

pub fn d_funding_cap_ppm() -> (r: u32)
    ensures
        r == 4_000,
{
    4_000
}

pub fn d_funding_interval() -> (r: u32)
    ensures
        r == 28_800,
{
    8 * 3600
}

pub fn d_min_fresh() -> (r: usize)
    ensures
        r == 2,
{
    2
}

pub fn d_tau_ms() -> (r: u64)
    ensures
        r == 20_000,
{
    20_000
}

pub fn d_mad_k_ppm() -> (r: u64)
    ensures
        r == 6_000_000,
{
    6_000_000
}

pub fn d_dispersion_bps() -> (r: u32)
    ensures
        r == 80,
{
    80
}

pub fn d_hours_guard() -> (r: String)
    ensures
        r@ == "cme"@,
{
    proof {
        reveal_strlit("cme");
    }
    "cme".to_owned()
}

pub fn d_max_step_ppm() -> (r: u64)
    ensures
        r == 20_000,
{
    20_000
}

/// Names the duration that `Duration::from_millis` builds from a count of
/// milliseconds.
pub uninterp spec fn duration_from_millis(millis: u64) -> core::time::Duration;

/// Relies on core::time::Duration::from_millis: the duration is determined
/// by the count of milliseconds alone.
pub assume_specification[ core::time::Duration::from_millis ](millis: u64) -> (r:
    core::time::Duration)
    ensures
        r == duration_from_millis(millis),
;

/// A duration of `d` milliseconds.
pub fn ms(d: u64) -> (r: core::time::Duration)
    ensures
        r == duration_from_millis(d),
{
    core::time::Duration::from_millis(d)
}

impl OracleConfig {
    /// Whether every setting holds its documented default, for a given symbol
    /// and exponent.
    pub open spec fn has_defaults(&self) -> bool {
        &&& self.poll_ms == 2000
        &&& self.cfd_twap_sec == 0
        &&& self.cfd_median_sec == 0
        &&& self.cfd_max_staleness_ms == 90_000
        &&& self.cfd_jump_ppm == 50_000
        &&& self.cmf_target_days == 30
        &&& self.roll_hike_im_ppm == 250_000
        &&& self.funding_kappa_ppm == 500_000
        &&& self.funding_cap_ppm == 4_000
        &&& self.funding_interval_sec == 28_800
        &&& !self.trading_hours_only
        &&& !self.mode_cfd_only
        &&& self.cfd_min_fresh == 2
        &&& self.cfd_tau_ms == 20_000
        &&& self.cfd_mad_k_ppm == 6_000_000
        &&& self.cfd_dispersion_bps_max == 80
        &&& self.hours_guard@ == "cme"@
        &&& self.max_step_ppm == 20_000
    }
}

impl Default for OracleConfig {
    fn default() -> (r: Self)
        ensures
            r.symbol@ == Seq::<char>::empty(),
            r.expo == 0,
            r.has_defaults(),
    {
        OracleConfig {
            symbol: String::new(),
            expo: 0,
            poll_ms: d_poll_ms(),
            cfd_twap_sec: 0,
            cfd_median_sec: 0,
            cfd_max_staleness_ms: d_stale_ms(),
            cfd_jump_ppm: d_jump_ppm(),
            cmf_target_days: d_cmf_days(),
            roll_hike_im_ppm: d_roll_hike_ppm(),
            funding_kappa_ppm: d_funding_kappa_ppm(),
            funding_cap_ppm: d_funding_cap_ppm(),
            funding_interval_sec: d_funding_interval(),
            trading_hours_only: false,
            mode_cfd_only: false,
            cfd_min_fresh: d_min_fresh(),
            cfd_tau_ms: d_tau_ms(),
            cfd_mad_k_ppm: d_mad_k_ppm(),
            cfd_dispersion_bps_max: d_dispersion_bps(),
            hours_guard: d_hours_guard(),
            max_step_ppm: d_max_step_ppm(),
        }
    }
}

} // verus!
