use autonom::cfd_index::CfdIndex;
use autonom::cmf::CmfIndexBuilder;
use autonom::config::{d_hours_guard, d_mad_k_ppm, d_tau_ms, ms, OracleConfig};
use autonom::funding::FundingEngine;
use autonom::index::{IndexBuilder, IndexError};
use autonom::metrics::{init, inc, HistogramVec, IntCounterVec};
use autonom::risk::{RiskEngine, RiskSwitches};
use autonom::types::{CfdTick, CmfInputs, FuturesLeg, IndexTick, TickSource};

const NOW: i64 = 1_700_000_000_000;
const DAY: i64 = 86_400_000;
const E8: u64 = 100_000_000;

fn tick(price: u64) -> IndexTick {
    IndexTick {
        symbol: "LH".to_string(),
        price,
        expo: -8,
        ts_ms: NOW,
        source: TickSource::CfdConsensus,
        window_sec: 0,
    }
}

#[test]
fn funding_is_capped_and_named() {
    let engine = FundingEngine::new(500_000, 4_000, 28_800);
    let fu = engine.compute(&tick(100 * E8), &tick(99 * E8));
    assert_eq!(fu.rate_ppm, 4_000);
    assert_eq!(fu.symbol, "LH-PERP");
    assert_eq!(fu.interval_sec, 28_800);
    assert_eq!(fu.ts_ms, NOW);
}

#[test]
fn funding_below_cap_is_kappa_times_basis() {
    let engine = FundingEngine::new(500_000, 1_000_000, 60);
    // basis 1/99 = 10_101 ppm, times 0.5 = 5_050 ppm.
    assert_eq!(engine.compute(&tick(100 * E8), &tick(99 * E8)).rate_ppm, 5_050);
    assert_eq!(engine.compute(&tick(99 * E8), &tick(100 * E8)).rate_ppm, -5_000);
    let capped = FundingEngine::new(500_000, 4_000, 60);
    assert_eq!(capped.compute(&tick(50 * E8), &tick(100 * E8)).rate_ppm, -4_000);
}

#[test]
fn config_defaults_follow_the_table() {
    let c = OracleConfig::default();
    assert_eq!(c.poll_ms, 2_000);
    assert_eq!(c.cfd_max_staleness_ms, 90_000);
    assert_eq!(c.cfd_jump_ppm, 50_000);
    assert_eq!(c.funding_kappa_ppm, 500_000);
    assert_eq!(c.funding_cap_ppm, 4_000);
    assert_eq!(c.funding_interval_sec, 28_800);
    assert!(!c.mode_cfd_only);
    assert_eq!(c.cfd_min_fresh, 2);
    assert_eq!(c.cfd_tau_ms, 20_000);
    assert_eq!(c.cfd_mad_k_ppm, 6_000_000);
    assert_eq!(c.cfd_dispersion_bps_max, 80);
    assert_eq!(c.hours_guard, "cme");
    assert_eq!(c.max_step_ppm, 20_000);
    assert_eq!(d_tau_ms(), 20_000);
    assert_eq!(d_mad_k_ppm(), 6_000_000);
    assert_eq!(d_hours_guard(), "cme");
}

#[test]
fn ms_builds_a_duration() {
    assert_eq!(ms(1_500), std::time::Duration::from_millis(1_500));
    assert_eq!(ms(0).as_millis(), 0);
}

fn leg(price: u64, expiry_ts_ms: i64) -> FuturesLeg {
    FuturesLeg { price, ts_ms: NOW, expiry_ts_ms }
}

#[test]
fn cmf_interpolates_between_legs() {
    let b = CmfIndexBuilder::new("LH".to_string(), -8);
    let inp = CmfInputs { f1: leg(90 * E8, NOW + 20 * DAY), f2: leg(92 * E8, NOW + 50 * DAY), target_ms: 30 * DAY };
    let t = b.build_at(inp, NOW).unwrap();
    // One third of the way from 90 to 92.
    assert_eq!(t.price, 9_066_666_666);
    assert_eq!(t.source, TickSource::Cmf);
    assert_eq!(t.ts_ms, NOW);
    // Legs given in reverse order give the same price.
    let swapped = CmfInputs { f1: inp.f2, f2: inp.f1, target_ms: 30 * DAY };
    assert_eq!(b.build_at(swapped, NOW).unwrap().price, 9_066_666_666);
}

#[test]
fn cmf_holds_outside_the_legs_and_rejects_expired() {
    let b = CmfIndexBuilder::new("LH".to_string(), -8);
    let near = CmfInputs { f1: leg(90 * E8, NOW + 20 * DAY), f2: leg(92 * E8, NOW + 50 * DAY), target_ms: 5 * DAY };
    assert_eq!(b.build_at(near, NOW).unwrap().price, 90 * E8);
    let far = CmfInputs { target_ms: 90 * DAY, ..near };
    assert_eq!(b.build_at(far, NOW).unwrap().price, 92 * E8);
    let same = CmfInputs { f1: leg(90 * E8, NOW + DAY), f2: leg(91 * E8, NOW + DAY), target_ms: 30 * DAY };
    assert_eq!(b.build_at(same, NOW).unwrap().price, 90 * E8);
    let expired = CmfInputs { f1: leg(90 * E8, NOW - DAY), f2: leg(91 * E8, NOW), target_ms: 30 * DAY };
    assert!(matches!(b.build_at(expired, NOW), Err(IndexError::InvalidInput(_))));
}

#[test]
fn cmf_build_through_trait() {
    let mut b = CmfIndexBuilder::new("LH".to_string(), -8);
    let far = i64::MAX / 2;
    let inp = CmfInputs { f1: leg(90 * E8, far), f2: leg(92 * E8, far), target_ms: 0 };
    assert_eq!(b.build(inp).unwrap().price, 90 * E8);
}

#[test]
fn risk_error_codes() {
    let r = RiskEngine::new(80_000);
    assert_eq!(r.map_index_error(IndexError::NotEnoughData), "nodata");
    assert_eq!(r.map_index_error(IndexError::StaleInput), "stale");
    assert_eq!(r.map_index_error(IndexError::JumpRejected), "jump");
    assert_eq!(r.map_index_error(IndexError::InvalidInput("x".to_string())), "invalid");
    assert_eq!(r.map_index_error(IndexError::Internal("y".to_string())), "internal");
}

#[test]
fn risk_breaker_within_a_minute() {
    let mut r = RiskEngine::new(80_000);
    assert!(!r.eval_circuit_breaker(None, 100 * E8, NOW));
    assert!(r.eval_circuit_breaker(None, 110 * E8, NOW + 30_000));
    assert_eq!(r.last_px, Some((110 * E8, NOW + 30_000)));
    // More than a minute later the move no longer counts.
    assert!(!r.eval_circuit_breaker(Some((100 * E8, NOW)), 120 * E8, NOW + 61_000));
    // An authoritative last good price takes precedence.
    assert!(!r.eval_circuit_breaker(Some((119 * E8, NOW + 60_000)), 120 * E8, NOW + 61_000));
}

#[test]
fn trading_hours_follow_weekday_and_hour() {
    let r = RiskEngine::new(80_000);
    // 2023-11-14 22:13:20 UTC, a Tuesday.
    assert!(!r.trading_hours_open_at(NOW, 0));
    assert!(r.trading_hours_open_at(NOW, -10));
    // 2023-11-18 is a Saturday.
    assert!(!r.trading_hours_open_at(NOW + 4 * DAY - 10 * 3_600_000, 0));
    // 1970-01-01 10:00 UTC, a Thursday.
    assert!(r.trading_hours_open_at(10 * 3_600_000, 0));
    // 1969-12-28 10:00 UTC, a Sunday.
    assert!(!r.trading_hours_open_at(-4 * DAY + 10 * 3_600_000, 0));
}

#[test]
fn risk_switches_combine() {
    let mut r = RiskEngine::new(80_000);
    let s = r.compute_switches_at(NOW, -10, None, None, true);
    assert_eq!(s, RiskSwitches { circuit_breaker: false, roll_window: true, hours_open: true });
    let s2 = r.compute_switches_at(NOW, 0, Some((100 * E8, NOW)), Some((120 * E8, NOW + 1_000)), false);
    assert!(s2.circuit_breaker);
    assert!(!s2.hours_open);
    let s3 = r.compute_switches(0, None, None, false);
    assert!(!s3.circuit_breaker);
}

fn cfd_index() -> CfdIndex {
    CfdIndex::new("LH".to_string(), -8, 60, 60, 5_000, 50_000)
}

#[test]
fn cfd_index_rejects_stale_and_jumps() {
    let mut idx = cfd_index();
    assert!(matches!(idx.build_at(CfdTick { price: 100, ts_ms: NOW - 6_000 }, NOW), Err(IndexError::StaleInput)));
    assert!(matches!(idx.build_at(CfdTick { price: 100, ts_ms: NOW + 1 }, NOW), Err(IndexError::StaleInput)));
    assert!(idx.build_at(CfdTick { price: 1_000, ts_ms: NOW }, NOW).is_ok());
    assert!(matches!(idx.build_at(CfdTick { price: 1_100, ts_ms: NOW + 1_000 }, NOW + 1_000), Err(IndexError::JumpRejected)));
    assert_eq!(idx.buf.len(), 1);
}

#[test]
fn cfd_index_fuses_twap_and_median() {
    let mut idx = cfd_index();
    let t1 = idx.build_at(CfdTick { price: 1_000, ts_ms: NOW }, NOW).unwrap();
    assert_eq!(t1.price, 1_000);
    assert_eq!(t1.window_sec, 60);
    assert_eq!(t1.source, TickSource::Cfd);
    let t2 = idx.build_at(CfdTick { price: 1_040, ts_ms: NOW + 3_000 }, NOW + 4_000).unwrap();
    // TWAP: 1040 over 1000 ms, 1000 over 3000 ms -> 1010; median 1040 -> (1010 + 1040) / 2.
    assert_eq!(t2.price, 1_025);
    // Ticks older than the window are pruned.
    let t3 = idx.build_at(CfdTick { price: 1_030, ts_ms: NOW + 70_000 }, NOW + 70_000).unwrap();
    assert_eq!(idx.buf.len(), 1);
    assert_eq!(t3.price, 1_030);
}

#[test]
fn metrics_are_noops() {
    init();
    inc("oracle_ticks_total", "ok");
    let c = IntCounterVec;
    c.with_label_values(&["a"]).inc();
    let h = HistogramVec;
    let _ = h.with_label_values(&["b"]);
}
