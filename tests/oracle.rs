use autonom::config::OracleConfig;
use autonom::funding::{Ema, FundingEngine};
use autonom::guards::{clamp_step, filter_fresh, sanitize_quotes, staleness_ms, step_floor, CircuitBreaker};
use autonom::oracle::{Oracle, TickOutcome};
use autonom::types::{CfdQuote, CfdSource, IndexTick, TickSource};

const NOW: i64 = 1_700_000_000_000;
const E8: u64 = 100_000_000;

fn q(price: u64, ts_ms: i64) -> CfdQuote {
    CfdQuote { src: CfdSource::Ninjas, price, ts_ms }
}

fn config() -> OracleConfig {
    let mut cfg = OracleConfig::default();
    cfg.symbol = "LH".to_string();
    cfg.expo = -8;
    cfg.mode_cfd_only = true;
    cfg
}

fn oracle(cfg: OracleConfig) -> Oracle {
    Oracle::new(cfg, FundingEngine::new(500_000, 4_000, 28_800))
}

fn mark(price: u64, ts_ms: i64) -> IndexTick {
    IndexTick {
        symbol: "LH".to_string(),
        price,
        expo: -8,
        ts_ms,
        source: TickSource::CfdConsensus,
        window_sec: 0,
    }
}

#[test]
fn step_clamp_limits_the_move() {
    assert_eq!(clamp_step(105 * E8, 100 * E8, step_floor(10_000)), 101 * E8);
    assert_eq!(clamp_step(95 * E8, 100 * E8, step_floor(10_000)), 99 * E8);
    assert_eq!(clamp_step(1005 * E8 / 10, 100 * E8, step_floor(10_000)), 1005 * E8 / 10);
    // The floor of five basis points applies to smaller steps.
    assert_eq!(step_floor(0), 500);
    assert_eq!(clamp_step(105 * E8, 100 * E8, step_floor(0)), 10_005 * E8 / 100);
}

#[test]
fn tick_clamps_against_last_good_mark() {
    let mut cfg = config();
    cfg.max_step_ppm = 10_000;
    let mut o = oracle(cfg);
    o.last_good_mark = Some(mark(100 * E8, NOW - 2_000));
    let out = o.tick_at(vec![q(105 * E8, NOW), q(105 * E8, NOW - 100)], NOW);
    match out {
        TickOutcome::Published(rep) => {
            assert_eq!(rep.mark.price, 101 * E8);
            assert!(!rep.frozen);
        }
        other => panic!("unexpected {:?}", other),
    }
    assert_eq!(o.last_good_mark.as_ref().unwrap().price, 101 * E8);
}

#[test]
fn breaker_trips_on_fast_move() {
    let mut cb = CircuitBreaker::new(70_000);
    assert!(!cb.tripped(100 * E8, NOW));
    assert!(cb.tripped(110 * E8, NOW + 30_000));
    // The anchor stays frozen.
    assert_eq!(cb.last_anchor_price, Some(100 * E8));
    assert_eq!(cb.last_anchor_ms, Some(NOW));
}

#[test]
fn breaker_rolls_anchor_after_ten_seconds() {
    let mut cb = CircuitBreaker::new(70_000);
    assert!(!cb.tripped(100 * E8, NOW));
    assert!(!cb.tripped(1001 * E8 / 10, NOW + 5_000));
    assert_eq!(cb.last_anchor_ms, Some(NOW));
    assert!(!cb.tripped(1002 * E8 / 10, NOW + 12_000));
    assert_eq!(cb.last_anchor_price, Some(1002 * E8 / 10));
    assert_eq!(cb.last_anchor_ms, Some(NOW + 12_000));
}

#[test]
fn tripped_breaker_republishes_last_good_mark() {
    let mut cfg = config();
    cfg.max_step_ppm = 200_000;
    let mut o = oracle(cfg);
    o.last_good_mark = Some(mark(102 * E8, NOW - 5_000));
    o.cb.last_anchor_price = Some(100 * E8);
    o.cb.last_anchor_ms = Some(NOW - 30_000);
    let out = o.tick_at(vec![q(110 * E8, NOW), q(110 * E8, NOW)], NOW);
    match out {
        TickOutcome::Published(rep) => {
            assert!(rep.frozen);
            assert_eq!(rep.mark.price, 102 * E8);
            assert_eq!(rep.mark.ts_ms, NOW - 5_000);
        }
        other => panic!("unexpected {:?}", other),
    }
    let good = o.last_good_mark.as_ref().unwrap();
    assert_eq!(good.price, 102 * E8);
    assert_eq!(good.ts_ms, NOW - 5_000);
    assert_eq!(o.cb.last_anchor_price, Some(100 * E8));
}

#[test]
fn insufficient_fresh_quotes_publish_nothing() {
    let mut o = oracle(config());
    o.last_good_mark = Some(mark(100 * E8, NOW - 2_000));
    let out = o.tick_at(vec![q(100 * E8, NOW), q(100 * E8, NOW - 600_000)], NOW);
    assert!(matches!(out, TickOutcome::InsufficientFresh));
    assert_eq!(o.last_good_mark.as_ref().unwrap().price, 100 * E8);
    assert_eq!(o.funding_ref_ema.value, None);
}

#[test]
fn published_ticks_stay_positive_and_within_step() {
    let mut o = oracle(config());
    let prices: [u64; 6] = [100 * E8, 130 * E8, 60 * E8, 61 * E8, 1, 200 * E8];
    let mut prev: Option<u64> = None;
    for (i, p) in prices.iter().enumerate() {
        let now = NOW + (i as i64) * 2_000;
        if let TickOutcome::Published(rep) = o.tick_at(vec![q(*p, now), q(*p, now)], now) {
            assert!(rep.mark.price > 0);
            if let Some(pp) = prev {
                let diff = rep.mark.price.abs_diff(pp) as u128;
                assert!(diff * 1_000_000 <= 20_000u128 * pp as u128);
            }
            assert!(rep.funding.rate_ppm.abs() <= 4_000);
            assert_eq!(rep.funding.symbol, "LH-PERP");
            prev = Some(rep.mark.price);
        }
    }
    assert!(prev.is_some());
}

#[test]
fn first_tick_sets_ema_and_zero_funding() {
    let mut o = oracle(config());
    match o.tick_at(vec![q(90 * E8, NOW), q(90 * E8, NOW - 10)], NOW) {
        TickOutcome::Published(rep) => {
            assert_eq!(rep.mark.price, 90 * E8);
            assert_eq!(rep.funding.rate_ppm, 0);
            assert_eq!(rep.funding.interval_sec, 28_800);
            assert_eq!(rep.funding.ts_ms, NOW);
            assert!(!rep.wide_dispersion);
        }
        other => panic!("unexpected {:?}", other),
    }
    assert_eq!(o.funding_ref_ema.value, Some(90 * E8));
}

#[test]
fn wide_dispersion_is_flagged_but_published() {
    let mut o = oracle(config());
    match o.tick_at(vec![q(100 * E8, NOW), q(101 * E8, NOW)], NOW) {
        TickOutcome::Published(rep) => {
            assert_eq!(rep.stats.spread_bps, 99);
            assert!(rep.wide_dispersion);
        }
        other => panic!("unexpected {:?}", other),
    }
}

#[test]
fn sanitize_drops_bad_and_restamps_future() {
    let results = vec![
        Some(q(5, NOW + 10_000)),
        None,
        Some(q(0, NOW)),
        Some(q(7, NOW + 1_500)),
        Some(q(9, NOW - 4_000)),
    ];
    let out = sanitize_quotes(results, NOW);
    assert_eq!(out.len(), 3);
    assert_eq!((out[0].price, out[0].ts_ms), (5, NOW));
    assert_eq!((out[1].price, out[1].ts_ms), (7, NOW + 1_500));
    assert_eq!((out[2].price, out[2].ts_ms), (9, NOW - 4_000));
}

#[test]
fn freshness_filter_uses_absolute_age() {
    let quotes = vec![q(1, NOW - 60_000), q(2, NOW - 60_001), q(3, NOW + 60_000)];
    let out = filter_fresh(quotes, NOW, 60_000);
    let prices: Vec<u64> = out.iter().map(|x| x.price).collect();
    assert_eq!(prices, vec![1, 3]);
}

#[test]
fn staleness_bound_is_clamped() {
    assert_eq!(staleness_ms(1_000), 15_000);
    assert_eq!(staleness_ms(20_000), 60_000);
    assert_eq!(staleness_ms(100_000), 120_000);
    assert_eq!(staleness_ms(u64::MAX), 120_000);
}

#[test]
fn oracle_defaults() {
    let o = oracle(config());
    assert!(o.hours_ok());
    assert_eq!(o.derived_staleness_ms(), 60_000);
    assert_eq!(o.cb.per_min_threshold_ppm, 70_000);
    assert_eq!(o.funding_ref_ema.alpha_ppm, 5_000);
    assert!(o.last_good_mark.is_none());
}

#[test]
fn ema_moves_strictly_closer_for_constant_input() {
    let mut e = Ema::new(5_000);
    assert_eq!(e.update(1_000 * E8), 1_000 * E8);
    let x = 900 * E8;
    let mut dist = (1_000 * E8).abs_diff(x);
    for _ in 0..50 {
        let v = e.update(x);
        let d = v.abs_diff(x);
        assert!(d < dist);
        dist = d;
    }
    let mut small = Ema::new(5_000);
    small.update(101);
    assert_eq!(small.update(100), 100);
}

#[test]
fn zero_total_weight_gives_no_consensus() {
    let mut cfg = config();
    cfg.cfd_tau_ms = 0;
    let mut o = oracle(cfg);
    let out = o.tick_at(vec![q(100 * E8, NOW - 10), q(100 * E8, NOW - 20)], NOW);
    assert!(matches!(out, TickOutcome::NoConsensus));
    assert!(o.last_good_mark.is_none());
    assert_eq!(o.funding_ref_ema.value, None);
}

#[test]
fn tripped_breaker_without_good_mark_aborts() {
    let mut o = oracle(config());
    o.cb.last_anchor_price = Some(100 * E8);
    o.cb.last_anchor_ms = Some(NOW - 30_000);
    let out = o.tick_at(vec![q(110 * E8, NOW), q(110 * E8, NOW)], NOW);
    assert!(matches!(out, TickOutcome::BreakerNoAnchor));
    assert!(o.last_good_mark.is_none());
    assert_eq!(o.cb.last_anchor_price, Some(100 * E8));
}
