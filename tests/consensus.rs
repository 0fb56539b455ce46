use autonom::consensus::CfdConsensus;
use autonom::decay::exp_neg_ppm;
use autonom::index::IndexError;
use autonom::stats::median;
use autonom::types::{CfdQuote, CfdSource, TickSource};

const NOW: i64 = 1_700_000_000_000;

fn q(price: u64, ts_ms: i64) -> CfdQuote {
    CfdQuote { src: CfdSource::Other("test".to_string()), price, ts_ms }
}

fn builder(tau_ms: u64, mad_k_ppm: u64) -> CfdConsensus {
    CfdConsensus::new("LH".to_string(), -8, tau_ms, mad_k_ppm)
}

#[test]
fn happy_consensus_two_quotes() {
    let quotes = vec![q(8_950_000_000, NOW - 1_000), q(8_970_000_000, NOW - 500)];
    let (tick, stats) = builder(20_000, 6_000_000).build_at(&quotes, NOW).unwrap();
    assert!(tick.price > 8_950_000_000 && tick.price < 8_970_000_000);
    assert_eq!(stats.n_used, 2);
    assert_eq!(stats.n_fresh, 2);
    assert_eq!(stats.n_dropped, 0);
    assert_eq!(stats.spread_bps, 22);
    assert_eq!(tick.symbol, "LH");
    assert_eq!(tick.expo, -8);
    assert_eq!(tick.ts_ms, NOW);
    assert_eq!(tick.source, TickSource::CfdConsensus);
    assert_eq!(tick.window_sec, 0);
}

#[test]
fn mad_rejection_drops_far_quote() {
    let quotes = vec![q(10_000_000_000, NOW), q(10_010_000_000, NOW), q(14_000_000_000, NOW)];
    let (tick, stats) = builder(20_000, 3_000_000).build_at(&quotes, NOW).unwrap();
    assert_eq!(stats.n_dropped, 1);
    assert_eq!(stats.n_used, 2);
    let target: u64 = 10_005_000_000;
    assert!(tick.price.abs_diff(target) <= 1_000_000, "fused {}", tick.price);
    assert!(tick.price >= 10_000_000_000 && tick.price <= 10_010_000_000);
}

#[test]
fn empty_quotes_give_not_enough_data() {
    let r = builder(20_000, 6_000_000).build_at(&Vec::new(), NOW);
    assert!(matches!(r, Err(IndexError::NotEnoughData)));
}

#[test]
fn identical_prices_fuse_to_that_price() {
    let quotes = vec![q(5_000, NOW), q(5_000, NOW - 100), q(5_000, NOW - 2_000)];
    let (tick, stats) = builder(20_000, 6_000_000).build_at(&quotes, NOW).unwrap();
    assert_eq!(tick.price, 5_000);
    assert_eq!(stats.spread_bps, 0);
    assert_eq!(stats.n_used, 3);
    assert_eq!(stats.confidence_ppm, 1_000_000);
}

#[test]
fn single_quote_passes_through() {
    let quotes = vec![q(123_456, NOW - 3_000)];
    let (tick, stats) = builder(20_000, 6_000_000).build_at(&quotes, NOW).unwrap();
    assert_eq!(tick.price, 123_456);
    assert_eq!(stats.spread_bps, 0);
    assert_eq!(stats.confidence_ppm, 1_000_000);
}

#[test]
fn confidence_falls_with_dropped_quotes_and_spread() {
    // Two of three kept, spread of 22 bps: (2/3) / (1 + 22/50) = 0.462962...
    let quotes = vec![q(8_950_000_000, NOW), q(8_970_000_000, NOW), q(20_000_000_000, NOW)];
    let (_, stats) = builder(20_000, 6_000_000).build_at(&quotes, NOW).unwrap();
    assert_eq!(stats.n_used, 2);
    assert_eq!(stats.spread_bps, 22);
    assert_eq!(stats.confidence_ppm, 462_962);
}

#[test]
fn fused_price_lies_within_kept_range() {
    let quotes = vec![
        q(1_000, NOW - 10_000),
        q(1_010, NOW - 1),
        q(1_004, NOW - 50_000),
        q(1_007, NOW + 500),
    ];
    let (tick, _) = builder(8_000, 6_000_000).build_at(&quotes, NOW).unwrap();
    assert!(tick.price >= 1_000 && tick.price <= 1_010);
}

#[test]
fn strict_outlier_leaves_fused_price_unchanged() {
    let base = vec![
        q(1_000_000, NOW - 100),
        q(1_000_500, NOW - 900),
        q(1_001_000, NOW - 300),
        q(1_000_800, NOW - 50),
    ];
    let b = builder(20_000, 6_000_000);
    let (before, _) = b.build_at(&base, NOW).unwrap();
    let mut with_outlier = base.clone();
    with_outlier.push(q(2_000_000, NOW));
    let (after, stats) = b.build_at(&with_outlier, NOW).unwrap();
    assert_eq!(stats.n_dropped, 1);
    assert_eq!(after.price, before.price);
}

#[test]
fn older_quotes_still_fuse_within_range() {
    let fresh = vec![q(1_000, NOW - 1_000), q(1_100, NOW - 4_000), q(1_050, NOW - 2_000)];
    let older = vec![q(1_000, NOW - 2_000), q(1_100, NOW - 8_000), q(1_050, NOW - 4_000)];
    let b = builder(4_000, 6_000_000);
    let (t1, _) = b.build_at(&fresh, NOW).unwrap();
    let (t2, _) = b.build_at(&older, NOW).unwrap();
    assert!(t1.price >= 1_000 && t1.price <= 1_100);
    assert!(t2.price >= 1_000 && t2.price <= 1_100);
    // The oldest quote loses more weight, pulling the mean away from it.
    assert!(t2.price <= t1.price);
}

#[test]
fn fuse_averages_middle_pair() {
    let b = builder(20_000, 6_000_000);
    assert_eq!(b.fuse(vec![]), None);
    assert_eq!(b.fuse(vec![7, 1, 4]), Some(4));
    assert_eq!(b.fuse(vec![10, 1, 4, 7]), Some(5));
}

#[test]
fn median_takes_upper_middle() {
    assert_eq!(median(vec![9, 5, 1, 3]), 5);
    assert_eq!(median(vec![2, 8, 4]), 4);
}

#[test]
fn mad_is_scaled_and_floored() {
    assert_eq!(CfdConsensus::mad(&vec![10, 10, 10], 10), 1);
    // deviations 0, 100, 100 -> median 100 -> 148.26 -> 148
    assert_eq!(CfdConsensus::mad(&vec![100, 200, 300], 200), 148);
}

#[test]
fn build_uses_the_clock() {
    let now = std::time::SystemTime::now()
        .duration_since(std::time::UNIX_EPOCH)
        .unwrap()
        .as_millis() as i64;
    let quotes = vec![q(1_000, now), q(1_002, now)];
    let (tick, stats) = builder(20_000, 6_000_000).build(&quotes).unwrap();
    assert!(tick.ts_ms >= now);
    assert!(tick.price >= 1_000 && tick.price <= 1_002);
    assert_eq!(stats.n_used, 2);
}

#[test]
fn fixed_point_decay_tracks_exp() {
    let mut prev = u64::MAX;
    for i in 0..=3_100u128 {
        let x = i * 10_000;
        let got = exp_neg_ppm(x);
        let want = (-(x as f64) / 1e6).exp() * 1e6;
        assert!((got as f64 - want).abs() <= 2.0, "x={} got={} want={}", x, got, want);
        assert!(got <= prev);
        prev = got;
    }
    assert_eq!(exp_neg_ppm(0), 1_000_000);
    assert_eq!(exp_neg_ppm(1_000_000), 367_879);
    assert_eq!(exp_neg_ppm(40_000_000), 0);
}

#[test]
fn weights_follow_exponential_decay() {
    // Equal prices, ages 0 and tau: weights 1 and exp(-1), so the mean sits
    // at (a + b / e) / (1 + 1 / e) of the two prices.
    let quotes = vec![q(1_000_000, NOW), q(1_000_000, NOW - 10_000)];
    let (tick, _) = builder(10_000, 6_000_000).build_at(&quotes, NOW).unwrap();
    assert_eq!(tick.price, 1_000_000);
    let mixed = vec![q(1_000_000, NOW), q(1_000_100, NOW - 10_000), q(1_000_050, NOW - 5_000)];
    let (t, _) = builder(10_000, 6_000_000).build_at(&mixed, NOW).unwrap();
    let w = |age: f64, dev: f64| (-age).exp() * (-0.15 * dev.min(10.0)).exp();
    // med = 1_000_050, devs 50, 50, 0 -> mad = 74 units.
    let (w1, w2, w3) = (w(0.0, 50.0 / 74.0), w(1.0, 50.0 / 74.0), w(0.5, 0.0));
    let want = (w1 * 1_000_000.0 + w2 * 1_000_100.0 + w3 * 1_000_050.0) / (w1 + w2 + w3);
    assert!((t.price as f64 - want).abs() <= 1.0, "got {} want {}", t.price, want);
}
