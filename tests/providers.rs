use autonom::providers::{
    backoff_ms, decide_after_attempt, map_symbol, ninjas_quote, DummyCme, FetchOutcome, OwninjaCfd,
    ProviderError, RetryDecision, WALK_FLOOR, WALK_START,
};
use autonom::types::CfdSource;

#[test]
fn ninjas_happy_path() {
    assert_eq!(map_symbol("LEAN_HOGS_PERP").unwrap(), "lean_hogs");
    assert!(matches!(decide_after_attempt(0, FetchOutcome::Status(200)), RetryDecision::Decode));
    let q = ninjas_quote(8_950_000_000, 1700000000, 5).unwrap();
    assert_eq!(q.price, 8_950_000_000);
    assert_eq!(q.ts_ms, 1700000000 * 1000);
    assert_eq!(q.src, CfdSource::Ninjas);
}

#[test]
fn ninjas_retries_then_succeeds() {
    assert!(matches!(decide_after_attempt(0, FetchOutcome::Status(429)), RetryDecision::RetryAfter(250)));
    assert!(matches!(decide_after_attempt(1, FetchOutcome::Status(429)), RetryDecision::RetryAfter(500)));
    assert!(matches!(decide_after_attempt(2, FetchOutcome::Status(200)), RetryDecision::Decode));
    let q = ninjas_quote(9_000_000_000, 1700001234, 5).unwrap();
    assert_eq!(q.price, 9_000_000_000);
    assert_eq!(q.ts_ms, 1700001234 * 1000);
}

#[test]
fn retry_policy_gives_up() {
    assert!(matches!(decide_after_attempt(2, FetchOutcome::TransportError), RetryDecision::RetryAfter(1000)));
    assert!(matches!(
        decide_after_attempt(3, FetchOutcome::Status(503)),
        RetryDecision::Fail(ProviderError::RetriesExhausted)
    ));
    assert!(matches!(
        decide_after_attempt(0, FetchOutcome::Status(404)),
        RetryDecision::Fail(ProviderError::BadStatus(404))
    ));
    assert_eq!(backoff_ms(0), Some(0));
    assert_eq!(backoff_ms(3), Some(1000));
    assert_eq!(backoff_ms(4), None);
}

#[test]
fn unknown_symbol_is_fatal() {
    assert!(matches!(map_symbol("BTC_PERP"), Err(ProviderError::UnsupportedSymbol(_))));
    assert_eq!(map_symbol("SILVER_PERP").unwrap(), "silver");
    assert_eq!(map_symbol("FEEDER_CATTLE_PERP").unwrap(), "feeder_cattle");
}

#[test]
fn ninjas_quote_validates() {
    assert!(matches!(ninjas_quote(0, 1, 5), Err(ProviderError::InvalidPrice)));
    assert_eq!(ninjas_quote(10, 0, 5).unwrap().ts_ms, 5);
    assert!(matches!(ninjas_quote(10, i64::MAX / 10, 5), Err(ProviderError::Decode)));
}

#[test]
fn owninja_walk_steps_and_floors() {
    assert_eq!(OwninjaCfd::step(100_000_000, 0), 100_002_000);
    assert_eq!(OwninjaCfd::step(100_000_000, -600), 99_942_000);
    assert_eq!(OwninjaCfd::step(WALK_FLOOR, -600), WALK_FLOOR);
    let mut w = OwninjaCfd::new();
    assert_eq!(w.px, WALK_START);
    let q = w.next_quote(42);
    assert_eq!(q.ts_ms, 42);
    assert_eq!(q.src, CfdSource::Owninja);
    assert!(q.price >= WALK_START * 99_942 / 100_000 && q.price <= WALK_START * 100_062 / 100_000);
    let q2 = w.latest();
    assert_eq!(q2.price, w.px);
}

#[test]
fn dummy_cme_legs() {
    let (f1, f2) = DummyCme.legs_at(1_000);
    assert_eq!(f1.price, 90_000_000);
    assert_eq!(f2.price, 92_000_000);
    assert_eq!(f1.expiry_ts_ms, 1_000 + 20 * 86_400_000);
    assert_eq!(f2.expiry_ts_ms, 1_000 + 50 * 86_400_000);
    assert_eq!(DummyCme.legs_at(i64::MAX).1.expiry_ts_ms, i64::MAX);
    let (g1, _) = DummyCme.latest_f1_f2();
    assert_eq!(g1.price, 90_000_000);
}
