use campus_api::ratelimit::{
    GovIpOrGlobalExtractorHashed, GovJwtExtractorHashed, RateConfig, RateGovernor, GLOBAL_KEY,
};

#[test]
fn burst_of_capacity_then_one_per_period() {
    let mut g = RateGovernor::new(RateConfig { capacity: 5, refill_period_ms: 1000 });
    let t0 = 10_000u64;
    for _ in 0..5 {
        assert!(g.allow(42, t0));
    }
    assert!(!g.allow(42, t0));
    assert!(g.allow(42, t0 + 1000));
    assert!(!g.allow(42, t0 + 1000));
}

#[test]
fn callers_have_separate_buckets() {
    let mut g = RateGovernor::new(RateConfig { capacity: 1, refill_period_ms: 500 });
    assert!(g.allow(1, 0));
    assert!(!g.allow(1, 0));
    assert!(g.allow(2, 0));
    assert!(!g.allow(1, 499));
    assert!(g.allow(1, 500));
}

#[test]
fn refill_never_exceeds_capacity_and_keeps_partial_periods() {
    let mut g = RateGovernor::new(RateConfig { capacity: 2, refill_period_ms: 1000 });
    assert!(g.allow(7, 0));
    assert!(g.allow(7, 0));
    assert!(g.allow(7, 1500));
    assert!(!g.allow(7, 1500));
    assert!(g.allow(7, 2000));
    assert!(!g.allow(7, 2000));
    assert!(g.allow(7, 100_000));
    assert!(g.allow(7, 100_000));
    assert!(!g.allow(7, 100_000));
}

#[test]
fn idle_buckets_are_reclaimed() {
    let mut g = RateGovernor::new(RateConfig { capacity: 2, refill_period_ms: 1000 });
    assert!(g.allow(1, 0));
    assert!(g.allow(2, 0));
    assert!(g.allow(2, 0));
    g.retain_recent(1000);
    assert!(g.allow(2, 1000));
    assert!(!g.allow(2, 1000));
    g.retain_recent(5000);
    assert!(g.allow(2, 5000));
    assert!(g.allow(2, 5000));
}

#[test]
fn bearer_key_extraction() {
    let e = GovJwtExtractorHashed;
    assert_eq!(e.extract(None), None);
    assert_eq!(e.extract(Some("Basic abc")), None);
    let a = e.extract(Some("Bearer abc")).unwrap();
    let b = e.extract(Some("Bearer abd")).unwrap();
    assert_ne!(a, b);
    assert_eq!(e.extract(Some("Bearer abc")), Some(a));
}

#[test]
fn address_or_global_key() {
    let e = GovIpOrGlobalExtractorHashed;
    assert_eq!(e.extract(None), GLOBAL_KEY);
    assert_ne!(e.extract(Some("10.0.0.1")), e.extract(Some("10.0.0.2")));
}
