use std::sync::atomic::Ordering;

use oxidar_snake::net::chaos::{is_multiple_of, ChaosInjector, ChaosPayload};

fn enabled_injector(interval: u64) -> ChaosInjector {
    let inj = ChaosInjector::new(interval);
    inj.enabled.store(true, Ordering::Relaxed);
    inj
}

#[test]
fn generate_returns_none_when_disabled() {
    let mut inj = ChaosInjector::new(1);
    assert!(inj.generate(1).is_none());
}

#[test]
fn generate_returns_none_when_tick_not_at_interval() {
    let mut inj = enabled_injector(10);
    assert!(inj.generate(1).is_none());
    assert!(inj.generate(9).is_none());
    assert!(inj.generate(11).is_none());
}

#[test]
fn generate_returns_some_when_enabled_and_tick_matches() {
    let mut inj = enabled_injector(10);
    assert!(inj.generate(10).is_some());
    assert!(inj.generate(20).is_some());
}

#[test]
fn all_chaos_types_produce_nonempty_bytes() {
    for tick in [10u64, 11, 12, 13, 14] {
        let mut inj = enabled_injector(1);
        let payload = inj.generate(tick).unwrap();
        if let ChaosPayload::Garbage { bytes } = payload {
            assert!(!bytes.is_empty(), "chaos at tick {tick} produced empty bytes");
        }
    }
}

#[test]
fn out_of_order_does_not_underflow_at_tick_one() {
    let mut inj = enabled_injector(1);
    for _ in 0..20 {
        let payload = inj.generate(1);
        assert!(payload.is_some());
        if let Some(ChaosPayload::OutOfOrder { tick }) = payload {
            assert_eq!(tick, 0);
        }
    }
}

#[test]
fn payloads_keep_their_random_parts_in_range() {
    let mut inj = enabled_injector(1);
    for round in 0..500u64 {
        let now = 1 + round % 80;
        match inj.generate(now).unwrap() {
            ChaosPayload::Garbage { bytes } => assert!((16..=64).contains(&bytes.len())),
            ChaosPayload::MissingFields { tick } => assert_eq!(tick, now),
            ChaosPayload::OutOfOrder { tick } => assert!(tick < now && now - tick <= 50),
            ChaosPayload::UnknownType | ChaosPayload::WrongFieldTypes => {}
        }
    }
}

#[test]
fn fires_only_when_on_and_at_the_interval() {
    let inj = ChaosInjector::new(5);
    assert!(inj.fires(true, 15));
    assert!(!inj.fires(false, 15));
    assert!(!inj.fires(true, 16));
    assert!(is_multiple_of(0, 0));
    assert!(!is_multiple_of(3, 0));
    assert!(is_multiple_of(50, 25));
}

#[test]
fn generate_when_follows_the_switch_reading() {
    let mut inj = ChaosInjector::new(4);
    assert!(inj.generate_when(true, 8).is_some());
    assert!(inj.generate_when(false, 8).is_none());
    assert!(inj.generate_when(true, 9).is_none());
}
