use market_maker::rate::{RateController, COOLDOWN_SECS, INVALID_RATES};

#[test]
fn rate_doubles_each_cooldown_until_the_maximum() {
    let mut rate = RateController::new(10, 80, 0).unwrap();
    assert_eq!(rate.current_rate(), 10);
    rate.adjust(60);
    assert_eq!(rate.current_rate(), 20);
    rate.adjust(120);
    assert_eq!(rate.current_rate(), 40);
    rate.adjust(180);
    assert_eq!(rate.current_rate(), 80);
    rate.adjust(240);
    assert_eq!(rate.current_rate(), 80);
    rate.adjust(u64::MAX);
    assert_eq!(rate.current_rate(), 80);
}

#[test]
fn rate_waits_for_the_cooldown() {
    assert_eq!(COOLDOWN_SECS, 60);
    let mut rate = RateController::new(10, 80, 1000).unwrap();
    for now in 1000..1060u64 {
        rate.adjust(now);
        assert_eq!(rate.current_rate(), 10);
        assert_eq!(rate.last_increase(), 1000);
    }
    rate.adjust(1060);
    assert_eq!(rate.current_rate(), 20);
    assert_eq!(rate.last_increase(), 1060);
    rate.adjust(1119);
    assert_eq!(rate.current_rate(), 20);
    rate.adjust(1125);
    assert_eq!(rate.current_rate(), 40);
    assert_eq!(rate.last_increase(), 1125);
}

#[test]
fn rate_is_capped_at_the_maximum() {
    let mut rate = RateController::new(10, 25, 0).unwrap();
    rate.adjust(60);
    assert_eq!(rate.current_rate(), 20);
    rate.adjust(120);
    assert_eq!(rate.current_rate(), 25);
    assert_eq!(rate.last_increase(), 120);
}

#[test]
fn rate_at_the_maximum_changes_nothing() {
    let mut rate = RateController::new(5, 5, 0).unwrap();
    rate.adjust(600);
    assert_eq!(rate.current_rate(), 5);
    assert_eq!(rate.last_increase(), 0);
    assert_eq!(rate.min_rate(), 5);
    assert_eq!(rate.max_rate(), 5);
}

#[test]
fn rate_ignores_a_clock_that_runs_backwards() {
    let mut rate = RateController::new(1, 8, 500).unwrap();
    rate.adjust(100);
    assert_eq!(rate.current_rate(), 1);
    assert_eq!(rate.last_increase(), 500);
}

#[test]
fn rate_doubling_does_not_overflow() {
    let mut rate = RateController::new(3_000_000_000, u32::MAX, 0).unwrap();
    rate.adjust(60);
    assert_eq!(rate.current_rate(), u32::MAX);
    let mut rate = RateController::new(1, u32::MAX, 0).unwrap();
    let mut now = 0u64;
    let mut expected = 1u64;
    for _ in 0..40 {
        now += 60;
        rate.adjust(now);
        expected = (expected * 2).min(u32::MAX as u64);
        assert_eq!(rate.current_rate() as u64, expected);
    }
}

#[test]
fn rate_never_decreases() {
    let mut rate = RateController::new(2, 1000, 0).unwrap();
    let mut previous = rate.current_rate();
    let mut now = 0u64;
    for step in 0..500u64 {
        now += (step * 7) % 90;
        rate.adjust(now);
        assert!(rate.current_rate() >= previous);
        assert!(rate.current_rate() >= rate.min_rate());
        assert!(rate.current_rate() <= rate.max_rate());
        previous = rate.current_rate();
    }
    assert_eq!(previous, 1000);
}

#[test]
fn rate_refuses_invalid_bounds() {
    assert_eq!(RateController::new(0, 10, 0).err(), Some("Invalid rate parameters"));
    assert_eq!(RateController::new(10, 0, 0).err(), Some(INVALID_RATES));
    assert_eq!(RateController::new(0, 0, 0).err(), Some(INVALID_RATES));
    assert_eq!(RateController::new(50, 10, 0).err(), Some(INVALID_RATES));
    assert!(RateController::new(1, 1, 0).is_ok());
    assert!(RateController::new(10, 80, 0).is_ok());
}
