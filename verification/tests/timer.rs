use pelican::time::{Duration, Instant};
use pelican::timer::Timer;
use std::sync::atomic::{AtomicBool, AtomicUsize, Ordering};
use std::sync::Arc;

#[test]
fn test_fire_at() {
    // by default
    //   it returns the next time to fire (now + given interval)
    let now = Instant::now();
    let interval = Duration::from_secs(360);
    let mut timer = Timer::new(interval, false, || {});

    let fire_at = timer.fire_at();

    assert!(fire_at > now, "fire_at should be higher than now");
    assert!(fire_at >= now.checked_add(interval).unwrap(), "fire_at should be higher or equal to now+interval");

    // There's a wider gap here than expected intentionally, as extra time may have passed during the test execution
    assert!(fire_at < now.checked_add(Duration::from_secs(361)).unwrap(), "fire_at should be lower than too far beyond the interval");

    // when fired
    //   it refreshes the fire_at
    let now = Instant::now();
    timer.fire();
    assert_ne!(fire_at, timer.fire_at());

    let fire_at = timer.fire_at();

    assert!(fire_at > now, "after fire; fire_at should be higher than now");
    assert!(fire_at >= now.checked_add(interval).unwrap(), "after fire; fire_at should be higher or equal to now+interval");

    // There's a wider gap here than expected intentionally, as extra time may have passed during the test execution
    assert!(fire_at < now.checked_add(Duration::from_secs(361)).unwrap(), "after fire; fire_at should be lower than too far beyond the interval");

    // when invalidated
    //   it sets the fire_at to the last time it fired
    let now = Instant::now();
    timer.invalidate();
    let fire_at_after_invalidate = timer.fire_at();

    assert_ne!(fire_at, fire_at_after_invalidate);
    assert!(fire_at_after_invalidate < now, "after invalidate; fire_at should be lower than now");
}

#[test]
fn test_is_valid() {
    let interval = Duration::from_secs(360);
    let mut timer = Timer::new(interval, false, || {});

    assert!(timer.is_valid());
    timer.invalidate();
    assert!(!timer.is_valid());
}

#[test]
fn test_fire() {
    let interval = Duration::from_secs(360);
    let fired = Arc::new(AtomicBool::new(false));
    let flag = fired.clone();

    let mut timer = Timer::new(interval, false, move || {
        flag.store(true, Ordering::SeqCst);
    });

    assert!(!fired.load(Ordering::SeqCst));
    timer.fire();
    assert!(fired.load(Ordering::SeqCst));
}

#[test]
fn timer_fire_with_time_is_exact() {
    let start = Instant { nanos: 1_000 };
    let mut once = Timer::new_at(Duration::from_nanos(500), false, || {}, start);
    assert_eq!(once.fire_at(), Instant { nanos: 1_500 });
    once.fire_with_time(Instant { nanos: 2_000 });
    assert_eq!(once.fire_at(), Instant { nanos: 2_500 });
    assert!(!once.is_valid());
    once.invalidate();
    assert_eq!(once.fire_at(), Instant { nanos: 2_000 });

    let mut repeating = Timer::new_at(Duration::from_nanos(500), true, || {}, start);
    repeating.fire_with_time(Instant { nanos: 3_000 });
    assert!(repeating.is_valid());
    assert_eq!(repeating.fire_at(), Instant { nanos: 3_500 });
}

#[test]
fn timer_invalid_stays_invalid_after_fire() {
    let mut timer = Timer::new_repeating(Duration::from_secs(1), || {});
    timer.invalidate();
    timer.fire();
    assert!(!timer.is_valid());
}

#[test]
fn timer_fire_if_due_only_when_past() {
    let count = Arc::new(AtomicUsize::new(0));
    let c = count.clone();
    let mut timer = Timer::new_at(Duration::from_nanos(100), true, move || {
        c.fetch_add(1, Ordering::SeqCst);
    }, Instant { nanos: 0 });
    assert!(!timer.fire_if_due(Instant { nanos: 100 }));
    assert_eq!(count.load(Ordering::SeqCst), 0);
    assert!(timer.fire_if_due(Instant { nanos: 101 }));
    assert_eq!(count.load(Ordering::SeqCst), 1);
    assert_eq!(timer.fire_at(), Instant { nanos: 201 });
}

#[test]
fn timer_constructors() {
    let once = Timer::new_once(|| {});
    assert!(once.is_valid());
    let delayed = Timer::new_once_delayed(Duration::from_millis(5), || {});
    assert!(delayed.is_valid());
    assert!(delayed.fire_at() > once.fire_at() || delayed.fire_at() >= Instant::now());
}

#[test]
fn duration_arithmetic() {
    assert_eq!(Duration::new(1, 5).as_nanos(), 1_000_000_005);
    assert_eq!(Duration::from_millis(10).as_millis(), 10);
    assert_eq!(Duration::from_millis(10).checked_sub(Duration::from_millis(3)), Some(Duration::from_millis(7)));
    assert_eq!(Duration::from_millis(3).checked_sub(Duration::from_millis(10)), None);
    assert_eq!(Instant { nanos: 5 }.duration_since(Instant { nanos: 9 }), Duration::from_nanos(0));
    assert_eq!(Instant { nanos: 9 }.duration_since(Instant { nanos: 5 }), Duration::from_nanos(4));
    assert_eq!(Instant { nanos: u128::MAX }.checked_add(Duration::from_nanos(1)), None);
}

#[test]
fn a_repeating_timer_stays_valid_however_often_it_fires() {
    let mut timer = Timer::new_at(Duration::from_millis(10), true, || {}, Instant { nanos: 0 });
    for step in 1..=5u128 {
        let now = Instant { nanos: step * 100 };
        timer.fire_with_time(now);
        assert!(timer.is_valid());
        assert_eq!(timer.fire_at().nanos, step * 100 + 10_000_000);
    }
}
