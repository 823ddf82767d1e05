use pelican::run_loop::{RunLoop, State};
use pelican::time::{Duration, Instant};
use pelican::timer::Timer;
use std::sync::atomic::{AtomicUsize, Ordering};
use std::sync::Arc;

type Action = Box<dyn Fn() + Send + Sync>;

fn counting(count: &Arc<AtomicUsize>) -> Action {
    let c = count.clone();
    Box::new(move || {
        c.fetch_add(1, Ordering::SeqCst);
    })
}

#[test]
fn run_loop_exit() {
    let mut run_loop: RunLoop<Action> = RunLoop::new();
    assert!(!run_loop.is_exiting());
    assert!(!run_loop.state.is_exit());
    run_loop.exit();
    assert!(run_loop.is_exiting());
    assert_eq!(run_loop.state, State::Exit);
}

#[test]
fn run_timers_fires_due_and_drops_invalid() {
    let count = Arc::new(AtomicUsize::new(0));
    let mut run_loop: RunLoop<Action> = RunLoop::new();
    // Due long ago, once.
    run_loop.add_timer(Timer::new_at(Duration::from_nanos(0), false, counting(&count), Instant { nanos: 0 }));
    // Not due for a long time.
    run_loop.add_timer(Timer::new(Duration::from_secs(3600), true, counting(&count)));
    // Invalidated.
    let mut dead = Timer::new_at(Duration::from_nanos(0), true, counting(&count), Instant { nanos: 0 });
    dead.invalidate();
    run_loop.add_timer(dead);

    let readings = run_loop.run_timers();
    assert_eq!(count.load(Ordering::SeqCst), 1);
    assert_eq!(run_loop.timers.len(), 2);
    assert_eq!(readings.len(), 2);
    assert!(!run_loop.timers[0].is_valid());
    // The one-off timer fired at the reading taken for it.
    assert_eq!(run_loop.timers[0].fire_at(), readings[0]);
    assert!(run_loop.timers[1].is_valid());

    // The fired one-off timer is dropped at the next turn.
    run_loop.run_timers();
    assert_eq!(count.load(Ordering::SeqCst), 1);
    assert_eq!(run_loop.timers.len(), 1);
}

#[test]
fn pause_after_short_turns() {
    assert_eq!(RunLoop::<Action>::pause_after(Duration::from_millis(3)), Some(Duration::from_millis(7)));
    assert_eq!(RunLoop::<Action>::pause_after(Duration::from_nanos(9_999_999)), Some(Duration::from_nanos(1)));
    assert_eq!(RunLoop::<Action>::pause_after(Duration::from_millis(10)), None);
    assert_eq!(RunLoop::<Action>::pause_after(Duration::from_millis(25)), None);
}

#[test]
fn run_timers_fires_each_due_timer_at_its_reading() {
    let count = Arc::new(AtomicUsize::new(0));
    let mut run_loop: RunLoop<Action> = RunLoop::new();
    run_loop.add_timer(Timer::new_at(Duration::from_millis(5), true, counting(&count), Instant { nanos: 0 }));
    run_loop.add_timer(Timer::new_at(Duration::from_millis(7), true, counting(&count), Instant { nanos: 0 }));
    let readings = run_loop.run_timers();
    assert_eq!(count.load(Ordering::SeqCst), 2);
    assert_eq!(readings.len(), 2);
    assert!(run_loop.timers[0].is_valid());
    assert!(run_loop.timers[1].is_valid());
    assert_eq!(run_loop.timers[0].fire_at().nanos, readings[0].nanos + 5_000_000);
    assert_eq!(run_loop.timers[1].fire_at().nanos, readings[1].nanos + 7_000_000);
    assert!(readings[0].nanos > 0);
}

#[test]
fn invalidating_through_the_loop_reaches_the_timer_it_holds() {
    let count = Arc::new(AtomicUsize::new(0));
    let mut run_loop: RunLoop<Action> = RunLoop::new();
    let interval = Duration::from_secs(360);
    let id = run_loop.add_timer(Timer::new_at(interval, true, counting(&count), Instant { nanos: 1_000 }));
    let other = run_loop.add_timer(Timer::new_at(Duration::from_nanos(0), true, counting(&count), Instant { nanos: 0 }));
    assert_ne!(id, other);

    let held = run_loop.timer(id).unwrap();
    assert!(held.is_valid());
    assert_eq!(held.fire_at().nanos, 1_000 + 360_000_000_000);

    assert!(run_loop.invalidate_timer(id));
    let held = run_loop.timer(id).unwrap();
    assert!(!held.is_valid());
    // Invalidated, it is due at the last time it fired: when it was made.
    assert_eq!(held.fire_at(), Instant { nanos: 1_000 });
    assert!(run_loop.timer(other).unwrap().is_valid());

    // The next turn drops it without running it; the other timer fires.
    let readings = run_loop.run_timers();
    assert_eq!(readings.len(), 1);
    assert_eq!(count.load(Ordering::SeqCst), 1);
    assert!(run_loop.timer(id).is_none());
    assert_eq!(run_loop.timers[0].id(), other);

    // An identifier the loop never gave finds nothing.
    assert!(!run_loop.invalidate_timer(9_999));
}
