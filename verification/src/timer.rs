//! Repeating and one-off timers, to be run by the run loop.

use vstd::prelude::*;
use crate::time::{Duration, Instant, MAX_NANOS};

verus! {

/// What a timer's state is, without its action.
pub struct TimerModel {
    pub interval: nat,
    pub repeats: bool,
    pub is_valid: bool,
    pub last_fired_at: nat,
    pub fire_at: nat,
}

#[derive(Clone, Copy)]
struct Schedule {
    interval: Duration,
    repeats: bool,
    // An invalid timer no longer runs, and the run loop drops it; it cannot
    // be made valid again.
    is_valid: bool,
    // The last time the timer fired; the time it was made until it fires.
    last_fired_at: Instant,
    // The next time to fire; once invalidated, the last time it fired.
    fire_at: Instant,
}

/// A repeating or once-off timer.
pub struct Timer<F: Fn()> {
    schedule: Schedule,
    action: F,
    // The identifier the run loop gave the timer when it was added; 0
    // before that.
    id: u64,
}

/// The state after firing at `now`: due again one interval later, and no
/// longer valid unless the timer repeats.
pub open spec fn fired(before: TimerModel, now: nat) -> TimerModel {
    TimerModel {
        interval: before.interval,
        repeats: before.repeats,
        is_valid: before.is_valid && before.repeats,
        last_fired_at: now,
        fire_at: now + before.interval,
    }
}

/// The state after invalidating: not valid, and due at the last firing.
pub open spec fn invalidated(before: TimerModel) -> TimerModel {
    TimerModel {
        interval: before.interval,
        repeats: before.repeats,
        is_valid: false,
        last_fired_at: before.last_fired_at,
        fire_at: before.last_fired_at,
    }
}

impl<F: Fn()> View for Timer<F> {
    type V = TimerModel;

    closed spec fn view(&self) -> TimerModel {
        TimerModel {
            interval: self.schedule.interval.nanos as nat,
            repeats: self.schedule.repeats,
            is_valid: self.schedule.is_valid,
            last_fired_at: self.schedule.last_fired_at.nanos as nat,
            fire_at: self.schedule.fire_at.nanos as nat,
        }
    }
}

impl<F: Fn()> Timer<F> {
    #[verifier::type_invariant]
    spec fn inv(&self) -> bool {
        let s = self.schedule;
        &&& s.interval.nanos <= MAX_NANOS
        &&& s.last_fired_at.nanos <= MAX_NANOS
        &&& (s.fire_at.nanos == s.last_fired_at.nanos + s.interval.nanos || (s.fire_at.nanos
            == s.last_fired_at.nanos && !s.is_valid))
        &&& call_requires(self.action, ())
    }

    /// The action the timer runs when it fires.
    pub closed spec fn action(&self) -> F {
        self.action
    }

    /// The identifier the run loop gave the timer; 0 before it was added.
    pub closed spec fn id_spec(&self) -> u64 {
        self.id
    }

    /// The identifier the run loop gave the timer; 0 before it was added.
    pub fn id(&self) -> (i: u64)
        ensures
            i == self.id_spec(),
    {
        self.id
    }

    /// Gives the timer its identifier in a run loop.
    pub(crate) fn set_id(&mut self, id: u64)
        ensures
            final(self)@ == old(self)@,
            final(self).action() == old(self).action(),
            final(self).id_spec() == id,
    {
        proof {
            use_type_invariant(&*self);
        }
        self.id = id;
    }

    /// A valid timer made at `now`: it last "fired" then, and is due one
    /// interval later.
    pub fn new_at(interval: Duration, repeats: bool, action: F, now: Instant) -> (t: Self)
        requires
            interval.nanos <= MAX_NANOS,
            now.nanos <= MAX_NANOS,
            call_requires(action, ()),
        ensures
            t@ == (TimerModel {
                interval: interval.nanos as nat,
                repeats,
                is_valid: true,
                last_fired_at: now.nanos as nat,
                fire_at: (now.nanos + interval.nanos) as nat,
            }),
            t.action() == action,
            t.id_spec() == 0,
    {
        Timer {
            id: 0,
            schedule: Schedule {
                interval,
                repeats,
                is_valid: true,
                last_fired_at: now,
                fire_at: Instant { nanos: now.nanos + interval.nanos },
            },
            action,
        }
    }

    /// A valid timer made now, due one interval from now.
    pub fn new(interval: Duration, repeats: bool, action: F) -> (t: Self)
        requires
            interval.nanos <= MAX_NANOS,
            call_requires(action, ()),
        ensures
            t@.interval == interval.nanos,
            t@.repeats == repeats,
            t@.is_valid,
            t@.fire_at == t@.last_fired_at + interval.nanos,
            t.action() == action,
            t.id_spec() == 0,
    {
        let now = Instant::now();
        Timer::new_at(interval, repeats, action, now)
    }

    /// A timer that fires once, as soon as the run loop gets to it.
    pub fn new_once(action: F) -> (t: Self)
        requires
            call_requires(action, ()),
        ensures
            t@.interval == 0,
            !t@.repeats,
            t@.is_valid,
            t@.fire_at == t@.last_fired_at,
            t.action() == action,
            t.id_spec() == 0,
    {
        Timer::new(Duration::new(0, 0), false, action)
    }

    /// A timer that fires once, `delay` from now.
    pub fn new_once_delayed(delay: Duration, action: F) -> (t: Self)
        requires
            delay.nanos <= MAX_NANOS,
            call_requires(action, ()),
        ensures
            t@.interval == delay.nanos,
            !t@.repeats,
            t@.is_valid,
            t@.fire_at == t@.last_fired_at + delay.nanos,
            t.action() == action,
            t.id_spec() == 0,
    {
        Timer::new(delay, false, action)
    }

    /// A timer that fires every `interval`, the first time one interval
    /// from now.
    pub fn new_repeating(interval: Duration, action: F) -> (t: Self)
        requires
            interval.nanos <= MAX_NANOS,
            call_requires(action, ()),
        ensures
            t@.interval == interval.nanos,
            t@.repeats,
            t@.is_valid,
            t@.fire_at == t@.last_fired_at + interval.nanos,
            t.action() == action,
            t.id_spec() == 0,
    {
        Timer::new(interval, true, action)
    }

    /// Runs the action, and records that the timer fired at `now`.
    pub fn fire_with_time(&mut self, now: Instant)
        requires
            now.nanos <= MAX_NANOS,
        ensures
            final(self)@ == fired(old(self)@, now.nanos as nat),
            final(self).action() == old(self).action(),
            final(self).id_spec() == old(self).id_spec(),
            call_ensures(old(self).action(), (), ()),
    {
        proof {
            use_type_invariant(&*self);
        }
        (self.action)();
        let s = self.schedule;
        self.schedule = Schedule {
            interval: s.interval,
            repeats: s.repeats,
            is_valid: s.is_valid && s.repeats,
            last_fired_at: now,
            fire_at: Instant { nanos: now.nanos + s.interval.nanos },
        };
    }

    /// Runs the action, and records that the timer fired now.
    pub fn fire(&mut self)
        ensures
            exists|now: nat| now <= MAX_NANOS && final(self)@ == fired(old(self)@, now),
            final(self).action() == old(self).action(),
            final(self).id_spec() == old(self).id_spec(),
            call_ensures(old(self).action(), (), ()),
    {
        let now = Instant::now();
        self.fire_with_time(now);
    }

    /// Fires the timer if it is due strictly before `now`; says whether it
    /// fired.
    pub fn fire_if_due(&mut self, now: Instant) -> (did: bool)
        requires
            now.nanos <= MAX_NANOS,
        ensures
            did == (old(self)@.fire_at < now.nanos),
            did ==> final(self)@ == fired(old(self)@, now.nanos as nat),
            !did ==> final(self)@ == old(self)@,
            final(self).action() == old(self).action(),
            final(self).id_spec() == old(self).id_spec(),
            did ==> call_ensures(old(self).action(), (), ()),
    {
        if self.schedule.fire_at.nanos < now.nanos {
            self.fire_with_time(now);
            true
        } else {
            false
        }
    }

    pub fn is_valid(&self) -> (b: bool)
        ensures
            b == self@.is_valid,
    {
        self.schedule.is_valid
    }

    /// The next time the timer is due; once invalidated, the last time it
    /// fired.
    pub fn fire_at(&self) -> (i: Instant)
        ensures
            i.nanos == self@.fire_at,
            self@.fire_at == self@.last_fired_at + self@.interval || (self@.fire_at
                == self@.last_fired_at && !self@.is_valid),
    {
        proof {
            use_type_invariant(self);
        }
        self.schedule.fire_at
    }

    /// Marks the timer invalid: the run loop will not fire it and will drop
    /// it.
    pub fn invalidate(&mut self)
        ensures
            final(self)@ == invalidated(old(self)@),
            final(self).action() == old(self).action(),
            final(self).id_spec() == old(self).id_spec(),
    {
        proof {
            use_type_invariant(&*self);
        }
        let s = self.schedule;
        self.schedule = Schedule {
            interval: s.interval,
            repeats: s.repeats,
            is_valid: false,
            last_fired_at: s.last_fired_at,
            fire_at: s.last_fired_at,
        };
    }
}

/// Once invalid, a timer stays invalid: neither firing nor invalidating
/// makes it valid again.
pub proof fn lemma_invalid_is_final(t: TimerModel, now: nat)
    requires
        !t.is_valid,
    ensures
        !fired(t, now).is_valid,
        !invalidated(t).is_valid,
{
}

/// A timer that does not repeat is invalid once it has fired.
pub proof fn lemma_once_fires_once(t: TimerModel, now: nat)
    requires
        !t.repeats,
    ensures
        !fired(t, now).is_valid,
{
}

/// The state after firing at each of `times`, in order.
pub open spec fn fired_at_times(t: TimerModel, times: Seq<nat>) -> TimerModel
    decreases times.len(),
{
    if times.len() == 0 {
        t
    } else {
        fired(fired_at_times(t, times.drop_last()), times.last())
    }
}

/// A repeating timer stays valid however often it fires, keeps its
/// interval, and is due one interval after the last time it fired.
pub proof fn lemma_repeating_stays_valid(t: TimerModel, times: Seq<nat>)
    requires
        t.is_valid,
        t.repeats,
    ensures
        fired_at_times(t, times).is_valid,
        fired_at_times(t, times).repeats,
        fired_at_times(t, times).interval == t.interval,
        times.len() > 0 ==> fired_at_times(t, times).last_fired_at == times.last(),
        times.len() > 0 ==> fired_at_times(t, times).fire_at == times.last() + t.interval,
    decreases times.len(),
{
    if times.len() > 0 {
        lemma_repeating_stays_valid(t, times.drop_last());
    }
}

} // verus!
