//! The run loop: the timers it keeps, and what one turn of it does.

use vstd::prelude::*;
use crate::time::{Duration, Instant, MAX_NANOS};
use crate::timer::{Timer, TimerModel, fired, invalidated};

verus! {

/// Whether the run loop keeps running.
#[derive(Clone, Copy, Debug, PartialEq, Eq, Structural)]
pub enum State {
    Running,
    Exit,
}

impl State {
    pub fn is_exit(&self) -> (b: bool)
        ensures
            b == (*self == State::Exit),
    {
        match *self {
            State::Exit => true,
            _ => false,
        }
    }
}

/// The main loop's timers and whether it has been asked to end.
pub struct RunLoop<F: Fn()> {
    pub state: State,
    pub timers: Vec<Timer<F>>,
    /// The identifier the next timer added gets.
    pub next_id: u64,
}

/// The identifiers of a list of timers.
pub open spec fn timer_ids<F: Fn()>(timers: Seq<Timer<F>>) -> Seq<u64> {
    timers.map_values(|t: Timer<F>| t.id_spec())
}

/// The actions of a list of timers.
pub open spec fn actions<F: Fn()>(timers: Seq<Timer<F>>) -> Seq<F> {
    timers.map_values(|t: Timer<F>| t.action())
}

/// The valid timers of a list, in their order.
pub open spec fn valid_timers<F: Fn()>(timers: Seq<Timer<F>>) -> Seq<Timer<F>>
    decreases timers.len(),
{
    if timers.len() == 0 {
        seq![]
    } else {
        let rest = valid_timers(timers.drop_last());
        if timers.last()@.is_valid {
            rest.push(timers.last())
        } else {
            rest
        }
    }
}

/// A turn keeps only timers that were valid when it began: every timer the
/// run loop goes on to fire was valid, and no invalid timer survives a turn.
pub proof fn lemma_turn_drops_invalid<F: Fn()>(timers: Seq<Timer<F>>)
    ensures
        forall|i: int|
            0 <= i < valid_timers(timers).len() ==> (#[trigger] valid_timers(timers)[i])@.is_valid,
        valid_timers(timers).len() <= timers.len(),
    decreases timers.len(),
{
    if timers.len() > 0 {
        lemma_turn_drops_invalid(timers.drop_last());
    }
}

/// Where every timer's identifier is below a bound, so is that of every
/// timer a turn keeps.
pub proof fn lemma_turn_keeps_ids<F: Fn()>(timers: Seq<Timer<F>>, bound: u64)
    requires
        forall|i: int| 0 <= i < timers.len() ==> (#[trigger] timers[i]).id_spec() < bound,
    ensures
        forall|i: int|
            0 <= i < valid_timers(timers).len() ==> (#[trigger] valid_timers(timers)[i]).id_spec()
                < bound,
    decreases timers.len(),
{
    if timers.len() > 0 {
        let rest = timers.drop_last();
        assert forall|i: int| 0 <= i < rest.len() implies (#[trigger] rest[i]).id_spec() < bound by {
            assert(rest[i] == timers[i]);
        }
        lemma_turn_keeps_ids(rest, bound);
        let kept = valid_timers(rest);
        assert(timers.last() == timers[timers.len() - 1]);
        assert forall|i: int| 0 <= i < valid_timers(timers).len() implies (#[trigger] valid_timers(
            timers,
        )[i]).id_spec() < bound by {
            if i < kept.len() {
                assert(valid_timers(timers)[i] == kept[i]);
            }
        }
    }
}

/// A timer invalidated through the run loop is dropped at the next turn:
/// no timer a turn keeps has its identifier, so none of them fires.
pub proof fn lemma_invalidated_timer_is_dropped<F: Fn()>(timers: Seq<Timer<F>>, id: u64)
    requires
        forall|i: int| 0 <= i < timers.len() && (#[trigger] timers[i]).id_spec() == id ==> !timers[i]@.is_valid,
    ensures
        forall|i: int| 0 <= i < valid_timers(timers).len() ==> (#[trigger] valid_timers(timers)[i]).id_spec() != id,
    decreases timers.len(),
{
    if timers.len() > 0 {
        let rest = timers.drop_last();
        assert forall|i: int| 0 <= i < rest.len() && (#[trigger] rest[i]).id_spec() == id implies !rest[i]@.is_valid by {
            assert(rest[i] == timers[i]);
        }
        lemma_invalidated_timer_is_dropped(rest, id);
        let kept = valid_timers(rest);
        assert(timers.last() == timers[timers.len() - 1]);
        assert forall|i: int| 0 <= i < valid_timers(timers).len() implies (#[trigger] valid_timers(
            timers,
        )[i]).id_spec() != id by {
            if i < kept.len() {
                assert(valid_timers(timers)[i] == kept[i]);
            }
        }
    }
}

/// One turn's effect on a timer with the given action, given the clock
/// reading `now` taken for it: a timer due strictly before `now` fires at
/// `now` and its action runs; any other timer is left as it was.
pub open spec fn turned<F: Fn()>(before: TimerModel, after: TimerModel, action: F, now: nat) -> bool {
    if before.fire_at < now {
        &&& after == fired(before, now)
        &&& call_ensures(action, (), ())
    } else {
        after == before
    }
}

impl<F: Fn()> RunLoop<F> {
    /// Every timer's identifier was given before `next_id`.
    pub open spec fn wf(self) -> bool {
        forall|i: int| 0 <= i < self.timers@.len() ==> (#[trigger] self.timers@[i]).id_spec() < self.next_id
    }

    /// A running loop with no timers.
    pub fn new() -> (r: Self)
        ensures
            r.wf(),
            r.state == State::Running,
            r.timers@.len() == 0,
            r.next_id == 1,
    {
        RunLoop { state: State::Running, timers: Vec::new(), next_id: 1 }
    }

    /// Adds a timer to be run by the loop, and gives the identifier it gave
    /// the timer: `next_id`, which then moves on (it stays at `u64::MAX`
    /// once there). While the loop is well formed and `next_id` has not
    /// reached `u64::MAX`, no other timer of the loop has that identifier.
    pub fn add_timer(&mut self, timer: Timer<F>) -> (id: u64)
        ensures
            final(self).state == old(self).state,
            id == old(self).next_id,
            final(self).next_id == if old(self).next_id < u64::MAX {
                old(self).next_id + 1
            } else {
                u64::MAX as int
            },
            final(self).timers@.len() == old(self).timers@.len() + 1,
            final(self).timers@.drop_last() == old(self).timers@,
            final(self).timers@.last()@ == timer@,
            final(self).timers@.last().action() == timer.action(),
            final(self).timers@.last().id_spec() == id,
            old(self).wf() ==> final(self).wf() || old(self).next_id == u64::MAX,
            old(self).wf() ==> !timer_ids(old(self).timers@).contains(id),
    {
        let id = self.next_id;
        let mut timer = timer;
        timer.set_id(id);
        self.timers.push(timer);
        if self.next_id < u64::MAX {
            self.next_id = self.next_id + 1;
        }
        proof {
            if old(self).wf() {
                assert forall|i: int| 0 <= i < timer_ids(old(self).timers@).len() implies timer_ids(
                    old(self).timers@,
                )[i] != id by {
                    assert(old(self).timers@[i].id_spec() < id);
                }
                if old(self).next_id < u64::MAX {
                    assert forall|i: int| 0 <= i < self.timers@.len() implies (
                    #[trigger] self.timers@[i]).id_spec() < self.next_id by {
                        if i < old(self).timers@.len() {
                            assert(self.timers@[i] == old(self).timers@[i]);
                        }
                    }
                }
            }
        }
        assert(self.timers@.drop_last() =~= old(self).timers@);
        id
    }

    /// Invalidates, through the loop, each of its timers with the
    /// identifier: the loop will not fire it and drops it at its next turn.
    /// Says whether there was such a timer.
    pub fn invalidate_timer(&mut self, id: u64) -> (found: bool)
        ensures
            final(self).state == old(self).state,
            final(self).next_id == old(self).next_id,
            found == timer_ids(old(self).timers@).contains(id),
            final(self).timers@.len() == old(self).timers@.len(),
            timer_ids(final(self).timers@) == timer_ids(old(self).timers@),
            actions(final(self).timers@) == actions(old(self).timers@),
            forall|i: int|
                0 <= i < final(self).timers@.len() ==> (#[trigger] final(self).timers@[i])@ == if old(
                    self,
                ).timers@[i].id_spec() == id {
                    invalidated(old(self).timers@[i]@)
                } else {
                    old(self).timers@[i]@
                },
            old(self).wf() ==> final(self).wf(),
    {
        let ghost original = self.timers@;
        let mut pending: Vec<Timer<F>> = Vec::new();
        std::mem::swap(&mut pending, &mut self.timers);
        let mut found = false;
        while pending.len() > 0
            invariant
                self.state == old(self).state,
                self.next_id == old(self).next_id,
                self.timers@.len() + pending@.len() == original.len(),
                pending@ == original.subrange(self.timers@.len() as int, original.len() as int),
                found == timer_ids(original.take(self.timers@.len() as int)).contains(id),
                forall|i: int|
                    0 <= i < self.timers@.len() ==> {
                        &&& (#[trigger] self.timers@[i]).id_spec() == original[i].id_spec()
                        &&& self.timers@[i].action() == original[i].action()
                        &&& self.timers@[i]@ == if original[i].id_spec() == id {
                            invalidated(original[i]@)
                        } else {
                            original[i]@
                        }
                    },
            decreases pending.len(),
        {
            let ghost done = self.timers@.len() as int;
            let mut timer = pending.remove(0);
            if timer.id() == id {
                timer.invalidate();
                found = true;
            }
            self.timers.push(timer);
            proof {
                let before = timer_ids(original.take(done));
                let after = timer_ids(original.take(done + 1));
                assert(after =~= before.push(original[done].id_spec()));
                if before.contains(id) {
                    let k = choose|k: int| 0 <= k < before.len() && before[k] == id;
                    assert(after[k] == id);
                }
                if after.contains(id) && after.last() != id {
                    let k = choose|k: int| 0 <= k < after.len() && after[k] == id;
                    assert(before[k] == id);
                }
                assert(after[done] == original[done].id_spec());
                assert(pending@ =~= original.subrange(self.timers@.len() as int, original.len() as int));
            }
        }
        assert(original.take(original.len() as int) =~= original);
        assert(timer_ids(self.timers@) =~= timer_ids(original));
        assert(actions(self.timers@) =~= actions(original));
        found
    }

    /// The first of the loop's timers with the identifier, if any.
    pub fn timer(&self, id: u64) -> (r: Option<&Timer<F>>)
        ensures
            r is None <==> !timer_ids(self.timers@).contains(id),
            r matches Some(t) ==> exists|i: int|
                0 <= i < self.timers@.len() && self.timers@[i] == *t && t.id_spec() == id && forall|
                    j: int,
                | 0 <= j < i ==> (#[trigger] self.timers@[j]).id_spec() != id,
    {
        let mut i: usize = 0;
        while i < self.timers.len()
            invariant
                i <= self.timers@.len(),
                forall|j: int| 0 <= j < i ==> (#[trigger] self.timers@[j]).id_spec() != id,
            decreases self.timers.len() - i,
        {
            if self.timers[i].id() == id {
                assert(timer_ids(self.timers@)[i as int] == id);
                return Some(&self.timers[i]);
            }
            i = i + 1;
        }
        assert forall|k: int| 0 <= k < timer_ids(self.timers@).len() implies timer_ids(self.timers@)[k] != id by {
            assert(self.timers@[k].id_spec() != id);
        }
        None
    }

    /// Notifies the loop to stop at its next turn.
    pub fn exit(&mut self)
        ensures
            final(self).state == State::Exit,
            final(self).timers@ == old(self).timers@,
            final(self).next_id == old(self).next_id,
    {
        self.state = State::Exit;
    }

    /// Whether the loop has been asked to stop.
    pub fn is_exiting(&self) -> (b: bool)
        ensures
            b == (self.state == State::Exit),
    {
        self.state.is_exit()
    }

    /// One turn over the timers: drops the invalid ones, then, in order,
    /// reads the clock for each remaining timer and fires it if it is due
    /// strictly before that reading, and keeps them all. Gives back the
    /// readings, one per kept timer.
    pub fn run_timers(&mut self) -> (readings: Vec<Instant>)
        ensures
            final(self).state == old(self).state,
            final(self).next_id == old(self).next_id,
            final(self).timers@.len() == valid_timers(old(self).timers@).len(),
            readings@.len() == final(self).timers@.len(),
            actions(final(self).timers@) == actions(valid_timers(old(self).timers@)),
            timer_ids(final(self).timers@) == timer_ids(valid_timers(old(self).timers@)),
            old(self).wf() ==> final(self).wf(),
            forall|i: int| 0 <= i < readings@.len() ==> (#[trigger] readings@[i]).nanos <= MAX_NANOS,
            forall|i: int|
                0 <= i < final(self).timers@.len() ==> turned(
                    (#[trigger] valid_timers(old(self).timers@)[i])@,
                    final(self).timers@[i]@,
                    valid_timers(old(self).timers@)[i].action(),
                    readings@[i].nanos as nat,
                ),
    {
        let ghost original = self.timers@;
        let mut pending: Vec<Timer<F>> = Vec::new();
        std::mem::swap(&mut pending, &mut self.timers);
        // Keep the valid timers, in order.
        let mut kept: Vec<Timer<F>> = Vec::new();
        let ghost mut taken: int = 0;
        while pending.len() > 0
            invariant
                self.state == old(self).state,
                self.next_id == old(self).next_id,
                self.timers@.len() == 0,
                0 <= taken <= original.len(),
                pending@ == original.subrange(taken, original.len() as int),
                kept@ == valid_timers(original.take(taken)),
            decreases pending.len(),
        {
            let timer = pending.remove(0);
            proof {
                assert(original.take(taken + 1).drop_last() =~= original.take(taken));
                assert(original.take(taken + 1).last() == original[taken]);
            }
            if timer.is_valid() {
                kept.push(timer);
            }
            proof {
                taken = taken + 1;
                assert(pending@ =~= original.subrange(taken, original.len() as int));
            }
        }
        assert(original.take(original.len() as int) =~= original);
        let ghost valid = kept@;
        // Fire the due ones, and give them all back to the loop.
        let mut done: usize = 0;
        let total = kept.len();
        let mut readings: Vec<Instant> = Vec::new();
        while kept.len() > 0
            invariant
                self.state == old(self).state,
                self.next_id == old(self).next_id,
                total == valid.len(),
                done + kept@.len() == total,
                kept@ == valid.subrange(done as int, total as int),
                self.timers@.len() == done,
                readings@.len() == done,
                forall|i: int| 0 <= i < done ==> (#[trigger] readings@[i]).nanos <= MAX_NANOS,
                forall|i: int|
                    0 <= i < done ==> turned(
                        (#[trigger] valid[i])@,
                        self.timers@[i]@,
                        valid[i].action(),
                        readings@[i].nanos as nat,
                    ),
                forall|i: int| 0 <= i < done ==> (#[trigger] self.timers@[i]).action() == valid[i].action(),
                forall|i: int| 0 <= i < done ==> (#[trigger] self.timers@[i]).id_spec() == valid[i].id_spec(),
            decreases kept.len(),
        {
            let mut timer = kept.remove(0);
            let now = Instant::now();
            let ghost before = timer@;
            let did = timer.fire_if_due(now);
            proof {
                if did {
                    assert(fired(before, now.nanos as nat) == timer@);
                }
            }
            self.timers.push(timer);
            readings.push(now);
            done = done + 1;
            assert(kept@ =~= valid.subrange(done as int, total as int));
        }
        assert(actions(self.timers@) =~= actions(valid));
        assert(timer_ids(self.timers@) =~= timer_ids(valid));
        proof {
            if old(self).wf() {
                lemma_turn_keeps_ids(original, self.next_id);
                assert forall|i: int| 0 <= i < self.timers@.len() implies (
                #[trigger] self.timers@[i]).id_spec() < self.next_id by {
                    assert(self.timers@[i].id_spec() == valid[i].id_spec());
                }
            }
        }
        readings
    }

    /// How long the loop pauses after a turn that took `delta`: the rest of
    /// ten milliseconds when the turn took less than ten whole milliseconds,
    /// otherwise no pause.
    pub fn pause_after(delta: Duration) -> (p: Option<Duration>)
        ensures
            p matches Some(d) <==> delta.nanos / 1_000_000 < 10,
            p matches Some(d) ==> d.nanos == 10_000_000 - delta.nanos,
    {
        if delta.as_millis() < 10 {
            let ten = Duration::from_millis(10);
            ten.checked_sub(delta)
        } else {
            None
        }
    }
}

} // verus!
