//! Touches, the touch event that gathers them, and the arena that keeps
//! the event from one turn of the event loop to the next.

use vstd::prelude::*;
use crate::geometry::Point;
use crate::handle::ViewHandle;
use crate::time::{Instant, MAX_NANOS};
use crate::text::{push_decimal, decimal};
use vstd::string::*;

verus! {

/// A touch phase describes the lifecycle of a touch event.
#[derive(Clone, Copy, Debug, PartialEq, Eq, Structural)]
pub enum TouchPhase {
    Began,
    Moved,
    Ended,
    Cancelled,
}

/// One finger (or the mouse) on the screen.
#[derive(Debug)]
pub struct Touch {
    pub id: usize,
    pub timestamp: Instant,
    pub position: Point,
    pub phase: TouchPhase,
    /// The view the touch landed on.
    pub view: Option<ViewHandle>,
    /// The window view the touch landed in.
    pub window: Option<ViewHandle>,
    /// The gesture recognizers (their indexes in the view tree) that follow
    /// the touch.
    pub gesture_recognizers: Vec<usize>,
}

fn copy_indexes(v: &Vec<usize>) -> (r: Vec<usize>)
    ensures
        r@ == v@,
{
    let mut r: Vec<usize> = Vec::new();
    let mut i: usize = 0;
    while i < v.len()
        invariant
            i <= v.len(),
            r@ == v@.take(i as int),
        decreases v.len() - i,
    {
        r.push(v[i]);
        assert(v@.take(i + 1) =~= v@.take(i as int).push(v@[i as int]));
        i = i + 1;
    }
    assert(v@.take(v.len() as int) =~= v@);
    r
}

impl Touch {
    /// A touch that began at `now`, at `position`, on no view yet.
    pub fn new_at(id: usize, position: Point, now: Instant) -> (t: Touch)
        ensures
            t.id == id,
            t.position == position,
            t.timestamp == now,
            t.phase == TouchPhase::Began,
            t.view.is_none(),
            t.window.is_none(),
            t.gesture_recognizers@.len() == 0,
    {
        Touch {
            id,
            timestamp: now,
            position,
            phase: TouchPhase::Began,
            view: None,
            window: None,
            gesture_recognizers: Vec::new(),
        }
    }

    /// A touch that begins now.
    pub fn new(id: usize, position: Point) -> (t: Touch)
        ensures
            t.id == id,
            t.position == position,
            t.phase == TouchPhase::Began,
            t.view.is_none(),
            t.window.is_none(),
            t.gesture_recognizers@.len() == 0,
            t.timestamp.nanos <= MAX_NANOS,
    {
        Touch::new_at(id, position, Instant::now())
    }

    pub fn id(&self) -> (i: usize)
        ensures
            i == self.id,
    {
        self.id
    }

    pub fn position(&self) -> (p: Point)
        ensures
            p == self.position,
    {
        self.position
    }

    pub fn set_position(&mut self, position: Point)
        ensures
            *final(self) == (Touch { position, ..*old(self) }),
    {
        self.position = position;
    }

    pub fn phase(&self) -> (p: TouchPhase)
        ensures
            p == self.phase,
    {
        self.phase
    }

    pub fn set_phase(&mut self, phase: TouchPhase)
        ensures
            *final(self) == (Touch { phase, ..*old(self) }),
    {
        self.phase = phase;
    }

    pub fn view(&self) -> (v: Option<ViewHandle>)
        ensures
            v == self.view,
    {
        self.view
    }

    pub fn set_view(&mut self, view: ViewHandle)
        ensures
            *final(self) == (Touch { view: Some(view), ..*old(self) }),
    {
        self.view = Some(view);
    }

    pub fn window(&self) -> (w: Option<ViewHandle>)
        ensures
            w == self.window,
    {
        self.window
    }

    pub fn set_window(&mut self, window: ViewHandle)
        ensures
            *final(self) == (Touch { window: Some(window), ..*old(self) }),
    {
        self.window = Some(window);
    }

    pub fn timestamp(&self) -> (t: Instant)
        ensures
            t == self.timestamp,
    {
        self.timestamp
    }

    pub fn set_timestamp(&mut self, timestamp: Instant)
        ensures
            *final(self) == (Touch { timestamp, ..*old(self) }),
    {
        self.timestamp = timestamp;
    }

    /// Stamps the touch with the current time.
    pub fn update_timestamp(&mut self)
        ensures
            final(self).id == old(self).id,
            final(self).position == old(self).position,
            final(self).phase == old(self).phase,
            final(self).view == old(self).view,
            final(self).window == old(self).window,
            final(self).gesture_recognizers == old(self).gesture_recognizers,
            final(self).timestamp.nanos <= MAX_NANOS,
    {
        self.timestamp = Instant::now();
    }

    pub fn gesture_recognizers(&self) -> (r: &Vec<usize>)
        ensures
            r@ == self.gesture_recognizers@,
    {
        &self.gesture_recognizers
    }

    pub fn set_gesture_recognizers(&mut self, recognizers: Vec<usize>)
        ensures
            final(self).gesture_recognizers@ == recognizers@,
            final(self).id == old(self).id,
            final(self).timestamp == old(self).timestamp,
            final(self).position == old(self).position,
            final(self).phase == old(self).phase,
            final(self).view == old(self).view,
            final(self).window == old(self).window,
    {
        self.gesture_recognizers = recognizers;
    }

    /// The debug notation `Touch(id)`, the id in decimal.
    pub open spec fn debug_notation(self) -> Seq<char> {
        "Touch("@ + decimal(self.id as nat) + ")"@
    }

    /// Formats the touch as `Touch(id)`.
    pub fn debug_string(&self) -> (s: String)
        ensures
            s@ == self.debug_notation(),
    {
        let mut s = String::new();
        s.append("Touch(");
        push_decimal(&mut s, self.id as u64);
        s.append(")");
        assert(s@ =~= self.debug_notation());
        s
    }

    /// An equal copy of the touch.
    pub fn duplicate(&self) -> (t: Touch)
        ensures
            t.id == self.id,
            t.timestamp == self.timestamp,
            t.position == self.position,
            t.phase == self.phase,
            t.view == self.view,
            t.window == self.window,
            t.gesture_recognizers@ == self.gesture_recognizers@,
    {
        Touch {
            id: self.id,
            timestamp: self.timestamp,
            position: self.position,
            phase: self.phase,
            view: self.view,
            window: self.window,
            gesture_recognizers: copy_indexes(&self.gesture_recognizers),
        }
    }
}

impl Clone for Touch {
    fn clone(&self) -> (t: Self)
        ensures
            t.id == self.id,
            t.timestamp == self.timestamp,
            t.position == self.position,
            t.phase == self.phase,
            t.view == self.view,
            t.window == self.window,
            t.gesture_recognizers@ == self.gesture_recognizers@,
    {
        self.duplicate()
    }
}

impl PartialEq for Touch {
    fn eq(&self, other: &Self) -> (r: bool) {
        self.id == other.id
    }
}

impl vstd::std_specs::cmp::PartialEqSpecImpl for Touch {
    open spec fn obeys_eq_spec() -> bool {
        true
    }

    /// Two touches are the same touch when their ids agree.
    open spec fn eq_spec(&self, other: &Self) -> bool {
        self.id == other.id
    }
}

/// The touches of the current gesture.
#[derive(Debug)]
pub struct TouchEvent {
    pub touches: Vec<Touch>,
}

impl TouchEvent {
    pub fn new() -> (e: TouchEvent)
        ensures
            e.touches@.len() == 0,
    {
        TouchEvent { touches: Vec::new() }
    }

    pub fn touches(&self) -> (t: &Vec<Touch>)
        ensures
            t@ == self.touches@,
    {
        &self.touches
    }
}

/// The ids of a list of touches.
pub open spec fn touch_ids(touches: Seq<Touch>) -> Seq<usize> {
    touches.map_values(|t: Touch| t.id)
}

/// No id occurs twice.
pub open spec fn ids_unique(touches: Seq<Touch>) -> bool {
    forall|i: int, j: int|
        0 <= i < touches.len() && 0 <= j < touches.len() && i != j ==> #[trigger] touches[i].id
            != #[trigger] touches[j].id
}

/// Some touch has the id.
pub open spec fn has_touch(touches: Seq<Touch>, id: usize) -> bool {
    exists|i: int| 0 <= i < touches.len() && #[trigger] touches[i].id == id
}

/// The touch at `i` is the first with the id.
pub open spec fn first_with_id(touches: Seq<Touch>, id: usize, i: int) -> bool {
    &&& 0 <= i < touches.len()
    &&& touches[i].id == id
    &&& forall|j: int| 0 <= j < i ==> touches[j].id != id
}

/// The touches after the first touch with the id moves to `position`,
/// where it has begun or already moved.
pub open spec fn moved_touches(touches: Seq<Touch>, id: usize, position: Point) -> Seq<Touch> {
    Seq::new(
        touches.len(),
        |i: int|
            if first_with_id(touches, id, i) && (touches[i].phase == TouchPhase::Began
                || touches[i].phase == TouchPhase::Moved) {
                Touch { phase: TouchPhase::Moved, position, ..touches[i] }
            } else {
                touches[i]
            },
    )
}

/// The touches after the first touch with the id ends at `position`.
pub open spec fn ended_touches(touches: Seq<Touch>, id: usize, position: Point) -> Seq<Touch> {
    Seq::new(
        touches.len(),
        |i: int|
            if first_with_id(touches, id, i) {
                Touch { phase: TouchPhase::Ended, position, ..touches[i] }
            } else {
                touches[i]
            },
    )
}

/// Lists with the same ids, in the same order, are alike in having unique
/// ids.
pub proof fn lemma_same_ids_same_uniqueness(a: Seq<Touch>, b: Seq<Touch>)
    requires
        touch_ids(a) == touch_ids(b),
    ensures
        ids_unique(a) <==> ids_unique(b),
{
    assert(a.len() == touch_ids(a).len());
    assert(b.len() == touch_ids(b).len());
    assert(a.len() == b.len());
    assert forall|i: int| 0 <= i < a.len() implies #[trigger] a[i].id == b[i].id by {
        assert(touch_ids(a)[i] == a[i].id);
        assert(touch_ids(b)[i] == b[i].id);
    }
    if ids_unique(a) {
        assert forall|i: int, j: int| 0 <= i < b.len() && 0 <= j < b.len() && i != j implies #[trigger] b[i].id
            != #[trigger] b[j].id by {
            assert(a[i].id == b[i].id && a[j].id == b[j].id);
        }
    }
    if ids_unique(b) {
        assert forall|i: int, j: int| 0 <= i < a.len() && 0 <= j < a.len() && i != j implies #[trigger] a[i].id
            != #[trigger] a[j].id by {
            assert(a[i].id == b[i].id && a[j].id == b[j].id);
        }
    }
}

/// Keeps the touch event between turns of the event loop.
pub struct EventArena {
    pub touch_event: Option<TouchEvent>,
}

impl EventArena {
    pub fn new() -> (a: EventArena)
        ensures
            a.touch_event.is_none(),
    {
        EventArena { touch_event: None }
    }

    /// The touches of the arena's event; none before the event exists.
    pub open spec fn touches_of(self) -> Seq<Touch> {
        match self.touch_event {
            Some(e) => e.touches@,
            None => seq![],
        }
    }

    /// The arena's touch event, made empty the first time it is asked for.
    pub fn touch_event(&mut self) -> (e: &TouchEvent)
        ensures
            final(self).touch_event.is_some(),
            final(self).touches_of() == old(self).touches_of(),
            e.touches@ == old(self).touches_of(),
    {
        if self.touch_event.is_none() {
            self.touch_event = Some(TouchEvent::new());
        }
        self.touch_event.as_ref().unwrap()
    }

    /// Whether a touch with the id is in the arena's event.
    pub fn contains_touch(&self, id: usize) -> (b: bool)
        ensures
            b == has_touch(self.touches_of(), id),
    {
        match &self.touch_event {
            Some(e) => find_touch(&e.touches, id).is_some(),
            None => false,
        }
    }

    fn take_touches(&mut self) -> (t: Vec<Touch>)
        ensures
            t@ == old(self).touches_of(),
            final(self).touch_event.is_some(),
            final(self).touches_of().len() == 0,
    {
        let mut touches: Vec<Touch> = Vec::new();
        match self.touch_event.as_mut() {
            Some(e) => {
                std::mem::swap(&mut touches, &mut e.touches);
            },
            None => {
                self.touch_event = Some(TouchEvent::new());
            },
        }
        touches
    }

    fn put_touches(&mut self, touches: Vec<Touch>)
        ensures
            final(self).touches_of() == touches@,
            final(self).touch_event.is_some(),
    {
        self.touch_event = Some(TouchEvent { touches });
    }

    /// A touch begins: it joins the event's touches. A touch whose id is
    /// already there is refused by the caller's side of the contract.
    pub fn touch_began(&mut self, touch: Touch) -> (e: &TouchEvent)
        requires
            !has_touch(old(self).touches_of(), touch.id),
        ensures
            final(self).touches_of() == old(self).touches_of().push(touch),
            e.touches@ == final(self).touches_of(),
            ids_unique(old(self).touches_of()) ==> ids_unique(final(self).touches_of()),
    {
        let ghost before = self.touches_of();
        let ghost id = touch.id;
        let mut touches = self.take_touches();
        touches.push(touch);
        self.put_touches(touches);
        assert forall|i: int, j: int|
            ids_unique(before) && 0 <= i < self.touches_of().len() && 0 <= j < self.touches_of().len()
                && i != j implies #[trigger] self.touches_of()[i].id != #[trigger] self.touches_of()[j].id by {
            if i < before.len() && j < before.len() {
                assert(self.touches_of()[i] == before[i]);
                assert(self.touches_of()[j] == before[j]);
            } else if i < before.len() {
                assert(self.touches_of()[i] == before[i]);
                assert(before[i].id != id);
            } else {
                assert(self.touches_of()[j] == before[j]);
                assert(before[j].id != id);
            }
        }
        self.touch_event.as_ref().unwrap()
    }

    /// The touch with the id moves to `position`, where it has begun or
    /// already moved; an ended or cancelled touch, or an unknown id, changes
    /// nothing.
    pub fn touch_moved(&mut self, touch_id: usize, position: Point)
        ensures
            final(self).touches_of().len() == old(self).touches_of().len(),
            final(self).touch_event.is_some(),
            touch_ids(final(self).touches_of()) == touch_ids(old(self).touches_of()),
            final(self).touches_of() == moved_touches(old(self).touches_of(), touch_id, position),
    {
        let ghost before = self.touches_of();
        let mut touches = self.take_touches();
        match find_touch(&touches, touch_id) {
            Some(i) => {
                if touches[i].phase == TouchPhase::Began || touches[i].phase == TouchPhase::Moved {
                    let mut t = touches.remove(i);
                    t.phase = TouchPhase::Moved;
                    t.position = position;
                    touches.insert(i, t);
                }
            },
            None => {},
        }
        self.put_touches(touches);
        assert(touch_ids(self.touches_of()) =~= touch_ids(before));
        assert forall|k: int| 0 <= k < before.len() implies self.touches_of()[k] == #[trigger] moved_touches(
            before,
            touch_id,
            position,
        )[k] by {
            if first_with_id(before, touch_id, k) {
            }
        }
        assert(self.touches_of() =~= moved_touches(before, touch_id, position));
    }

    /// The touch with the id ends at `position`. The id must be there.
    pub fn touch_ended(&mut self, touch_id: usize, position: Point)
        requires
            has_touch(old(self).touches_of(), touch_id),
        ensures
            final(self).touch_event.is_some(),
            final(self).touches_of() == ended_touches(old(self).touches_of(), touch_id, position),
            touch_ids(final(self).touches_of()) == touch_ids(old(self).touches_of()),
    {
        let ghost before = self.touches_of();
        let mut touches = self.take_touches();
        match find_touch(&touches, touch_id) {
            Some(i) => {
                let mut t = touches.remove(i);
                t.phase = TouchPhase::Ended;
                t.position = position;
                touches.insert(i, t);
                assert(touches@ =~= before.update(
                    i as int,
                    Touch { phase: TouchPhase::Ended, position, ..before[i as int] },
                ));
                assert forall|k: int| 0 <= k < before.len() implies touches@[k] == #[trigger] ended_touches(
                    before,
                    touch_id,
                    position,
                )[k] by {
                    if k == i {
                    } else if first_with_id(before, touch_id, k) {
                        if k < i {
                        } else {
                            assert(before[i as int].id == touch_id);
                        }
                    }
                }
                assert(touches@ =~= ended_touches(before, touch_id, position));
            },
            None => {},
        }
        self.put_touches(touches);
        assert(touch_ids(self.touches_of()) =~= touch_ids(before));
    }

    /// Clears out the touches that have ended, keeping the others in order.
    pub fn cleanup_ended_touches(&mut self)
        ensures
            final(self).touch_event.is_some(),
            final(self).touches_of() == old(self).touches_of().filter(
                |t: Touch| t.phase != TouchPhase::Ended,
            ),
            forall|i: int|
                0 <= i < final(self).touches_of().len() ==> (
                #[trigger] final(self).touches_of()[i]).phase != TouchPhase::Ended,
            ids_unique(old(self).touches_of()) ==> ids_unique(final(self).touches_of()),
            forall|i: int|
                0 <= i < final(self).touches_of().len() ==> old(self).touches_of().contains(
                    #[trigger] final(self).touches_of()[i],
                ),
    {
        let ghost before = self.touches_of();
        let mut touches = self.take_touches();
        let mut kept: Vec<Touch> = Vec::new();
        let ghost mut taken: int = 0;
        while touches.len() > 0
            invariant
                0 <= taken <= before.len(),
                touches@ == before.subrange(taken, before.len() as int),
                kept@ == before.take(taken).filter(|t: Touch| t.phase != TouchPhase::Ended),
            decreases touches.len(),
        {
            let t = touches.remove(0);
            proof {
                reveal_with_fuel(Seq::filter, 1);
                assert(before.take(taken + 1).drop_last() =~= before.take(taken));
            }
            if t.phase != TouchPhase::Ended {
                kept.push(t);
            }
            proof {
                taken = taken + 1;
                assert(touches@ =~= before.subrange(taken, before.len() as int));
            }
        }
        assert(before.take(before.len() as int) =~= before);
        self.put_touches(kept);
        let ghost pred = |t: Touch| t.phase != TouchPhase::Ended;
        assert forall|i: int| 0 <= i < self.touches_of().len() implies (
        #[trigger] self.touches_of()[i]).phase != TouchPhase::Ended by {
            before.lemma_filter_pred(pred, i);
        }
        proof {
            lemma_filter_keeps_ids_unique(before, pred);
        }
        assert forall|i: int| 0 <= i < self.touches_of().len() implies before.contains(
            #[trigger] self.touches_of()[i],
        ) by {
            assert(before.filter(pred).contains(self.touches_of()[i]));
            before.lemma_filter_contains_rev(pred, self.touches_of()[i]);
        }
    }
}

/// Filtering a list of touches keeps its ids unique: the result's ids are
/// ids of the list, in their order.
proof fn lemma_filter_keeps_ids_unique(touches: Seq<Touch>, pred: spec_fn(Touch) -> bool)
    ensures
        ids_unique(touches) ==> ids_unique(touches.filter(pred)),
        forall|i: int|
            0 <= i < touches.filter(pred).len() ==> has_touch(
                touches,
                #[trigger] touches.filter(pred)[i].id,
            ),
    decreases touches.len(),
{
    reveal_with_fuel(Seq::filter, 1);
    if touches.len() > 0 {
        let rest = touches.drop_last();
        lemma_filter_keeps_ids_unique(rest, pred);
        rest.lemma_filter_len(pred);
        let f = touches.filter(pred);
        let fr = rest.filter(pred);
        assert forall|i: int| 0 <= i < fr.len() implies has_touch(touches, #[trigger] fr[i].id) by {
            let k = choose|k: int| 0 <= k < rest.len() && #[trigger] rest[k].id == fr[i].id;
            assert(touches[k] == rest[k]);
        }
        if ids_unique(touches) {
            assert(ids_unique(rest)) by {
                assert forall|i: int, j: int|
                    0 <= i < rest.len() && 0 <= j < rest.len() && i != j implies #[trigger] rest[i].id
                    != #[trigger] rest[j].id by {
                    assert(rest[i] == touches[i] && rest[j] == touches[j]);
                }
            }
            if pred(touches.last()) {
                assert(f == fr.push(touches.last()));
                assert forall|i: int| 0 <= i < fr.len() implies #[trigger] fr[i].id != touches.last().id by {
                    let k = choose|k: int| 0 <= k < rest.len() && #[trigger] rest[k].id == fr[i].id;
                    assert(touches[k] == rest[k]);
                    assert(touches[touches.len() - 1] == touches.last());
                }
                assert forall|i: int, j: int|
                    0 <= i < f.len() && 0 <= j < f.len() && i != j implies #[trigger] f[i].id
                    != #[trigger] f[j].id by {
                    if i < fr.len() && j < fr.len() {
                        assert(f[i] == fr[i] && f[j] == fr[j]);
                    } else if i < fr.len() {
                        assert(f[i] == fr[i]);
                    } else {
                        assert(f[j] == fr[j]);
                    }
                }
            } else {
                assert(f == fr);
            }
        }
        if pred(touches.last()) {
            assert(f == fr.push(touches.last()));
            assert forall|i: int| 0 <= i < f.len() implies has_touch(touches, #[trigger] f[i].id) by {
                if i < fr.len() {
                    assert(f[i] == fr[i]);
                } else {
                    assert(touches[touches.len() - 1] == touches.last());
                }
            }
        } else {
            assert(f == fr);
        }
    }
}

/// The position of the first touch with the id, if any.
fn find_touch(touches: &Vec<Touch>, id: usize) -> (r: Option<usize>)
    ensures
        r matches Some(i) ==> i < touches@.len() && touches@[i as int].id == id && forall|j: int|
            0 <= j < i ==> touches@[j].id != id,
        r is None ==> !has_touch(touches@, id),
{
    let mut i: usize = 0;
    while i < touches.len()
        invariant
            i <= touches@.len(),
            forall|j: int| 0 <= j < i ==> touches@[j].id != id,
        decreases touches.len() - i,
    {
        if touches[i].id == id {
            return Some(i);
        }
        i = i + 1;
    }
    None
}

} // verus!
