//! The pan gesture recognizer: it follows a touch and reports a pan once
//! the touch has travelled far enough.

use vstd::prelude::*;
use crate::geometry::Point;
use crate::handle::{ViewHandle, WeakView};
use crate::touch::{Touch, TouchEvent};

verus! {

/// The states of a pan gesture.
#[derive(Clone, Copy, Debug, PartialEq, Eq, Hash, Structural)]
pub enum PanState {
    Possible,
    Began,
    Changed,
    Ended,
    Cancelled,
    Failed,
}

/// How far a touch must travel along one axis, in points, before a pan
/// begins.
pub const PAN_THRESHOLD: i32 = 10;

/// A pan gesture recognizer. Its action belongs to whoever drives it: the
/// methods that would run the action say so in their result.
#[derive(Clone, Copy, Debug)]
pub struct PanRecognizer {
    pub view: WeakView,
    pub state: PanState,
    pub translation: Point,
    pub initial_position: Point,
    pub last_position: Point,
}

/// The translation of a touch at `position` from where the pan started.
pub open spec fn translation_to(initial: Point, position: Point) -> (int, int) {
    (position.x - initial.x, position.y - initial.y)
}

/// The translation is past the threshold along some axis.
pub open spec fn past_threshold(tx: int, ty: int) -> bool {
    tx > 10 || tx < -10 || ty > 10 || ty < -10
}

/// The state a move leads to, and whether the action runs.
pub open spec fn moved_state(state: PanState, tx: int, ty: int) -> (PanState, bool) {
    match state {
        PanState::Possible => if past_threshold(tx, ty) {
            (PanState::Began, true)
        } else {
            (PanState::Possible, false)
        },
        PanState::Began => (PanState::Changed, true),
        PanState::Changed => (PanState::Changed, true),
        _ => (state, false),
    }
}

impl PanRecognizer {
    /// The recognizer after a touch goes down at `p`.
    pub open spec fn after_begin(self, p: Point) -> PanRecognizer {
        PanRecognizer {
            state: PanState::Possible,
            last_position: p,
            initial_position: p,
            translation: Point { x: 0, y: 0 },
            ..self
        }
    }

    /// The recognizer after the touch lifts.
    pub open spec fn after_end(self) -> PanRecognizer {
        PanRecognizer { state: PanState::Ended, ..self }
    }

    /// A move to `p` can be followed without leaving `i32`.
    pub open spec fn can_move(self, p: Point) -> bool {
        let tx = p.x - self.initial_position.x;
        let ty = p.y - self.initial_position.y;
        &&& i32::MIN <= tx <= i32::MAX
        &&& i32::MIN <= ty <= i32::MAX
        &&& self.state == PanState::Possible ==> {
            &&& tx != i32::MIN
            &&& -10 <= tx <= 10 ==> ty != i32::MIN
        }
    }

    /// The recognizer after the touch moves to `p`.
    pub open spec fn after_move(self, p: Point) -> PanRecognizer {
        let (tx, ty) = translation_to(self.initial_position, p);
        PanRecognizer {
            translation: Point { x: tx as i32, y: ty as i32 },
            last_position: p,
            state: moved_state(self.state, tx, ty).0,
            ..self
        }
    }

    /// Whether a move to `p` runs the action.
    pub open spec fn move_runs(self, p: Point) -> bool {
        let (tx, ty) = translation_to(self.initial_position, p);
        moved_state(self.state, tx, ty).1
    }

    /// The recognizer `new` makes.
    pub open spec fn initial() -> PanRecognizer {
        PanRecognizer {
            view: WeakView { target: None },
            state: PanState::Possible,
            translation: Point { x: 0, y: 0 },
            initial_position: Point { x: 0, y: 0 },
            last_position: Point { x: 0, y: 0 },
        }
    }

    /// A recognizer in the possible state, on no view, with no translation.
    pub fn new() -> (r: PanRecognizer)
        ensures
            r == PanRecognizer::initial(),
            r.view.target.is_none(),
            r.state == PanState::Possible,
            r.translation == (Point { x: 0, y: 0 }),
            r.initial_position == (Point { x: 0, y: 0 }),
            r.last_position == (Point { x: 0, y: 0 }),
    {
        PanRecognizer {
            view: WeakView::none(),
            state: PanState::Possible,
            translation: Point { x: 0, y: 0 },
            initial_position: Point { x: 0, y: 0 },
            last_position: Point { x: 0, y: 0 },
        }
    }

    /// The translation of the pan; the same in every view.
    pub fn translation_in(&self, _view: &ViewHandle) -> (t: Point)
        ensures
            t == self.translation,
    {
        self.translation
    }

    /// Sets the translation, and starts measuring anew from where the touch
    /// is now.
    pub fn set_translation(&mut self, translation: Point, _view: &ViewHandle)
        ensures
            *final(self) == (PanRecognizer {
                translation,
                initial_position: old(self).last_position,
                ..*old(self)
            }),
    {
        self.translation = translation;
        self.initial_position = self.last_position;
    }

    pub fn state(&self) -> (s: PanState)
        ensures
            s == self.state,
    {
        self.state
    }

    pub fn view(&self) -> (v: WeakView)
        ensures
            v == self.view,
    {
        self.view
    }

    /// Attaches the recognizer to a view.
    pub fn set_view(&mut self, view: WeakView)
        ensures
            *final(self) == (PanRecognizer { view, ..*old(self) }),
    {
        self.view = view;
    }

    /// A touch went down: the gesture becomes possible, measured from the
    /// first touch's position.
    pub fn touches_began(&mut self, touches: &Vec<Touch>, _event: &TouchEvent)
        requires
            touches@.len() > 0,
        ensures
            *final(self) == old(self).after_begin(touches@[0].position),
    {
        let position = touches[0].position;
        self.state = PanState::Possible;
        self.last_position = position;
        self.initial_position = position;
        self.translation = Point { x: 0, y: 0 };
    }

    /// The touch lifted: the gesture ends.
    pub fn touches_ended(&mut self, _touches: &Vec<Touch>, _event: &TouchEvent)
        ensures
            *final(self) == old(self).after_end(),
    {
        self.state = PanState::Ended;
    }

    /// The touch moved: the translation follows the first touch. A possible
    /// pan begins once the touch is more than ten points away along an
    /// axis; a begun pan changes. Says whether the action runs.
    pub fn touches_moved(&mut self, touches: &Vec<Touch>, _event: &TouchEvent) -> (run: bool)
        requires
            touches@.len() > 0,
            old(self).can_move(touches@[0].position),
        ensures
            *final(self) == old(self).after_move(touches@[0].position),
            run == old(self).move_runs(touches@[0].position),
    {
        self.move_to(touches[0].position)
    }

    /// The touch moved to `position`, as `touches_moved` says.
    pub fn move_to(&mut self, position: Point) -> (run: bool)
        requires
            old(self).can_move(position),
        ensures
            *final(self) == old(self).after_move(position),
            run == old(self).move_runs(position),
    {
        let tx = position.x - self.initial_position.x;
        let ty = position.y - self.initial_position.y;
        self.translation = Point { x: tx, y: ty };
        self.last_position = position;
        match self.state {
            PanState::Possible => {
                if tx > PAN_THRESHOLD || tx < -PAN_THRESHOLD || ty > PAN_THRESHOLD || ty
                    < -PAN_THRESHOLD {
                    self.state = PanState::Began;
                } else {
                    return false;
                }
            },
            PanState::Began => {
                self.state = PanState::Changed;
            },
            PanState::Changed => {},
            _ => {
                return false;
            },
        }
        true
    }

    /// Whether a move to `p` can be followed without leaving `i32`.
    pub fn can_move_to(&self, p: Point) -> (b: bool)
        ensures
            b == self.can_move(p),
    {
        let tx = p.x as i64 - self.initial_position.x as i64;
        let ty = p.y as i64 - self.initial_position.y as i64;
        let min = i32::MIN as i64;
        let max = i32::MAX as i64;
        if tx < min || tx > max || ty < min || ty > max {
            return false;
        }
        match self.state {
            PanState::Possible => tx != min && (tx < -10 || tx > 10 || ty != min),
            _ => true,
        }
    }

    /// A scroll wheel moved: the translation becomes the wheel's, mirrored
    /// horizontally, and the action runs.
    pub fn scroll_did_translate(&mut self, translation: &Point) -> (run: bool)
        requires
            translation.x != i32::MIN,
        ensures
            *final(self) == (PanRecognizer {
                translation: Point { x: -translation.x as i32, y: translation.y },
                ..*old(self)
            }),
            run,
    {
        self.translation = Point { x: -translation.x, y: translation.y };
        true
    }

    /// A recognizer can cancel the touches sent to its view once it has
    /// recognized its gesture.
    pub fn cancels_touches_in_view(&self) -> (b: bool)
        ensures
            b,
    {
        true
    }
}

/// Moves that stay within ten points of where the touch went down, along
/// both axes, leave a possible pan possible and run nothing.
pub proof fn lemma_small_moves_run_nothing(r: PanRecognizer, p: Point)
    requires
        r.state == PanState::Possible,
        -10 <= p.x - r.initial_position.x <= 10,
        -10 <= p.y - r.initial_position.y <= 10,
    ensures
        r.after_move(p).state == PanState::Possible,
        !r.move_runs(p),
{
}

/// Once a pan has ended (or been cancelled, or failed), moves run nothing
/// and leave its state alone; a new touch makes it possible again.
pub proof fn lemma_finished_pan_runs_nothing(r: PanRecognizer, p: Point, q: Point)
    requires
        r.state == PanState::Ended || r.state == PanState::Cancelled || r.state == PanState::Failed,
    ensures
        r.after_move(p).state == r.state,
        !r.move_runs(p),
        r.after_begin(q).state == PanState::Possible,
{
}

/// A touch that went down and moved runs the action exactly when it is,
/// at that point, more than ten points away along an axis; the translation
/// is then the distance travelled.
pub proof fn lemma_first_move_after_touch_down(r: PanRecognizer, down: Point, p: Point)
    requires
        r.after_begin(down).can_move(p),
    ensures
        r.after_begin(down).move_runs(p) == past_threshold(p.x - down.x, p.y - down.y),
        r.after_begin(down).after_move(p).translation == (Point {
            x: (p.x - down.x) as i32,
            y: (p.y - down.y) as i32,
        }),
{
}

} // verus!
