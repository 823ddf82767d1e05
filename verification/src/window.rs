//! Windows: a window is a view of the application's that stands alone,
//! starts hidden and white, and tells its view controller when it has
//! loaded. The operating system's window behind it is made by the caller.

use vstd::prelude::*;
use crate::application::Application;
use crate::color::Color;
use crate::controller::{ControllerState, ViewController, ViewControllerBehavior};
use crate::geometry::{Point, Rectangle};
use crate::handle::ViewHandle;
use crate::run_loop::RunLoop;
use crate::timer::Timer;
use crate::view::ViewTree;

verus! {

/// A window of the application, by its view.
#[derive(Clone, Copy, Debug, PartialEq, Eq, Structural)]
pub struct Window {
    pub view: ViewHandle,
}

impl Window {
    /// Makes a window's view with the given frame: hidden, white, with no
    /// superview, subviews or recognizers; adds it to the application's
    /// windows, and tells the view controller the window has loaded.
    pub fn new<B: ViewControllerBehavior>(
        app: &mut Application,
        tree: &mut ViewTree,
        frame: Rectangle,
        view_controller: &mut ViewController<B>,
    ) -> (w: Window)
        requires
            old(app).wf(),
            old(tree).wf(),
            old(view_controller).state == ControllerState::WillLoad,
        ensures
            final(app).wf(),
            final(tree).wf(),
            w.view.index == old(tree).nodes@.len(),
            final(tree).valid(w.view),
            final(tree).nodes@.len() == old(tree).nodes@.len() + 1,
            forall|i: int|
                0 <= i < old(tree).nodes@.len() ==> #[trigger] final(tree).nodes@[i]
                    == old(tree).nodes@[i],
            final(tree).recognizers@ == old(tree).recognizers@,
            final(tree).node(w.view).frame == frame,
            final(tree).node(w.view).bounds == (Rectangle {
                origin: Point { x: 0, y: 0 },
                size: frame.size,
            }),
            final(tree).node(w.view).hidden,
            final(tree).node(w.view).background_color == Color::rgba(255, 255, 255, 255),
            final(tree).node(w.view).superview.target.is_none(),
            final(tree).node(w.view).subviews@.len() == 0,
            final(tree).node(w.view).gesture_recognizers@.len() == 0,
            final(tree).node(w.view).user_interaction_enabled,
            final(app).windows@ == old(app).windows@.push(w.view),
            final(app).key_window_index == old(app).key_window_index,
            final(view_controller).state == ControllerState::DidLoad,
            final(view_controller).behavior == old(view_controller).behavior,
    {
        let view = tree.new_view(frame);
        tree.set_hidden(view, true);
        tree.set_background_color(view, Color::white());
        app.add_window(view);
        view_controller.window_loaded(view);
        Window { view }
    }

    /// The window whose view this is; the view must be one of the
    /// application's windows.
    pub fn from_window_view(app: &Application, view: ViewHandle) -> (w: Window)
        requires
            app.windows@.contains(view),
        ensures
            w.view == view,
    {
        Window { view }
    }

    /// Makes the window key and shows it.
    pub fn make_key_and_visible(&self, app: &mut Application, tree: &mut ViewTree)
        requires
            old(app).wf(),
            old(app).windows@.contains(self.view),
            old(tree).wf(),
            old(tree).valid(self.view),
        ensures
            final(app).wf(),
            final(app).windows@ == old(app).windows@,
            final(app).key_window_index matches Some(i) && final(app).windows@[i as int]
                == self.view,
            final(tree).wf(),
            final(tree).nodes@ == old(tree).nodes@.update(
                self.view.index as int,
                crate::view::ViewNode { hidden: false, ..old(tree).node(self.view) },
            ),
            final(tree).recognizers@ == old(tree).recognizers@,
    {
        app.set_key_window(&self.view);
        tree.set_hidden(self.view, false);
    }

    /// The window's part of a request for display that reached its view:
    /// its view controller is told (the first time, that the view will
    /// appear), and a timer that redraws the window once, as soon as the run
    /// loop gets to it, is added to the run loop.
    pub fn set_needs_display<B: ViewControllerBehavior, F: Fn()>(
        &self,
        view_controller: &mut ViewController<B>,
        run_loop: &mut RunLoop<F>,
        redraw: F,
    )
        requires
            old(view_controller).state != ControllerState::WillLoad,
            call_requires(redraw, ()),
        ensures
            final(view_controller).state == if old(view_controller).state
                == ControllerState::DidLoad {
                ControllerState::WillAppear
            } else {
                old(view_controller).state
            },
            final(view_controller).behavior == old(view_controller).behavior,
            final(run_loop).state == old(run_loop).state,
            final(run_loop).timers@.len() == old(run_loop).timers@.len() + 1,
            final(run_loop).timers@.drop_last() == old(run_loop).timers@,
            final(run_loop).timers@.last()@.interval == 0,
            !final(run_loop).timers@.last()@.repeats,
            final(run_loop).timers@.last()@.is_valid,
            final(run_loop).timers@.last()@.fire_at == final(run_loop).timers@.last()@.last_fired_at,
            final(run_loop).timers@.last().action() == redraw,
    {
        view_controller.window_set_needs_display(self.view);
        run_loop.add_timer(Timer::new_once(redraw));
    }
}

impl Application {
    /// Whether the view is one of the application's windows.
    pub fn is_window(&self, view: ViewHandle) -> (b: bool)
        ensures
            b == self.windows@.contains(view),
    {
        let mut i: usize = 0;
        while i < self.windows.len()
            invariant
                i <= self.windows@.len(),
                forall|j: int| 0 <= j < i ==> self.windows@[j] != view,
            decreases self.windows.len() - i,
        {
            if self.windows[i] == view {
                return true;
            }
            i = i + 1;
        }
        false
    }
}

} // verus!
