//! View controllers: the lifecycle a window's root controller goes
//! through, and the notifications it gives on the way.

use vstd::prelude::*;
use crate::handle::ViewHandle;

verus! {

/// What an application is told about its window's view.
pub trait ViewControllerBehavior {
    fn view_will_disappear(&self, _view: ViewHandle) {
    }

    fn view_did_disappear(&self, _view: ViewHandle) {
    }

    fn view_will_appear(&self, _view: ViewHandle) {
    }

    fn view_did_appear(&self, _view: ViewHandle) {
    }

    fn view_did_load(&self, _view: ViewHandle) {
    }
}

/// Where a view controller is in its lifecycle.
#[derive(Clone, Copy, Debug, PartialEq, Eq, Structural)]
pub enum ControllerState {
    WillLoad,
    DidLoad,
    WillAppear,
    DidAppear,
}

/// The order of the lifecycle's states.
pub open spec fn rank(s: ControllerState) -> nat {
    match s {
        ControllerState::WillLoad => 0,
        ControllerState::DidLoad => 1,
        ControllerState::WillAppear => 2,
        ControllerState::DidAppear => 3,
    }
}

/// A window's view controller and the application's behavior for it.
pub struct ViewController<B: ViewControllerBehavior> {
    pub state: ControllerState,
    pub behavior: B,
}

impl<B: ViewControllerBehavior> ViewController<B> {
    pub fn new(behavior: B) -> (c: Self)
        ensures
            c.state == ControllerState::WillLoad,
            c.behavior == behavior,
    {
        ViewController { state: ControllerState::WillLoad, behavior }
    }

    /// The window was built: the view has loaded. A controller loads once;
    /// it cannot be reused for another window.
    pub fn window_loaded(&mut self, view: ViewHandle)
        requires
            old(self).state == ControllerState::WillLoad,
        ensures
            final(self).state == ControllerState::DidLoad,
            final(self).behavior == old(self).behavior,
            rank(old(self).state) <= rank(final(self).state) <= rank(old(self).state) + 1,
    {
        self.state = ControllerState::DidLoad;
        self.behavior.view_did_load(view);
    }

    /// The window asks to be drawn: the first time, the view is about to
    /// appear. The window must have loaded. Says whether the application
    /// was told.
    pub fn window_set_needs_display(&mut self, view: ViewHandle) -> (told: bool)
        requires
            old(self).state != ControllerState::WillLoad,
        ensures
            told == (old(self).state == ControllerState::DidLoad),
            final(self).state == if told {
                ControllerState::WillAppear
            } else {
                old(self).state
            },
            final(self).behavior == old(self).behavior,
            rank(old(self).state) <= rank(final(self).state) <= rank(old(self).state) + 1,
    {
        match self.state {
            ControllerState::DidLoad => {
                self.state = ControllerState::WillAppear;
                self.behavior.view_will_appear(view);
                true
            },
            _ => false,
        }
    }

    /// The window was drawn: the first time, the view has appeared. The
    /// window must have been about to appear. Says whether the application
    /// was told.
    pub fn window_displayed(&mut self, view: ViewHandle) -> (told: bool)
        requires
            old(self).state != ControllerState::WillLoad,
            old(self).state != ControllerState::DidLoad,
        ensures
            told == (old(self).state == ControllerState::WillAppear),
            final(self).state == ControllerState::DidAppear,
            final(self).behavior == old(self).behavior,
            rank(old(self).state) <= rank(final(self).state) <= rank(old(self).state) + 1,
    {
        match self.state {
            ControllerState::WillAppear => {
                self.state = ControllerState::DidAppear;
                self.behavior.view_did_appear(view);
                true
            },
            _ => false,
        }
    }
}

} // verus!
