//! The application's entry: the delegate told about its launch.

use vstd::prelude::*;

verus! {

/// What an application is told as it launches and ends.
pub trait ApplicationDelegate {
    fn application_will_finish_launching(&self) {
    }

    fn application_did_finish_launching(&self) {
    }

    fn application_did_become_active(&self) {
    }

    fn application_will_terminate(&self) {
    }
}

/// The application about to launch, with its delegate.
pub struct ApplicationMain<D: ApplicationDelegate> {
    pub delegate: D,
}

impl<D: ApplicationDelegate> ApplicationMain<D> {
    pub fn new(delegate: D) -> (a: ApplicationMain<D>)
        ensures
            a.delegate == delegate,
    {
        ApplicationMain { delegate }
    }
}

} // verus!
