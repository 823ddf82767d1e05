//! The application: its windows, which of them is key, and how a touch
//! finds the view and the gesture recognizers it goes to.

use vstd::prelude::*;
use crate::handle::{ViewHandle, WeakView};
use crate::run_loop::RunLoop;
use crate::touch::Touch;
use crate::view::ViewTree;

verus! {

/// The gesture recognizers of a view and of each view up its superview
/// chain, nearest first, following at most `fuel` links; `None` where the
/// chain does not end within the fuel.
pub open spec fn recognizers_up(tree: ViewTree, v: ViewHandle, fuel: nat) -> Option<Seq<usize>>
    decreases fuel,
{
    if fuel == 0 || !tree.valid(v) {
        None
    } else {
        let own = tree.node(v).gesture_recognizers@;
        match tree.node(v).superview.target {
            None => Some(own),
            Some(s) => match recognizers_up(tree, s, (fuel - 1) as nat) {
                None => None,
                Some(rest) => Some(own + rest),
            },
        }
    }
}

/// The application's windows (their views) and the key window.
pub struct Application {
    pub key_window_index: Option<usize>,
    pub windows: Vec<ViewHandle>,
}

impl Application {
    /// The key window, if any, is one of the windows.
    pub open spec fn wf(self) -> bool {
        self.key_window_index matches Some(i) ==> i < self.windows@.len()
    }

    pub fn new() -> (a: Application)
        ensures
            a.wf(),
            a.key_window_index.is_none(),
            a.windows@.len() == 0,
    {
        Application { key_window_index: None, windows: Vec::new() }
    }

    pub fn add_window(&mut self, window: ViewHandle)
        requires
            old(self).wf(),
        ensures
            final(self).wf(),
            final(self).windows@ == old(self).windows@.push(window),
            final(self).key_window_index == old(self).key_window_index,
    {
        self.windows.push(window);
    }

    /// A weak reference to the key window; empty when there is none.
    pub fn get_key_window(&self) -> (w: WeakView)
        requires
            self.wf(),
        ensures
            w.target == (match self.key_window_index {
                Some(i) => Some(self.windows@[i as int]),
                None => None,
            }),
    {
        match self.key_window_index {
            Some(i) => self.windows[i].downgrade(),
            None => WeakView::none(),
        }
    }

    /// Makes the window key: the first window equal to it becomes the key
    /// window. The window must be one of the application's.
    pub fn set_key_window(&mut self, window: &ViewHandle)
        requires
            old(self).wf(),
            old(self).windows@.contains(*window),
        ensures
            final(self).wf(),
            final(self).windows@ == old(self).windows@,
            final(self).key_window_index matches Some(i) && final(self).windows@[i as int]
                == *window && forall|j: int| 0 <= j < i ==> final(self).windows@[j] != *window,
    {
        let mut i: usize = 0;
        while i < self.windows.len()
            invariant
                self.windows@ == old(self).windows@,
                self.windows@.contains(*window),
                i <= self.windows@.len(),
                forall|j: int| 0 <= j < i ==> self.windows@[j] != *window,
            decreases self.windows.len() - i,
        {
            if self.windows[i] == *window {
                self.key_window_index = Some(i);
                return;
            }
            i = i + 1;
        }
        proof {
            let k = choose|k: int| 0 <= k < self.windows@.len() && self.windows@[k] == *window;
            assert(self.windows@[k] == *window);
        }
    }

    /// Asks the run loop to stop.
    pub fn exit<F: Fn()>(&self, run_loop: &mut RunLoop<F>)
        ensures
            final(run_loop).state == crate::run_loop::State::Exit,
            final(run_loop).timers@ == old(run_loop).timers@,
    {
        run_loop.exit();
    }

    /// Points a new touch at its targets: the window it is in, the view it
    /// landed on, and the gesture recognizers of that view and of every view
    /// that contains it, nearest first.
    pub fn assign_targets_to_touch(&self, tree: &ViewTree, window: ViewHandle, touch: &mut Touch)
        requires
            tree.wf(),
            tree.hit_result(window, old(touch).position) is Some,
            tree.hit_result(window, old(touch).position).unwrap() matches Some(v)
                ==> recognizers_up(*tree, v, tree.nodes@.len()) is Some,
        ensures
            final(touch).id == old(touch).id,
            final(touch).position == old(touch).position,
            final(touch).phase == old(touch).phase,
            final(touch).timestamp == old(touch).timestamp,
            final(touch).window == Some(window),
            match tree.hit_result(window, old(touch).position).unwrap() {
                Some(v) => {
                    &&& final(touch).view == Some(v)
                    &&& Some(final(touch).gesture_recognizers@) == recognizers_up(
                        *tree,
                        v,
                        tree.nodes@.len(),
                    )
                },
                None => {
                    &&& final(touch).view == old(touch).view
                    &&& final(touch).gesture_recognizers@ == old(touch).gesture_recognizers@
                },
            },
    {
        touch.set_window(window);
        let position = touch.position();
        if let Some(view) = tree.hit_test(window, &position) {
            touch.set_view(view);
            let mut recognizers: Vec<usize> = Vec::new();
            let mut current = view;
            let mut fuel = tree.nodes.len();
            let ghost total = recognizers_up(*tree, view, tree.nodes@.len()).unwrap();
            loop
                invariant_except_break
                    tree.valid(current),
                    recognizers_up(*tree, current, fuel as nat) is Some,
                    recognizers@ + recognizers_up(*tree, current, fuel as nat).unwrap() == total,
                invariant
                    tree.wf(),
                    total == recognizers_up(*tree, view, tree.nodes@.len()).unwrap(),
                ensures
                    recognizers@ == total,
                decreases fuel,
            {
                let own = tree.gesture_recognizers(current);
                let mut j: usize = 0;
                let ghost start = recognizers@;
                while j < own.len()
                    invariant
                        recognizers@ == start + own@.take(j as int),
                        j <= own@.len(),
                    decreases own.len() - j,
                {
                    recognizers.push(own[j]);
                    assert(own@.take(j + 1) =~= own@.take(j as int).push(own@[j as int]));
                    j = j + 1;
                }
                assert(own@.take(own@.len() as int) =~= own@);
                match tree.superview(current).upgrade(tree) {
                    None => {
                        assert(recognizers@ =~= total);
                        break;
                    },
                    Some(s) => {
                        assert(recognizers@ + recognizers_up(*tree, s, (fuel - 1) as nat).unwrap()
                            =~= total);
                        current = s;
                        fuel = fuel - 1;
                    },
                }
            }
            touch.set_gesture_recognizers(recognizers);
        }
    }
}

} // verus!
