//! Handles to views held in a `ViewTree`.

use vstd::prelude::*;
use crate::view::ViewTree;

verus! {

/// A view: the position of its node in the tree that holds it, and the
/// random identifier the view was given when it was made.
#[derive(Clone, Copy, Debug, PartialEq, Eq, Structural)]
pub struct ViewHandle {
    pub index: usize,
    pub id: u128,
}

/// A reference to a view that may be empty.
#[derive(Clone, Copy, Debug, PartialEq, Eq, Structural)]
pub struct WeakView {
    pub target: Option<ViewHandle>,
}

impl ViewHandle {
    /// A weak reference to this view.
    pub open spec fn downgrade_spec(self) -> WeakView {
        WeakView { target: Some(self) }
    }

    /// A weak reference to this view.
    pub fn downgrade(&self) -> (w: WeakView)
        ensures
            w == self.downgrade_spec(),
    {
        WeakView { target: Some(*self) }
    }
}

impl WeakView {
    /// The empty reference; it upgrades to nothing.
    pub fn none() -> (w: WeakView)
        ensures
            w.target.is_none(),
    {
        WeakView { target: None }
    }

    /// The view referred to, while it is a view of the tree; nothing once
    /// it has been released, or for the empty reference.
    pub fn upgrade(&self, tree: &ViewTree) -> (v: Option<ViewHandle>)
        ensures
            v == (if tree.live(*self) {
                self.target
            } else {
                None
            }),
    {
        match self.target {
            Some(h) => if tree.is_valid(h) {
                Some(h)
            } else {
                None
            },
            None => None,
        }
    }

    /// Whether the reference upgrades to nothing.
    pub fn is_none(&self, tree: &ViewTree) -> (b: bool)
        ensures
            b == !tree.live(*self),
    {
        self.upgrade(tree).is_none()
    }

    /// The identifier of the view referred to, while it is a view of the
    /// tree.
    pub fn id(&self, tree: &ViewTree) -> (i: Option<u128>)
        ensures
            i == (if tree.live(*self) {
                Some(self.target.unwrap().id)
            } else {
                None
            }),
    {
        match self.upgrade(tree) {
            Some(v) => Some(v.id),
            None => None,
        }
    }
}

/// A weak reference taken from a view upgrades to that same view, with the
/// same identifier, while the view is a view of the tree, and to nothing
/// once the view is gone; the empty reference upgrades to nothing.
pub proof fn lemma_weak_view_round_trip(tree: ViewTree, v: ViewHandle)
    ensures
        tree.valid(v) ==> tree.live(v.downgrade_spec()) && v.downgrade_spec().target == Some(v),
        v.downgrade_spec().target.unwrap().id == v.id,
        !tree.valid(v) ==> !tree.live(v.downgrade_spec()),
        !tree.live(WeakView { target: None }),
{
}

} // verus!
