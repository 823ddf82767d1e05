//! The view hierarchy: every view's geometry and looks, who contains whom,
//! where a view lies in its window, and which view a point falls on.

use vstd::prelude::*;
use crate::color::Color;
use crate::geometry::{Point, Rectangle, Size};
use crate::handle::{ViewHandle, WeakView};
use crate::pan::PanRecognizer;

verus! {

/// A fresh random identifier for a view: `uuid::Uuid::new_v4()`, as a
/// `u128` (`Uuid::as_u128`).
///
/// Trusted: the value is random; what uuid's source fixes in it is the
/// version nibble (4) and the variant bits (`10`), which is all that is
/// stated.
#[verifier::external_body]
fn random_view_id() -> (id: u128)
    ensures
        id & 0xF000_C000_0000_0000_0000u128 == 0x4000_8000_0000_0000_0000u128,
{
    uuid::Uuid::new_v4().as_u128()
}

/// One view of the hierarchy.
#[derive(Debug)]
pub struct ViewNode {
    /// Some way to tell views apart.
    pub id: u128,
    /// The size and position of the view within its superview.
    pub frame: Rectangle,
    /// The size and position of the view in its own coordinates; moving the
    /// origin moves the contents rather than the view.
    pub bounds: Rectangle,
    /// The color the view is filled with.
    pub background_color: Color,
    /// The view that contains this one.
    pub superview: WeakView,
    /// The views this one contains, back to front.
    pub subviews: Vec<ViewHandle>,
    /// The gesture recognizers attached to the view (indexes into the tree's
    /// recognizers).
    pub gesture_recognizers: Vec<usize>,
    /// A hidden view is drawn and hit as if it were not there.
    pub hidden: bool,
    /// A view that does not take user interaction receives no touches.
    pub user_interaction_enabled: bool,
    /// The view was released: it is gone, and references to it no longer
    /// upgrade.
    pub released: bool,
}

/// All views and gesture recognizers of an application.
#[derive(Debug)]
pub struct ViewTree {
    pub nodes: Vec<ViewNode>,
    pub recognizers: Vec<PanRecognizer>,
}

/// The two nodes agree in everything but their subviews.
pub open spec fn same_but_subviews(a: ViewNode, b: ViewNode) -> bool {
    &&& a.id == b.id
    &&& a.frame == b.frame
    &&& a.bounds == b.bounds
    &&& a.background_color == b.background_color
    &&& a.superview == b.superview
    &&& a.gesture_recognizers == b.gesture_recognizers
    &&& a.hidden == b.hidden
    &&& a.user_interaction_enabled == b.user_interaction_enabled
    &&& a.released == b.released
}

/// The two nodes agree in everything but their superview and subviews.
pub open spec fn same_but_links(a: ViewNode, b: ViewNode) -> bool {
    &&& a.id == b.id
    &&& a.frame == b.frame
    &&& a.bounds == b.bounds
    &&& a.background_color == b.background_color
    &&& a.gesture_recognizers == b.gesture_recognizers
    &&& a.hidden == b.hidden
    &&& a.user_interaction_enabled == b.user_interaction_enabled
    &&& a.released == b.released
}

/// An integer fits in an `i32`.
pub open spec fn fits(n: int) -> bool {
    i32::MIN <= n <= i32::MAX
}

impl ViewTree {
    /// The handle names a view of this tree.
    pub open spec fn valid(self, v: ViewHandle) -> bool {
        &&& v.index < self.nodes@.len()
        &&& self.nodes@[v.index as int].id == v.id
        &&& !self.nodes@[v.index as int].released
    }

    /// Every reference held in the tree names one of its views or
    /// recognizers.
    pub open spec fn wf(self) -> bool {
        forall|i: int|
            0 <= i < self.nodes@.len() ==> {
                let n = #[trigger] self.nodes@[i];
                &&& (n.superview.target matches Some(s) ==> self.valid(s))
                &&& forall|j: int|
                    0 <= j < n.subviews@.len() ==> self.valid(#[trigger] n.subviews@[j])
                &&& forall|j: int|
                    0 <= j < n.gesture_recognizers@.len() ==> #[trigger] n.gesture_recognizers@[j]
                        < self.recognizers@.len()
            }
    }

    /// The node of a view.
    pub open spec fn node(self, v: ViewHandle) -> ViewNode {
        self.nodes@[v.index as int]
    }

    /// The view's origin in the coordinates of its topmost superview (its
    /// window), following at most `fuel` superview links. `None` where the
    /// chain does not end within the fuel, or a sum leaves `i32`.
    pub open spec fn location(self, v: int, fuel: nat) -> Option<Point>
        decreases fuel,
    {
        if fuel == 0 || v < 0 || v >= self.nodes@.len() {
            None
        } else {
            let origin = self.nodes@[v].frame.origin;
            match self.nodes@[v].superview.target {
                None => Some(origin),
                Some(s) => match self.location(s.index as int, (fuel - 1) as nat) {
                    None => None,
                    Some(l) => if fits(origin.x + l.x) && fits(origin.y + l.y) {
                        Some(Point { x: (origin.x + l.x) as i32, y: (origin.y + l.y) as i32 })
                    } else {
                        None
                    },
                },
            }
        }
    }

    /// Where a view lies in its window; defined where the superview chain
    /// ends (within as many links as there are views) and every sum fits.
    pub open spec fn window_location(self, v: ViewHandle) -> Option<Point> {
        self.location(v.index as int, self.nodes@.len())
    }

    /// A point in `from`'s coordinates, in `to`'s coordinates.
    pub open spec fn converted(self, from: ViewHandle, p: Point, to: ViewHandle) -> Option<Point> {
        match (self.window_location(from), self.window_location(to)) {
            (Some(f), Some(t)) => {
                let dx = f.x - t.x;
                let dy = f.y - t.y;
                if fits(dx) && fits(dy) && fits(p.x + dx) && fits(p.y + dy) {
                    Some(Point { x: (p.x + dx) as i32, y: (p.y + dy) as i32 })
                } else {
                    None
                }
            },
            _ => None,
        }
    }

    /// The deepest view under `p` (in `v`'s coordinates), searching at most
    /// `fuel` levels down. The outer `None` says the search did not finish.
    pub open spec fn hit(self, v: ViewHandle, p: Point, fuel: nat) -> Option<Option<ViewHandle>>
        decreases fuel, self.nodes@[v.index as int].subviews@.len() + 1,
    {
        if fuel == 0 || !self.valid(v) {
            None
        } else {
            let n = self.nodes@[v.index as int];
            if n.hidden {
                Some(None)
            } else if n.bounds.spec_contains(p) && n.user_interaction_enabled {
                match self.hit_among(v, p, n.subviews@.len() as nat, fuel) {
                    None => None,
                    Some(Some(r)) => Some(Some(r)),
                    Some(None) => Some(Some(v)),
                }
            } else {
                Some(None)
            }
        }
    }

    /// The search through the first `i` subviews of `v`, frontmost first.
    pub open spec fn hit_among(self, v: ViewHandle, p: Point, i: nat, fuel: nat) -> Option<
        Option<ViewHandle>,
    >
        decreases fuel, i,
    {
        if i == 0 || fuel == 0 || !self.valid(v) || i > self.nodes@[v.index as int].subviews@.len() {
            if i == 0 {
                Some(None)
            } else {
                None
            }
        } else {
            let s = self.nodes@[v.index as int].subviews@[i - 1];
            match self.converted(v, p, s) {
                None => None,
                Some(sp) => match self.hit(s, sp, (fuel - 1) as nat) {
                    None => None,
                    Some(Some(r)) => Some(Some(r)),
                    Some(None) => self.hit_among(v, p, (i - 1) as nat, fuel),
                },
            }
        }
    }

    /// The deepest view under a point, where the search ends within as many
    /// levels as there are views.
    pub open spec fn hit_result(self, v: ViewHandle, p: Point) -> Option<Option<ViewHandle>> {
        self.hit(v, p, self.nodes@.len())
    }
}

impl ViewTree {
    /// A tree with no views and no recognizers.
    pub fn new() -> (t: ViewTree)
        ensures
            t.nodes@.len() == 0,
            t.recognizers@.len() == 0,
            t.wf(),
    {
        ViewTree { nodes: Vec::new(), recognizers: Vec::new() }
    }

    /// Whether the handle names a view of this tree that has not been
    /// released.
    pub fn is_valid(&self, v: ViewHandle) -> (b: bool)
        ensures
            b == self.valid(v),
    {
        v.index < self.nodes.len() && self.nodes[v.index].id == v.id && !self.nodes[v.index].released
    }

    fn take_node(&mut self, i: usize) -> (n: ViewNode)
        requires
            i < old(self).nodes@.len(),
        ensures
            n == old(self).nodes@[i as int],
            final(self).nodes@ == old(self).nodes@.remove(i as int),
            final(self).recognizers@ == old(self).recognizers@,
    {
        self.nodes.remove(i)
    }

    fn put_node(&mut self, i: usize, n: ViewNode)
        requires
            i <= old(self).nodes@.len(),
        ensures
            final(self).nodes@ == old(self).nodes@.insert(i as int, n),
            final(self).recognizers@ == old(self).recognizers@,
    {
        self.nodes.insert(i, n);
    }

    /// Makes a view with the given frame: its bounds have the frame's size
    /// at the origin; it is white, visible, takes user interaction, and
    /// stands alone.
    pub fn new_view(&mut self, frame: Rectangle) -> (v: ViewHandle)
        requires
            old(self).wf(),
        ensures
            final(self).wf(),
            v.index == old(self).nodes@.len(),
            final(self).nodes@.len() == old(self).nodes@.len() + 1,
            final(self).recognizers@ == old(self).recognizers@,
            forall|i: int|
                0 <= i < old(self).nodes@.len() ==> #[trigger] final(self).nodes@[i]
                    == old(self).nodes@[i],
            final(self).valid(v),
            final(self).node(v).frame == frame,
            final(self).node(v).bounds == (Rectangle {
                origin: Point { x: 0, y: 0 },
                size: frame.size,
            }),
            final(self).node(v).background_color == Color::rgba(255, 255, 255, 255),
            final(self).node(v).superview.target.is_none(),
            final(self).node(v).subviews@.len() == 0,
            final(self).node(v).gesture_recognizers@.len() == 0,
            !final(self).node(v).hidden,
            final(self).node(v).user_interaction_enabled,
    {
        let id = random_view_id();
        let bounds = Rectangle { origin: Point { x: 0, y: 0 }, size: frame.size };
        let node = ViewNode {
            id,
            frame,
            bounds,
            background_color: Color::white(),
            superview: WeakView::none(),
            subviews: Vec::new(),
            gesture_recognizers: Vec::new(),
            hidden: false,
            user_interaction_enabled: true,
            released: false,
        };
        let index = self.nodes.len();
        self.nodes.push(node);
        let v = ViewHandle { index, id };
        assert forall|i: int| 0 <= i < self.nodes@.len() implies {
            let n = #[trigger] self.nodes@[i];
            &&& (n.superview.target matches Some(s) ==> self.valid(s))
            &&& forall|j: int| 0 <= j < n.subviews@.len() ==> self.valid(#[trigger] n.subviews@[j])
            &&& forall|j: int|
                0 <= j < n.gesture_recognizers@.len() ==> #[trigger] n.gesture_recognizers@[j]
                    < self.recognizers@.len()
        } by {
            if i < index {
                assert(self.nodes@[i] == old(self).nodes@[i]);
                let n = self.nodes@[i];
                assert forall|j: int| 0 <= j < n.subviews@.len() implies self.valid(
                    #[trigger] n.subviews@[j],
                ) by {
                    assert(old(self).valid(n.subviews@[j]));
                    assert(old(self).nodes@[n.subviews@[j].index as int] == self.nodes@[n.subviews@[j].index as int]);
                }
                if let Some(s) = n.superview.target {
                    assert(old(self).valid(s));
                    assert(old(self).nodes@[s.index as int] == self.nodes@[s.index as int]);
                }
            }
        }
        v
    }

    /// Adds `child` to `parent`'s subviews, in front of the others, and
    /// makes `parent` its superview.
    pub fn add_subview(&mut self, parent: ViewHandle, child: ViewHandle)
        requires
            old(self).wf(),
            old(self).valid(parent),
            old(self).valid(child),
        ensures
            final(self).wf(),
            final(self).nodes@.len() == old(self).nodes@.len(),
            final(self).recognizers@ == old(self).recognizers@,
            final(self).node(child).superview == parent.downgrade_spec(),
            final(self).node(parent).subviews@ == old(self).node(parent).subviews@.push(child),
            parent != child ==> final(self).node(child) == (ViewNode {
                superview: parent.downgrade_spec(),
                ..old(self).node(child)
            }),
            parent != child ==> same_but_subviews(final(self).node(parent), old(self).node(parent)),
            parent == child ==> same_but_subviews(
                final(self).node(parent),
                ViewNode { superview: parent.downgrade_spec(), ..old(self).node(parent) },
            ),
            forall|i: int|
                0 <= i < old(self).nodes@.len() && i != parent.index && i != child.index
                    ==> #[trigger] final(self).nodes@[i] == old(self).nodes@[i],
    {
        let mut c = self.take_node(child.index);
        c.superview = parent.downgrade();
        self.put_node(child.index, c);
        assert(self.nodes@ =~= old(self).nodes@.update(child.index as int, c));
        let ghost mid = self.nodes@;
        let mut p = self.take_node(parent.index);
        p.subviews.push(child);
        self.put_node(parent.index, p);
        assert(self.nodes@ =~= mid.update(parent.index as int, p));
        assert forall|i: int| 0 <= i < self.nodes@.len() implies {
            let n = #[trigger] self.nodes@[i];
            &&& (n.superview.target matches Some(s) ==> self.valid(s))
            &&& forall|j: int| 0 <= j < n.subviews@.len() ==> self.valid(#[trigger] n.subviews@[j])
            &&& forall|j: int|
                0 <= j < n.gesture_recognizers@.len() ==> #[trigger] n.gesture_recognizers@[j]
                    < self.recognizers@.len()
        } by {
            let n = self.nodes@[i];
            let o = old(self).nodes@[i];
            assert(old(self).nodes@[i] == o);
            assert forall|j: int| 0 <= j < n.subviews@.len() implies self.valid(
                #[trigger] n.subviews@[j],
            ) by {
                if i == parent.index && j == n.subviews@.len() - 1 {
                } else {
                    assert(n.subviews@[j] == o.subviews@[j]);
                    assert(old(self).valid(o.subviews@[j]));
                }
            }
            if let Some(s) = n.superview.target {
                if i != child.index {
                    assert(old(self).valid(s));
                }
            }
            assert forall|j: int| 0 <= j < n.gesture_recognizers@.len() implies #[trigger] n.gesture_recognizers@[j]
                < self.recognizers@.len() by {
                assert(n.gesture_recognizers@[j] == o.gesture_recognizers@[j]);
            }
        }
    }
}

impl ViewTree {
    /// Some view holds `v` among its subviews.
    pub open spec fn held(self, v: ViewHandle) -> bool {
        exists|k: int, j: int|
            0 <= k < self.nodes@.len() && 0 <= j < self.nodes@[k].subviews@.len()
                && #[trigger] self.nodes@[k].subviews@[j] == v
    }

    /// The node after releasing the view at `index`: a view whose superview
    /// was that view no longer has one.
    pub open spec fn detached_from(n: ViewNode, index: usize) -> ViewNode {
        if n.superview.target matches Some(s) && s.index == index {
            ViewNode { superview: WeakView { target: None }, ..n }
        } else {
            n
        }
    }

    /// Releases a view that no view holds any more (the last strong handle
    /// to it is gone): it is no longer a view of the tree, so references to
    /// it no longer upgrade and its gesture recognizers no longer follow
    /// touches. The views it held stay, with no superview; so does every
    /// other view whose superview it was.
    pub fn release(&mut self, v: ViewHandle)
        requires
            old(self).wf(),
            old(self).valid(v),
            !old(self).held(v),
        ensures
            final(self).wf(),
            final(self).recognizers@ == old(self).recognizers@,
            final(self).nodes@.len() == old(self).nodes@.len(),
            !final(self).valid(v),
            final(self).node(v).released,
            final(self).node(v).id == old(self).node(v).id,
            final(self).node(v).superview.target.is_none(),
            final(self).node(v).subviews@.len() == 0,
            final(self).node(v).gesture_recognizers@ == old(self).node(v).gesture_recognizers@,
            forall|k: int|
                0 <= k < old(self).nodes@.len() && k != v.index ==> #[trigger] final(self).nodes@[k]
                    == ViewTree::detached_from(old(self).nodes@[k], v.index),
            forall|h: ViewHandle| #[trigger]
                old(self).valid(h) && h != v ==> final(self).valid(h),
    {
        let ghost before = *self;
        let n = self.nodes.len();
        let mut k: usize = 0;
        while k < n
            invariant
                n == self.nodes@.len(),
                n == before.nodes@.len(),
                self.recognizers@ == before.recognizers@,
                v.index < n,
                k <= n,
                forall|i: int|
                    0 <= i < k && i != v.index ==> #[trigger] self.nodes@[i]
                        == ViewTree::detached_from(before.nodes@[i], v.index),
                forall|i: int| k <= i < n ==> #[trigger] self.nodes@[i] == before.nodes@[i],
                self.nodes@[v.index as int] == before.nodes@[v.index as int],
            decreases n - k,
        {
            let points_here = match self.nodes[k].superview.target {
                Some(s) => s.index == v.index,
                None => false,
            };
            if k != v.index && points_here {
                let ghost mid = self.nodes@;
                let mut node = self.take_node(k);
                node.superview = WeakView::none();
                self.put_node(k, node);
                assert(self.nodes@ =~= mid.update(k as int, node));
            }
            k = k + 1;
        }
        let ghost mid = self.nodes@;
        let mut gone = self.take_node(v.index);
        gone.superview = WeakView::none();
        gone.subviews = Vec::new();
        gone.released = true;
        self.put_node(v.index, gone);
        assert(self.nodes@ =~= mid.update(v.index as int, gone));
        assert forall|h: ViewHandle| #[trigger] before.valid(h) && h != v implies self.valid(h) by {
            if h.index == v.index {
                assert(h.id == v.id);
            }
        }
        assert forall|i: int| 0 <= i < self.nodes@.len() implies {
            let m = #[trigger] self.nodes@[i];
            &&& (m.superview.target matches Some(t) ==> self.valid(t))
            &&& forall|j: int| 0 <= j < m.subviews@.len() ==> self.valid(#[trigger] m.subviews@[j])
            &&& forall|j: int|
                0 <= j < m.gesture_recognizers@.len() ==> #[trigger] m.gesture_recognizers@[j]
                    < self.recognizers@.len()
        } by {
            let m = self.nodes@[i];
            let o = before.nodes@[i];
            if i != v.index {
                assert forall|j: int| 0 <= j < m.subviews@.len() implies self.valid(
                    #[trigger] m.subviews@[j],
                ) by {
                    let h = o.subviews@[j];
                    assert(m.subviews@[j] == h);
                    assert(before.valid(h));
                    if h == v {
                        assert(before.held(v));
                    }
                }
                if let Some(t) = m.superview.target {
                    assert(o.superview.target == Some(t));
                    assert(before.valid(t));
                }
                assert forall|j: int| 0 <= j < m.gesture_recognizers@.len() implies #[trigger] m.gesture_recognizers@[j]
                    < self.recognizers@.len() by {
                    assert(m.gesture_recognizers@[j] == o.gesture_recognizers@[j]);
                }
            } else {
                assert forall|j: int| 0 <= j < m.gesture_recognizers@.len() implies #[trigger] m.gesture_recognizers@[j]
                    < self.recognizers@.len() by {
                    assert(m.gesture_recognizers@[j] == o.gesture_recognizers@[j]);
                }
            }
        }
    }

    /// Whether a reference still names a view of the tree.
    pub open spec fn live(self, w: WeakView) -> bool {
        w.target matches Some(v) && self.valid(v)
    }
}

/// Replacing one node by one with the same identity, subviews and
/// recognizers, and the same superview or none, keeps the tree well formed.
proof fn lemma_wf_same_links(before: ViewTree, after: ViewTree, index: int)
    requires
        before.wf(),
        0 <= index < before.nodes@.len(),
        after.nodes@.len() == before.nodes@.len(),
        after.recognizers@.len() == before.recognizers@.len(),
        forall|i: int|
            0 <= i < before.nodes@.len() && i != index ==> #[trigger] after.nodes@[i]
                == before.nodes@[i],
        after.nodes@[index].id == before.nodes@[index].id,
        after.nodes@[index].released == before.nodes@[index].released,
        after.nodes@[index].superview == before.nodes@[index].superview
            || after.nodes@[index].superview.target.is_none(),
        after.nodes@[index].subviews@ == before.nodes@[index].subviews@,
        after.nodes@[index].gesture_recognizers@ == before.nodes@[index].gesture_recognizers@,
    ensures
        after.wf(),
{
    assert forall|i: int| 0 <= i < after.nodes@.len() implies {
        let n = #[trigger] after.nodes@[i];
        &&& (n.superview.target matches Some(s) ==> after.valid(s))
        &&& forall|j: int| 0 <= j < n.subviews@.len() ==> after.valid(#[trigger] n.subviews@[j])
        &&& forall|j: int|
            0 <= j < n.gesture_recognizers@.len() ==> #[trigger] n.gesture_recognizers@[j]
                < after.recognizers@.len()
    } by {
        let n = after.nodes@[i];
        let o = before.nodes@[i];
        assert forall|j: int| 0 <= j < n.subviews@.len() implies after.valid(
            #[trigger] n.subviews@[j],
        ) by {
            assert(n.subviews@[j] == o.subviews@[j]);
            assert(before.valid(o.subviews@[j]));
        }
        if let Some(s) = n.superview.target {
            assert(before.valid(s));
        }
        assert forall|j: int| 0 <= j < n.gesture_recognizers@.len() implies #[trigger] n.gesture_recognizers@[j]
            < after.recognizers@.len() by {
            assert(n.gesture_recognizers@[j] == o.gesture_recognizers@[j]);
        }
    }
}

impl ViewTree {
    /// Puts back a node taken out at `index`, changed only in its scalar
    /// fields.
    fn restore_node(&mut self, index: usize, n: ViewNode, Ghost(before): Ghost<ViewTree>)
        requires
            before.wf(),
            index < before.nodes@.len(),
            old(self).nodes@ == before.nodes@.remove(index as int),
            old(self).recognizers@ == before.recognizers@,
            n.id == before.nodes@[index as int].id,
            n.released == before.nodes@[index as int].released,
            n.superview == before.nodes@[index as int].superview,
            n.subviews@ == before.nodes@[index as int].subviews@,
            n.gesture_recognizers@ == before.nodes@[index as int].gesture_recognizers@,
        ensures
            final(self).wf(),
            final(self).nodes@ == before.nodes@.update(index as int, n),
            final(self).recognizers@ == before.recognizers@,
    {
        self.put_node(index, n);
        assert(self.nodes@ =~= before.nodes@.update(index as int, n));
        proof {
            lemma_wf_same_links(before, *self, index as int);
        }
    }

    /// Sets the view's background color.
    pub fn set_background_color(&mut self, v: ViewHandle, color: Color)
        requires
            old(self).wf(),
            old(self).valid(v),
        ensures
            final(self).wf(),
            final(self).nodes@ == old(self).nodes@.update(
                v.index as int,
                ViewNode { background_color: color, ..old(self).node(v) },
            ),
            final(self).recognizers@ == old(self).recognizers@,
    {
        let ghost before = *self;
        let mut n = self.take_node(v.index);
        if n.background_color == color {
            self.put_node(v.index, n);
            assert(self.nodes@ =~= before.nodes@);
            return;
        }
        n.background_color = color;
        self.restore_node(v.index, n, Ghost(before));
    }

    /// Sets whether the view receives touches.
    pub fn set_user_interaction_enabled(&mut self, v: ViewHandle, enabled: bool)
        requires
            old(self).wf(),
            old(self).valid(v),
        ensures
            final(self).wf(),
            final(self).nodes@ == old(self).nodes@.update(
                v.index as int,
                ViewNode { user_interaction_enabled: enabled, ..old(self).node(v) },
            ),
            final(self).recognizers@ == old(self).recognizers@,
    {
        let ghost before = *self;
        let mut n = self.take_node(v.index);
        n.user_interaction_enabled = enabled;
        self.restore_node(v.index, n, Ghost(before));
    }

    /// Hides or shows the view.
    pub fn set_hidden(&mut self, v: ViewHandle, value: bool)
        requires
            old(self).wf(),
            old(self).valid(v),
        ensures
            final(self).wf(),
            final(self).nodes@ == old(self).nodes@.update(
                v.index as int,
                ViewNode { hidden: value, ..old(self).node(v) },
            ),
            final(self).recognizers@ == old(self).recognizers@,
    {
        let ghost before = *self;
        let mut n = self.take_node(v.index);
        if n.hidden == value {
            self.put_node(v.index, n);
            assert(self.nodes@ =~= before.nodes@);
            return;
        }
        n.hidden = value;
        self.restore_node(v.index, n, Ghost(before));
    }

    pub fn is_hidden(&self, v: ViewHandle) -> (b: bool)
        requires
            self.valid(v),
        ensures
            b == self.node(v).hidden,
    {
        self.nodes[v.index].hidden
    }

    /// Moves or resizes the view within its superview.
    pub fn set_frame(&mut self, v: ViewHandle, frame: Rectangle)
        requires
            old(self).wf(),
            old(self).valid(v),
        ensures
            final(self).wf(),
            final(self).nodes@ == old(self).nodes@.update(
                v.index as int,
                ViewNode { frame, ..old(self).node(v) },
            ),
            final(self).recognizers@ == old(self).recognizers@,
    {
        let ghost before = *self;
        let mut n = self.take_node(v.index);
        n.frame = frame;
        self.restore_node(v.index, n, Ghost(before));
    }

    pub fn frame(&self, v: ViewHandle) -> (r: Rectangle)
        requires
            self.valid(v),
        ensures
            r == self.node(v).frame,
    {
        self.nodes[v.index].frame
    }

    pub fn bounds(&self, v: ViewHandle) -> (r: Rectangle)
        requires
            self.valid(v),
        ensures
            r == self.node(v).bounds,
    {
        self.nodes[v.index].bounds
    }

    /// Sets the view's own coordinate space.
    pub fn set_bounds(&mut self, v: ViewHandle, bounds: Rectangle)
        requires
            old(self).wf(),
            old(self).valid(v),
        ensures
            final(self).wf(),
            final(self).nodes@ == old(self).nodes@.update(
                v.index as int,
                ViewNode { bounds, ..old(self).node(v) },
            ),
            final(self).recognizers@ == old(self).recognizers@,
    {
        let ghost before = *self;
        let mut n = self.take_node(v.index);
        n.bounds = bounds;
        self.restore_node(v.index, n, Ghost(before));
    }

    /// Whether the point, in the view's coordinates, lies in its bounds.
    pub fn is_point_inside(&self, v: ViewHandle, p: &Point) -> (b: bool)
        requires
            self.valid(v),
        ensures
            b == self.node(v).bounds.spec_contains(*p),
    {
        self.nodes[v.index].bounds.contains(p)
    }

    /// The view that contains this one; empty for a view that was never
    /// added to another.
    pub fn superview(&self, v: ViewHandle) -> (w: WeakView)
        requires
            self.valid(v),
        ensures
            w == self.node(v).superview,
    {
        self.nodes[v.index].superview
    }

    /// The views this one contains, back to front.
    pub fn subviews(&self, v: ViewHandle) -> (s: &Vec<ViewHandle>)
        requires
            self.valid(v),
        ensures
            s@ == self.node(v).subviews@,
    {
        &self.nodes[v.index].subviews
    }

    /// The gesture recognizers attached to the view.
    pub fn gesture_recognizers(&self, v: ViewHandle) -> (r: &Vec<usize>)
        requires
            self.valid(v),
        ensures
            r@ == self.node(v).gesture_recognizers@,
    {
        &self.nodes[v.index].gesture_recognizers
    }

    /// Attaches a recognizer to the view; says where the tree keeps it.
    pub fn add_gesture_recognizer(&mut self, v: ViewHandle, recognizer: PanRecognizer) -> (i:
        usize)
        requires
            old(self).wf(),
            old(self).valid(v),
        ensures
            final(self).wf(),
            i == old(self).recognizers@.len(),
            final(self).recognizers@ == old(self).recognizers@.push(
                PanRecognizer { view: v.downgrade_spec(), ..recognizer },
            ),
            final(self).nodes@.len() == old(self).nodes@.len(),
            final(self).node(v).gesture_recognizers@ == old(self).node(
                v,
            ).gesture_recognizers@.push(i),
            same_but_recognizers(final(self).node(v), old(self).node(v)),
            forall|k: int|
                0 <= k < old(self).nodes@.len() && k != v.index ==> #[trigger] final(self).nodes@[k]
                    == old(self).nodes@[k],
    {
        let mut recognizer = recognizer;
        recognizer.set_view(v.downgrade());
        let i = self.recognizers.len();
        self.recognizers.push(recognizer);
        let ghost mid = *self;
        let mut n = self.take_node(v.index);
        n.gesture_recognizers.push(i);
        self.put_node(v.index, n);
        assert(self.nodes@ =~= mid.nodes@.update(v.index as int, n));
        assert forall|k: int| 0 <= k < self.nodes@.len() implies {
            let m = #[trigger] self.nodes@[k];
            &&& (m.superview.target matches Some(s) ==> self.valid(s))
            &&& forall|j: int| 0 <= j < m.subviews@.len() ==> self.valid(#[trigger] m.subviews@[j])
            &&& forall|j: int|
                0 <= j < m.gesture_recognizers@.len() ==> #[trigger] m.gesture_recognizers@[j]
                    < self.recognizers@.len()
        } by {
            let m = self.nodes@[k];
            let o = old(self).nodes@[k];
            assert forall|j: int| 0 <= j < m.subviews@.len() implies self.valid(
                #[trigger] m.subviews@[j],
            ) by {
                assert(m.subviews@[j] == o.subviews@[j]);
                assert(old(self).valid(o.subviews@[j]));
            }
            if let Some(s) = m.superview.target {
                assert(old(self).valid(s));
            }
            assert forall|j: int| 0 <= j < m.gesture_recognizers@.len() implies #[trigger] m.gesture_recognizers@[j]
                < self.recognizers@.len() by {
                if k != v.index || j < o.gesture_recognizers@.len() {
                    assert(m.gesture_recognizers@[j] == o.gesture_recognizers@[j]);
                }
            }
        }
        i
    }

    /// A recognizer of the tree.
    pub fn recognizer(&self, i: usize) -> (r: &PanRecognizer)
        requires
            i < self.recognizers@.len(),
        ensures
            *r == self.recognizers@[i as int],
    {
        &self.recognizers[i]
    }

    /// Replaces a recognizer of the tree by its new state.
    pub fn set_recognizer(&mut self, i: usize, r: PanRecognizer)
        requires
            old(self).wf(),
            i < old(self).recognizers@.len(),
        ensures
            final(self).wf(),
            final(self).recognizers@ == old(self).recognizers@.update(i as int, r),
            final(self).nodes@ == old(self).nodes@,
    {
        self.recognizers.set(i, r);
    }

    /// Removes the view from its superview: it leaves the superview's
    /// subviews and no longer has a superview. A view with no superview
    /// stays as it is.
    pub fn remove_from_superview(&mut self, v: ViewHandle)
        requires
            old(self).wf(),
            old(self).valid(v),
        ensures
            final(self).wf(),
            final(self).recognizers@ == old(self).recognizers@,
            final(self).nodes@.len() == old(self).nodes@.len(),
            forall|k: int|
                0 <= k < old(self).nodes@.len() ==> same_but_links(
                    #[trigger] final(self).nodes@[k],
                    old(self).nodes@[k],
                ),
            match old(self).node(v).superview.target {
                None => final(self).nodes@ == old(self).nodes@,
                Some(s) => {
                    &&& final(self).node(s).subviews@ == old(self).node(s).subviews@.filter(
                        |x: ViewHandle| x.id != v.id,
                    )
                    &&& final(self).node(v).superview.target.is_none()
                    &&& s.index != v.index ==> same_but_subviews(
                        final(self).node(s),
                        old(self).node(s),
                    )
                    &&& s.index != v.index ==> final(self).node(v) == (ViewNode {
                        superview: WeakView { target: None },
                        ..old(self).node(v)
                    })
                    &&& forall|k: int|
                        0 <= k < old(self).nodes@.len() && k != s.index && k != v.index
                            ==> #[trigger] final(self).nodes@[k] == old(self).nodes@[k]
                },
            },
    {
        match self.nodes[v.index].superview.target {
            None => {},
            Some(s) => {
                let ghost before = *self;
                let mut n = self.take_node(s.index);
                let ghost old_subviews = n.subviews@;
                let mut kept: Vec<ViewHandle> = Vec::new();
                let mut j: usize = 0;
                while j < n.subviews.len()
                    invariant
                        n.subviews@ == old_subviews,
                        j <= old_subviews.len(),
                        kept@ == old_subviews.take(j as int).filter(|x: ViewHandle| x.id != v.id),
                    decreases n.subviews.len() - j,
                {
                    proof {
                        reveal_with_fuel(Seq::filter, 1);
                        assert(old_subviews.take(j + 1).drop_last() =~= old_subviews.take(j as int));
                    }
                    let x = n.subviews[j];
                    if x.id != v.id {
                        kept.push(x);
                    }
                    j = j + 1;
                }
                assert(old_subviews.take(old_subviews.len() as int) =~= old_subviews);
                n.subviews = kept;
                self.put_node(s.index, n);
                assert(self.nodes@ =~= before.nodes@.update(s.index as int, n));
                let ghost pred = |x: ViewHandle| x.id != v.id;
                assert forall|k: int| 0 <= k < self.nodes@.len() implies {
                    let m = #[trigger] self.nodes@[k];
                    &&& (m.superview.target matches Some(t) ==> self.valid(t))
                    &&& forall|j: int|
                        0 <= j < m.subviews@.len() ==> self.valid(#[trigger] m.subviews@[j])
                    &&& forall|j: int|
                        0 <= j < m.gesture_recognizers@.len() ==> #[trigger] m.gesture_recognizers@[j]
                            < self.recognizers@.len()
                } by {
                    let m = self.nodes@[k];
                    let o = before.nodes@[k];
                    assert forall|j: int| 0 <= j < m.subviews@.len() implies self.valid(
                        #[trigger] m.subviews@[j],
                    ) by {
                        if k == s.index {
                            lemma_filter_member(old_subviews, pred, j);
                            let jj = choose|jj: int|
                                0 <= jj < old_subviews.len() && old_subviews[jj] == m.subviews@[j];
                            assert(before.valid(o.subviews@[jj]));
                        } else {
                            assert(m.subviews@[j] == o.subviews@[j]);
                            assert(before.valid(o.subviews@[j]));
                        }
                    }
                    if let Some(t) = m.superview.target {
                        assert(before.valid(t));
                    }
                    assert forall|j: int| 0 <= j < m.gesture_recognizers@.len() implies #[trigger] m.gesture_recognizers@[j]
                        < self.recognizers@.len() by {
                        assert(m.gesture_recognizers@[j] == o.gesture_recognizers@[j]);
                    }
                }
                let ghost parent_done = *self;
                let mut c = self.take_node(v.index);
                c.superview = WeakView::none();
                self.put_node(v.index, c);
                assert(self.nodes@ =~= parent_done.nodes@.update(v.index as int, c));
                proof {
                    lemma_wf_same_links(parent_done, *self, v.index as int);
                }
            },
        }
    }
}

fn sum_fits(a: i32, b: i32) -> (r: Option<i32>)
    ensures
        r matches Some(x) <==> fits(a + b),
        r matches Some(x) ==> x == a + b,
{
    let s = a as i64 + b as i64;
    if i32::MIN as i64 <= s && s <= i32::MAX as i64 {
        Some(s as i32)
    } else {
        None
    }
}

fn difference_fits(a: i32, b: i32) -> (r: Option<i32>)
    ensures
        r matches Some(x) <==> fits(a - b),
        r matches Some(x) ==> x == a - b,
{
    let s = a as i64 - b as i64;
    if i32::MIN as i64 <= s && s <= i32::MAX as i64 {
        Some(s as i32)
    } else {
        None
    }
}

impl ViewTree {
    fn try_location(&self, v: usize, fuel: usize) -> (r: Option<Point>)
        requires
            self.wf(),
        ensures
            r == self.location(v as int, fuel as nat),
        decreases fuel,
    {
        if fuel == 0 || v >= self.nodes.len() {
            return None;
        }
        let origin = self.nodes[v].frame.origin;
        match self.nodes[v].superview.target {
            None => Some(origin),
            Some(s) => match self.try_location(s.index, fuel - 1) {
                None => None,
                Some(l) => match (sum_fits(origin.x, l.x), sum_fits(origin.y, l.y)) {
                    (Some(x), Some(y)) => Some(Point { x, y }),
                    _ => None,
                },
            },
        }
    }

    /// Where the view lies in its window, or `None` where its superview
    /// chain does not end or a coordinate leaves `i32`.
    pub fn location_in_window(&self, v: ViewHandle) -> (r: Option<Point>)
        requires
            self.wf(),
        ensures
            r == self.window_location(v),
    {
        self.try_location(v.index, self.nodes.len())
    }

    /// Returns the location of this view in the highest superview coordinate
    /// space (usually the window): the sum of the frame origins up the
    /// superview chain.
    pub fn get_location_in_window(&self, v: ViewHandle) -> (p: Point)
        requires
            self.wf(),
            self.window_location(v) is Some,
        ensures
            Some(p) == self.window_location(v),
    {
        self.location_in_window(v).unwrap()
    }

    /// The point, in `from`'s coordinates, in `to`'s coordinates; `None`
    /// where a location is undefined or a coordinate leaves `i32`.
    pub fn try_convert_point(&self, from: ViewHandle, p: &Point, to: ViewHandle) -> (r: Option<
        Point,
    >)
        requires
            self.wf(),
        ensures
            r == self.converted(from, *p, to),
    {
        let f = match self.location_in_window(from) {
            Some(f) => f,
            None => return None,
        };
        let t = match self.location_in_window(to) {
            Some(t) => t,
            None => return None,
        };
        let dx = match difference_fits(f.x, t.x) {
            Some(d) => d,
            None => return None,
        };
        let dy = match difference_fits(f.y, t.y) {
            Some(d) => d,
            None => return None,
        };
        match (sum_fits(p.x, dx), sum_fits(p.y, dy)) {
            (Some(x), Some(y)) => Some(Point { x, y }),
            _ => None,
        }
    }

    /// Convert the given point from the coordinate system of `from` to the
    /// coordinate system of `to`.
    pub fn convert_point_to(&self, from: ViewHandle, p: &Point, to: ViewHandle) -> (r: Point)
        requires
            self.wf(),
            self.converted(from, *p, to) is Some,
        ensures
            Some(r) == self.converted(from, *p, to),
    {
        self.try_convert_point(from, p, to).unwrap()
    }

    fn try_hit(&self, v: ViewHandle, p: Point, fuel: usize) -> (r: Option<Option<ViewHandle>>)
        requires
            self.wf(),
        ensures
            r == self.hit(v, p, fuel as nat),
        decreases fuel, self.nodes@[v.index as int].subviews@.len() + 1,
    {
        if fuel == 0 || !self.is_valid(v) {
            return None;
        }
        let n = &self.nodes[v.index];
        if n.hidden {
            Some(None)
        } else if n.bounds.contains(&p) && n.user_interaction_enabled {
            match self.try_hit_among(v, p, n.subviews.len(), fuel) {
                None => None,
                Some(Some(r)) => Some(Some(r)),
                Some(None) => Some(Some(v)),
            }
        } else {
            Some(None)
        }
    }

    fn try_hit_among(&self, v: ViewHandle, p: Point, i: usize, fuel: usize) -> (r: Option<
        Option<ViewHandle>,
    >)
        requires
            self.wf(),
        ensures
            r == self.hit_among(v, p, i as nat, fuel as nat),
        decreases fuel, i,
    {
        if i == 0 {
            return Some(None);
        }
        if fuel == 0 || !self.is_valid(v) || i
            > self.nodes[v.index].subviews.len() {
            return None;
        }
        let s = self.nodes[v.index].subviews[i - 1];
        match self.try_convert_point(v, &p, s) {
            None => None,
            Some(sp) => match self.try_hit(s, sp, fuel - 1) {
                None => None,
                Some(Some(r)) => Some(Some(r)),
                Some(None) => self.try_hit_among(v, p, i - 1, fuel),
            },
        }
    }

    /// The deepest visible, interactive view under the point (in `v`'s
    /// coordinates), searching subviews front to back; the outer `None`
    /// says the search would not end.
    pub fn try_hit_test(&self, v: ViewHandle, p: &Point) -> (r: Option<Option<ViewHandle>>)
        requires
            self.wf(),
        ensures
            r == self.hit_result(v, *p),
    {
        self.try_hit(v, *p, self.nodes.len())
    }

    /// Returns the deepest subview that contains the given point. Hidden
    /// views, and views that do not take user interaction, are not hit.
    pub fn hit_test(&self, v: ViewHandle, p: &Point) -> (r: Option<ViewHandle>)
        requires
            self.wf(),
            self.hit_result(v, *p) is Some,
        ensures
            Some(r) == self.hit_result(v, *p),
    {
        self.try_hit_test(v, p).unwrap()
    }
}

/// Converting a point from one view to another and back gives the point
/// again, where the way back stays within `i32` (it does not where the
/// shift between the two views is exactly `i32::MIN`).
pub proof fn lemma_convert_round_trip(tree: ViewTree, from: ViewHandle, p: Point, to: ViewHandle)
    requires
        tree.converted(from, p, to) is Some,
        fits(
            tree.window_location(to).unwrap().x - tree.window_location(from).unwrap().x,
        ),
        fits(
            tree.window_location(to).unwrap().y - tree.window_location(from).unwrap().y,
        ),
    ensures
        tree.converted(to, tree.converted(from, p, to).unwrap(), from) == Some(p),
{
}

/// A view's location in its window is its frame's origin moved by its
/// superview's location.
pub proof fn lemma_location_of_subview(tree: ViewTree, v: ViewHandle, s: ViewHandle)
    requires
        tree.valid(v),
        tree.node(v).superview.target == Some(s),
        tree.location(v.index as int, tree.nodes@.len()) is Some,
    ensures
        tree.location(s.index as int, (tree.nodes@.len() - 1) as nat) is Some,
        tree.window_location(v).unwrap().x == tree.node(v).frame.origin.x + tree.location(
            s.index as int,
            (tree.nodes@.len() - 1) as nat,
        ).unwrap().x,
        tree.window_location(v).unwrap().y == tree.node(v).frame.origin.y + tree.location(
            s.index as int,
            (tree.nodes@.len() - 1) as nat,
        ).unwrap().y,
{
}

/// What a hit test finds is a view of the tree that is visible and takes
/// user interaction.
pub proof fn lemma_hit_is_visible_and_interactive(tree: ViewTree, v: ViewHandle, p: Point, fuel: nat)
    ensures
        tree.hit(v, p, fuel) matches Some(Some(r)) ==> {
            &&& tree.valid(r)
            &&& !tree.node(r).hidden
            &&& tree.node(r).user_interaction_enabled
        },
    decreases fuel, tree.nodes@[v.index as int].subviews@.len() + 1,
{
    if fuel > 0 && tree.valid(v) {
        let n = tree.nodes@[v.index as int];
        if !n.hidden && n.bounds.spec_contains(p) && n.user_interaction_enabled {
            lemma_hit_among_is_visible_and_interactive(tree, v, p, n.subviews@.len() as nat, fuel);
        }
    }
}

proof fn lemma_hit_among_is_visible_and_interactive(
    tree: ViewTree,
    v: ViewHandle,
    p: Point,
    i: nat,
    fuel: nat,
)
    ensures
        tree.hit_among(v, p, i, fuel) matches Some(Some(r)) ==> {
            &&& tree.valid(r)
            &&& !tree.node(r).hidden
            &&& tree.node(r).user_interaction_enabled
        },
    decreases fuel, i,
{
    if i > 0 && fuel > 0 && tree.valid(v) && i <= tree.nodes@[v.index as int].subviews@.len() {
        let s = tree.nodes@[v.index as int].subviews@[i - 1];
        if let Some(sp) = tree.converted(v, p, s) {
            lemma_hit_is_visible_and_interactive(tree, s, sp, (fuel - 1) as nat);
            lemma_hit_among_is_visible_and_interactive(tree, v, p, (i - 1) as nat, fuel);
        }
    }
}

/// A hit test that finds nothing deeper returns the view itself exactly
/// when the point lies in its bounds: a view whose bounds hold the point,
/// and which is visible and interactive, is always hit or has a hit
/// subview.
pub proof fn lemma_hit_inside_finds_a_view(tree: ViewTree, v: ViewHandle, p: Point, fuel: nat)
    requires
        tree.hit(v, p, fuel) is Some,
        tree.valid(v),
    ensures
        tree.hit(v, p, fuel).unwrap() is Some <==> (!tree.node(v).hidden
            && tree.node(v).bounds.spec_contains(p) && tree.node(v).user_interaction_enabled),
{
}

/// The two nodes agree in everything but their gesture recognizers.
pub open spec fn same_but_recognizers(a: ViewNode, b: ViewNode) -> bool {
    &&& a.id == b.id
    &&& a.frame == b.frame
    &&& a.bounds == b.bounds
    &&& a.background_color == b.background_color
    &&& a.superview == b.superview
    &&& a.subviews == b.subviews
    &&& a.hidden == b.hidden
    &&& a.user_interaction_enabled == b.user_interaction_enabled
    &&& a.released == b.released
}

/// Each element of a filtered sequence is an element of the sequence.
proof fn lemma_filter_member<A>(s: Seq<A>, pred: spec_fn(A) -> bool, j: int)
    requires
        0 <= j < s.filter(pred).len(),
    ensures
        exists|k: int| 0 <= k < s.len() && s[k] == s.filter(pred)[j],
    decreases s.len(),
{
    reveal_with_fuel(Seq::filter, 1);
    if s.len() > 0 {
        let rest = s.drop_last();
        rest.lemma_filter_len(pred);
        if pred(s.last()) && j == rest.filter(pred).len() {
            assert(s[s.len() - 1] == s.filter(pred)[j]);
        } else {
            assert(s.filter(pred)[j] == rest.filter(pred)[j]);
            lemma_filter_member(rest, pred, j);
            let k = choose|k: int| 0 <= k < rest.len() && rest[k] == rest.filter(pred)[j];
            assert(s[k] == rest[k]);
        }
    }
}

} // verus!
