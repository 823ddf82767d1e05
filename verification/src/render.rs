//! What drawing a window does: which views redraw, in which order, and
//! where each subview's layer is laid into its superview's. The layers
//! themselves, and whether each needs display, are the renderer's: it says
//! which views' layers need display, and carries out the steps.

use vstd::prelude::*;
use crate::geometry::{Point, Rectangle, Size};
use crate::handle::ViewHandle;
use crate::view::{ViewTree, fits};

verus! {

/// One step of drawing a window.
#[derive(Clone, Copy, Debug, PartialEq, Eq, Structural)]
pub enum DrawStep {
    /// The view is hidden: its layer skips this drawing.
    Skip(ViewHandle),
    /// The view's layer is drawn afresh.
    Draw(ViewHandle),
    /// The child's layer is laid into the parent's, over `frame` (in the
    /// parent's bounds).
    Composite { parent: ViewHandle, child: ViewHandle, frame: Rectangle },
}

/// Whether the view's layer needs display, by the renderer's account.
pub open spec fn needs(needs_display: Seq<bool>, v: ViewHandle) -> bool {
    v.index < needs_display.len() && needs_display[v.index as int]
}

/// Where a subview's layer goes in its superview's: its frame, moved by
/// the superview's bounds origin; `None` where that leaves `i32`.
pub open spec fn composite_frame(parent_bounds: Rectangle, child_frame: Rectangle) -> Option<Rectangle> {
    let x = child_frame.origin.x - parent_bounds.origin.x;
    let y = child_frame.origin.y - parent_bounds.origin.y;
    if fits(x) && fits(y) {
        Some(Rectangle { origin: Point { x: x as i32, y: y as i32 }, size: child_frame.size })
    } else {
        None
    }
}

/// The steps of drawing `v`, going at most `fuel` levels down: a hidden
/// view skips; a view whose layer does not need display does nothing more;
/// otherwise it draws, then each visible subview, back to front, is drawn
/// and laid in. `None` where the drawing would not end or a frame leaves
/// `i32`.
pub open spec fn plan(tree: ViewTree, v: ViewHandle, needs_display: Seq<bool>, fuel: nat) -> Option<
    Seq<DrawStep>,
>
    decreases fuel, tree.nodes@[v.index as int].subviews@.len() + 1,
{
    if fuel == 0 || !tree.valid(v) {
        None
    } else if tree.node(v).hidden {
        Some(seq![DrawStep::Skip(v)])
    } else if !needs(needs_display, v) {
        Some(seq![])
    } else {
        match plan_among(tree, v, needs_display, tree.node(v).subviews@.len() as nat, fuel) {
            None => None,
            Some(rest) => Some(seq![DrawStep::Draw(v)] + rest),
        }
    }
}

/// The steps for the first `i` subviews of `v`.
pub open spec fn plan_among(tree: ViewTree, v: ViewHandle, needs_display: Seq<bool>, i: nat, fuel: nat) -> Option<
    Seq<DrawStep>,
>
    decreases fuel, i,
{
    if i == 0 {
        Some(seq![])
    } else if fuel == 0 || !tree.valid(v) || i > tree.node(v).subviews@.len() {
        None
    } else {
        let s = tree.node(v).subviews@[i - 1];
        match plan_among(tree, v, needs_display, (i - 1) as nat, fuel) {
            None => None,
            Some(before) => if !tree.valid(s) {
                None
            } else if tree.node(s).hidden {
                Some(before)
            } else {
                match (
                    plan(tree, s, needs_display, (fuel - 1) as nat),
                    composite_frame(tree.node(v).bounds, tree.node(s).frame),
                ) {
                    (Some(steps), Some(frame)) => Some(
                        before + steps + seq![DrawStep::Composite { parent: v, child: s, frame }],
                    ),
                    _ => None,
                }
            },
        }
    }
}

fn composite(parent_bounds: Rectangle, child_frame: Rectangle) -> (r: Option<Rectangle>)
    ensures
        r == composite_frame(parent_bounds, child_frame),
{
    let x = child_frame.origin.x as i64 - parent_bounds.origin.x as i64;
    let y = child_frame.origin.y as i64 - parent_bounds.origin.y as i64;
    if i32::MIN as i64 <= x && x <= i32::MAX as i64 && i32::MIN as i64 <= y && y <= i32::MAX as i64 {
        Some(
            Rectangle {
                origin: Point { x: x as i32, y: y as i32 },
                size: Size { width: child_frame.size.width, height: child_frame.size.height },
            },
        )
    } else {
        None
    }
}

fn try_plan(tree: &ViewTree, v: ViewHandle, needs_display: &Vec<bool>, fuel: usize) -> (r: Option<
    Vec<DrawStep>,
>)
    requires
        tree.wf(),
    ensures
        r matches Some(steps) ==> plan(*tree, v, needs_display@, fuel as nat) == Some(steps@),
        r is None ==> plan(*tree, v, needs_display@, fuel as nat) is None,
    decreases fuel, tree.nodes@[v.index as int].subviews@.len() + 1,
{
    if fuel == 0 || !tree.is_valid(v) {
        return None;
    }
    if tree.nodes[v.index].hidden {
        let mut steps: Vec<DrawStep> = Vec::new();
        steps.push(DrawStep::Skip(v));
        assert(steps@ =~= seq![DrawStep::Skip(v)]);
        return Some(steps);
    }
    if !(v.index < needs_display.len() && needs_display[v.index]) {
        let steps: Vec<DrawStep> = Vec::new();
        assert(steps@ =~= Seq::<DrawStep>::empty());
        return Some(steps);
    }
    match try_plan_among(tree, v, needs_display, tree.nodes[v.index].subviews.len(), fuel) {
        None => None,
        Some(mut rest) => {
            let mut steps: Vec<DrawStep> = Vec::new();
            steps.push(DrawStep::Draw(v));
            let ghost rest_view = rest@;
            steps.append(&mut rest);
            assert(steps@ =~= seq![DrawStep::Draw(v)] + rest_view);
            Some(steps)
        },
    }
}

fn try_plan_among(tree: &ViewTree, v: ViewHandle, needs_display: &Vec<bool>, i: usize, fuel: usize) -> (r: Option<
    Vec<DrawStep>,
>)
    requires
        tree.wf(),
    ensures
        r matches Some(steps) ==> plan_among(*tree, v, needs_display@, i as nat, fuel as nat) == Some(
            steps@,
        ),
        r is None ==> plan_among(*tree, v, needs_display@, i as nat, fuel as nat) is None,
    decreases fuel, i,
{
    if i == 0 {
        let steps: Vec<DrawStep> = Vec::new();
        assert(steps@ =~= Seq::<DrawStep>::empty());
        return Some(steps);
    }
    if fuel == 0 || !tree.is_valid(v) || i
        > tree.nodes[v.index].subviews.len() {
        return None;
    }
    let s = tree.nodes[v.index].subviews[i - 1];
    match try_plan_among(tree, v, needs_display, i - 1, fuel) {
        None => None,
        Some(mut before) => {
            if !tree.is_valid(s) {
                return None;
            }
            if tree.nodes[s.index].hidden {
                return Some(before);
            }
            match (
                try_plan(tree, s, needs_display, fuel - 1),
                composite(tree.nodes[v.index].bounds, tree.nodes[s.index].frame),
            ) {
                (Some(mut steps), Some(frame)) => {
                    let ghost b = before@;
                    let ghost st = steps@;
                    before.append(&mut steps);
                    before.push(DrawStep::Composite { parent: v, child: s, frame });
                    assert(before@ =~= b + st + seq![DrawStep::Composite { parent: v, child: s, frame }]);
                    Some(before)
                },
                _ => None,
            }
        },
    }
}

/// The steps of drawing a window whose views' layers need display as
/// `needs_display` says (by view index): a hidden window draws nothing;
/// otherwise as `plan` says, going as many levels down as there are views.
/// `None` where the drawing would not end or a frame leaves `i32`.
pub fn window_display(tree: &ViewTree, window: ViewHandle, needs_display: &Vec<bool>) -> (r: Option<
    Vec<DrawStep>,
>)
    requires
        tree.wf(),
        tree.valid(window),
    ensures
        tree.node(window).hidden ==> (r matches Some(steps) && steps@.len() == 0),
        !tree.node(window).hidden ==> match r {
            Some(steps) => plan(*tree, window, needs_display@, tree.nodes@.len()) == Some(steps@),
            None => plan(*tree, window, needs_display@, tree.nodes@.len()) is None,
        },
{
    if tree.is_hidden(window) {
        return Some(Vec::new());
    }
    try_plan(tree, window, needs_display, tree.nodes.len())
}

/// How many views have a layer that does not yet need display; `layers`
/// holds, by view index, `None` for a view not drawn yet (it has no layer),
/// or whether its layer needs display.
pub open spec fn unmarked(layers: Seq<Option<bool>>) -> nat
    decreases layers.len(),
{
    if layers.len() == 0 {
        0
    } else {
        unmarked(layers.drop_last()) + if layers.last() == Some(false) {
            1nat
        } else {
            0nat
        }
    }
}

/// Marking one layer that did not need display leaves one fewer such layer.
pub proof fn lemma_mark_one(layers: Seq<Option<bool>>, i: int)
    requires
        0 <= i < layers.len(),
        layers[i] == Some(false),
    ensures
        unmarked(layers.update(i, Some(true))) + 1 == unmarked(layers),
    decreases layers.len(),
{
    let marked = layers.update(i, Some(true));
    if i == layers.len() - 1 {
        assert(marked.drop_last() =~= layers.drop_last());
    } else {
        lemma_mark_one(layers.drop_last(), i);
        assert(marked.drop_last() =~= layers.drop_last().update(i, Some(true)));
    }
}

/// What asking for `v` to be drawn again does: a view whose layer exists
/// and does not yet need display is marked, and the request goes on to its
/// superview while that is still a view of the tree. It stops at a view
/// with no layer yet (a new layer is drawn in any case), at one whose layer
/// already needs display, or at one with no superview. Gives the layers
/// after, and the view the request stopped at.
pub open spec fn request(tree: ViewTree, layers: Seq<Option<bool>>, v: ViewHandle) -> (
    Seq<Option<bool>>,
    ViewHandle,
)
    decreases unmarked(layers),
{
    if v.index < layers.len() && layers[v.index as int] == Some(false) {
        let marked = layers.update(v.index as int, Some(true));
        let up = tree.node(v).superview;
        if tree.live(up) {
            proof {
                lemma_mark_one(layers, v.index as int);
            }
            request(tree, marked, up.target.unwrap())
        } else {
            (marked, v)
        }
    } else {
        (layers, v)
    }
}

/// A request for display marks the view's layer where it has one, marks no
/// layer but ones that did not yet need display, unmarks none, and makes no
/// layer; the layers keep their count.
pub proof fn lemma_request_marks(tree: ViewTree, layers: Seq<Option<bool>>, v: ViewHandle)
    ensures
        request(tree, layers, v).0.len() == layers.len(),
        v.index < layers.len() && layers[v.index as int] is Some ==> request(tree, layers, v).0[v.index as int]
            == Some(true),
        forall|i: int|
            0 <= i < layers.len() && #[trigger] request(tree, layers, v).0[i] != layers[i] ==> layers[i]
                == Some(false) && request(tree, layers, v).0[i] == Some(true),
    decreases unmarked(layers),
{
    if v.index < layers.len() && layers[v.index as int] == Some(false) {
        let marked = layers.update(v.index as int, Some(true));
        let up = tree.node(v).superview;
        if tree.live(up) {
            lemma_mark_one(layers, v.index as int);
            lemma_request_marks(tree, marked, up.target.unwrap());
        }
    }
}

/// The steps for a view's first `i` subviews begin the steps for its first
/// `j`, for `i <= j`: a later subview's steps only ever follow.
pub proof fn lemma_plan_among_prefix(
    tree: ViewTree,
    v: ViewHandle,
    needs_display: Seq<bool>,
    i: nat,
    j: nat,
    fuel: nat,
)
    requires
        i <= j,
        plan_among(tree, v, needs_display, j, fuel) is Some,
    ensures
        plan_among(tree, v, needs_display, i, fuel) is Some,
        plan_among(tree, v, needs_display, i, fuel).unwrap().len() <= plan_among(
            tree,
            v,
            needs_display,
            j,
            fuel,
        ).unwrap().len(),
        plan_among(tree, v, needs_display, j, fuel).unwrap().subrange(
            0,
            plan_among(tree, v, needs_display, i, fuel).unwrap().len() as int,
        ) == plan_among(tree, v, needs_display, i, fuel).unwrap(),
    decreases j,
{
    let pj = plan_among(tree, v, needs_display, j, fuel).unwrap();
    if i == j {
        assert(pj.subrange(0, pj.len() as int) =~= pj);
    } else {
        let prev = plan_among(tree, v, needs_display, (j - 1) as nat, fuel);
        assert(prev is Some);
        lemma_plan_among_prefix(tree, v, needs_display, i, (j - 1) as nat, fuel);
        let pp = prev.unwrap();
        let pi = plan_among(tree, v, needs_display, i, fuel).unwrap();
        assert(pj.subrange(0, pp.len() as int) =~= pp);
        assert(pj.subrange(0, pi.len() as int) =~= pp.subrange(0, pi.len() as int));
    }
}

/// The steps for a view's first `i + 1` subviews end by laying in the
/// `i`-th, where it is a visible view of the tree; where that one needs
/// display, it is drawn first, right after the steps for the subviews
/// before it.
pub proof fn lemma_plan_among_ends_with_composite(
    tree: ViewTree,
    v: ViewHandle,
    needs_display: Seq<bool>,
    i: nat,
    fuel: nat,
)
    requires
        plan_among(tree, v, needs_display, i + 1, fuel) is Some,
        tree.valid(tree.node(v).subviews@[i as int]),
        !tree.node(tree.node(v).subviews@[i as int]).hidden,
    ensures
        ({
            let s = tree.node(v).subviews@[i as int];
            let after = plan_among(tree, v, needs_display, i + 1, fuel).unwrap();
            let before = plan_among(tree, v, needs_display, i, fuel).unwrap();
            &&& before.len() < after.len()
            &&& after.last() == DrawStep::Composite {
                parent: v,
                child: s,
                frame: composite_frame(tree.node(v).bounds, tree.node(s).frame).unwrap(),
            }
            &&& needs(needs_display, s) ==> before.len() + 1 < after.len() && after[before.len() as int]
                == DrawStep::Draw(s)
        }),
{
    let s = tree.node(v).subviews@[i as int];
    let before = plan_among(tree, v, needs_display, i, fuel).unwrap();
    let after = plan_among(tree, v, needs_display, i + 1, fuel).unwrap();
    let sub = plan(tree, s, needs_display, (fuel - 1) as nat);
    assert(sub is Some);
    let frame = composite_frame(tree.node(v).bounds, tree.node(s).frame).unwrap();
    assert(after == before + sub.unwrap() + seq![DrawStep::Composite { parent: v, child: s, frame }]);
    if needs(needs_display, s) {
        let rest = plan_among(tree, s, needs_display, tree.node(s).subviews@.len() as nat, (fuel - 1) as nat);
        assert(sub.unwrap() == seq![DrawStep::Draw(s)] + rest.unwrap());
        assert(after[before.len() as int] == sub.unwrap()[0]);
    }
}

/// Drawing a view that is shown and needs display draws the view first,
/// then lays in its visible subviews back to front, in the order of its
/// subviews: where the `i`-th and the `j`-th (`i < j`) are visible views of
/// the tree, the step laying in the `i`-th comes before the step laying in
/// the `j`-th; and where the `i`-th needs display, it is drawn before it is
/// laid in.
pub proof fn lemma_subviews_composited_back_to_front(
    tree: ViewTree,
    v: ViewHandle,
    needs_display: Seq<bool>,
    fuel: nat,
    i: int,
    j: int,
)
    requires
        plan(tree, v, needs_display, fuel) is Some,
        tree.valid(v),
        !tree.node(v).hidden,
        needs(needs_display, v),
        0 <= i < j < tree.node(v).subviews@.len(),
        tree.valid(tree.node(v).subviews@[i]),
        !tree.node(tree.node(v).subviews@[i]).hidden,
        tree.valid(tree.node(v).subviews@[j]),
        !tree.node(tree.node(v).subviews@[j]).hidden,
    ensures
        ({
            let steps = plan(tree, v, needs_display, fuel).unwrap();
            let si = tree.node(v).subviews@[i];
            let sj = tree.node(v).subviews@[j];
            exists|p: int, q: int|
                0 <= p < q < steps.len() && steps[p] == (DrawStep::Composite {
                    parent: v,
                    child: si,
                    frame: composite_frame(tree.node(v).bounds, tree.node(si).frame).unwrap(),
                }) && steps[q] == (DrawStep::Composite {
                    parent: v,
                    child: sj,
                    frame: composite_frame(tree.node(v).bounds, tree.node(sj).frame).unwrap(),
                })
        }),
        plan(tree, v, needs_display, fuel).unwrap()[0] == DrawStep::Draw(v),
        ({
            let steps = plan(tree, v, needs_display, fuel).unwrap();
            let si = tree.node(v).subviews@[i];
            needs(needs_display, si) ==> exists|r: int, p: int|
                0 <= r < p < steps.len() && steps[r] == DrawStep::Draw(si) && steps[p] == (
                DrawStep::Composite {
                    parent: v,
                    child: si,
                    frame: composite_frame(tree.node(v).bounds, tree.node(si).frame).unwrap(),
                })
        }),
{
    let n = tree.node(v).subviews@.len() as nat;
    let steps = plan(tree, v, needs_display, fuel).unwrap();
    let all = plan_among(tree, v, needs_display, n, fuel).unwrap();
    assert(steps == seq![DrawStep::Draw(v)] + all);
    let ii = i as nat;
    let jj = j as nat;
    lemma_plan_among_prefix(tree, v, needs_display, jj + 1, n, fuel);
    lemma_plan_among_prefix(tree, v, needs_display, ii + 1, jj, fuel);
    lemma_plan_among_ends_with_composite(tree, v, needs_display, ii, fuel);
    lemma_plan_among_ends_with_composite(tree, v, needs_display, jj, fuel);
    let pi = plan_among(tree, v, needs_display, ii + 1, fuel).unwrap();
    let pj0 = plan_among(tree, v, needs_display, jj, fuel).unwrap();
    let pj = plan_among(tree, v, needs_display, jj + 1, fuel).unwrap();
    let p = pi.len() as int;
    let q = pj.len() as int;
    assert(pj0.subrange(0, pi.len() as int) == pi);
    assert(pj.subrange(0, pj0.len() as int) == pj0) by {
        lemma_plan_among_prefix(tree, v, needs_display, jj, jj + 1, fuel);
    }
    assert(all.subrange(0, pj.len() as int) == pj);
    assert(steps[p] == all[p - 1]);
    assert(all[p - 1] == pj[p - 1]);
    assert(pj[p - 1] == pj0[p - 1]);
    assert(pj0[p - 1] == pi[p - 1]);
    assert(steps[q] == all[q - 1]);
    assert(all[q - 1] == pj[q - 1]);
    let si = tree.node(v).subviews@[i];
    if needs(needs_display, si) {
        let bi = plan_among(tree, v, needs_display, ii, fuel).unwrap();
        let r = bi.len() as int + 1;
        assert(steps[r] == all[r - 1]);
        assert(all[r - 1] == pj[r - 1]);
        assert(pj[r - 1] == pj0[r - 1]);
        assert(pj0[r - 1] == pi[r - 1]);
    }
}

impl ViewTree {
    /// Asks for the view to be drawn again soon: marks its layer and those
    /// of its superviews as `request` says, and gives the view the request
    /// stopped at; where that is a window's view, the window's part follows
    /// (`Window::set_needs_display`).
    pub fn set_needs_display(&self, v: ViewHandle, layers: &mut Vec<Option<bool>>) -> (last: ViewHandle)
        requires
            self.valid(v),
        ensures
            (final(layers)@, last) == request(*self, old(layers)@, v),
    {
        let mut cur = v;
        loop
            invariant
                self.valid(cur),
                request(*self, layers@, cur) == request(*self, old(layers)@, v),
            decreases unmarked(layers@),
        {
            let unmarked_here = cur.index < layers.len() && match layers[cur.index] {
                Some(needs) => !needs,
                None => false,
            };
            if !unmarked_here {
                return cur;
            }
            let ghost before = layers@;
            layers.set(cur.index, Some(true));
            proof {
                lemma_mark_one(before, cur.index as int);
            }
            match self.nodes[cur.index].superview.upgrade(self) {
                Some(up) => {
                    cur = up;
                },
                None => {
                    return cur;
                },
            }
        }
    }
}

} // verus!
