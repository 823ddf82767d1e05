//! What the event loop does with each input event: the touch bookkeeping,
//! the gesture recognizers' updates, and what is left for views and
//! actions.

use vstd::prelude::*;
use crate::application::{Application, recognizers_up};
use crate::geometry::Point;
use crate::handle::ViewHandle;
use crate::pan::PanRecognizer;
use crate::touch::{
    EventArena,
    Touch,
    TouchEvent,
    TouchPhase,
    has_touch,
    moved_touches,
    ended_touches,
};
use crate::view::ViewTree;

verus! {

/// An input event from the operating system, in the toolkit's terms.
#[derive(Clone, Copy, Debug, PartialEq, Eq, Structural)]
pub enum InputEvent {
    Quit,
    /// The mouse button went down in a window.
    MouseButtonDown { window: ViewHandle, position: Point },
    MouseButtonUp { position: Point },
    MouseMotion { position: Point },
    MultiGesture,
    Other,
}

/// What is left to do once the library has taken an event in.
#[derive(Clone, Copy, Debug, PartialEq, Eq, Structural)]
pub enum Response {
    /// The application is to exit.
    Exit,
    /// The view's behavior receives the event's touches.
    TouchesBegan(ViewHandle),
    TouchesEnded(ViewHandle),
    TouchesMoved(ViewHandle),
    /// The action of the recognizer (its index in the view tree) runs.
    RunPanAction(usize),
    /// A multi-finger gesture arrived; it is only reported.
    MultiGesture,
}

/// The recognizers after the first `n` in `list` see a touch go down at
/// `p`, in order; a recognizer whose view is no longer a view of `tree`
/// sees nothing.
pub open spec fn began_all(tree: ViewTree, recs: Seq<PanRecognizer>, list: Seq<usize>, p: Point, n: nat) -> Seq<
    PanRecognizer,
>
    decreases n,
{
    if n == 0 {
        recs
    } else {
        let prev = began_all(tree, recs, list, p, (n - 1) as nat);
        let r = list[n - 1] as int;
        if tree.live(prev[r].view) {
            prev.update(r, prev[r].after_begin(p))
        } else {
            prev
        }
    }
}

/// The recognizers after the first `n` in `list` see the touch lift; a
/// recognizer whose view is no longer a view of `tree` sees nothing.
pub open spec fn ended_all(tree: ViewTree, recs: Seq<PanRecognizer>, list: Seq<usize>, n: nat) -> Seq<
    PanRecognizer,
>
    decreases n,
{
    if n == 0 {
        recs
    } else {
        let prev = ended_all(tree, recs, list, (n - 1) as nat);
        let r = list[n - 1] as int;
        if tree.live(prev[r].view) {
            prev.update(r, prev[r].after_end())
        } else {
            prev
        }
    }
}

/// The recognizers after the first `n` in `list` see the touch move to
/// `p`, and the recognizers whose actions run, in order; a recognizer whose
/// view is no longer a view of `tree` sees nothing and runs nothing.
pub open spec fn moved_all(tree: ViewTree, recs: Seq<PanRecognizer>, list: Seq<usize>, p: Point, n: nat) -> (Seq<
    PanRecognizer,
>, Seq<usize>)
    decreases n,
{
    if n == 0 {
        (recs, seq![])
    } else {
        let (prev, runs) = moved_all(tree, recs, list, p, (n - 1) as nat);
        let r = list[n - 1] as int;
        if tree.live(prev[r].view) {
            (
                prev.update(r, prev[r].after_move(p)),
                if prev[r].move_runs(p) {
                    runs.push(list[n - 1])
                } else {
                    runs
                },
            )
        } else {
            (prev, runs)
        }
    }
}

/// Each of the first `n` moves can be followed without leaving `i32`.
pub open spec fn can_move_all(tree: ViewTree, recs: Seq<PanRecognizer>, list: Seq<usize>, p: Point, n: nat) -> bool
    decreases n,
{
    if n == 0 {
        true
    } else {
        &&& can_move_all(tree, recs, list, p, (n - 1) as nat)
        &&& {
            let prev = moved_all(tree, recs, list, p, (n - 1) as nat).0;
            tree.live(prev[list[n - 1] as int].view) ==> prev[list[n - 1] as int].can_move(p)
        }
    }
}

/// Every index in the list names a recognizer.
pub open spec fn indexes_in(list: Seq<usize>, len: nat) -> bool {
    forall|i: int| 0 <= i < list.len() ==> #[trigger] list[i] < len
}

/// Every touch the arena keeps follows recognizers of the tree.
pub open spec fn touches_follow_tree(tree: ViewTree, arena: EventArena) -> bool {
    forall|i: int|
        0 <= i < arena.touches_of().len() ==> indexes_in(
            (#[trigger] arena.touches_of()[i]).gesture_recognizers@,
            tree.recognizers@.len(),
        )
}

/// The recognizers gathered up a superview chain are the tree's.
pub proof fn lemma_recognizers_up_in_tree(tree: ViewTree, v: ViewHandle, fuel: nat)
    requires
        tree.wf(),
        recognizers_up(tree, v, fuel) is Some,
    ensures
        indexes_in(recognizers_up(tree, v, fuel).unwrap(), tree.recognizers@.len()),
    decreases fuel,
{
    let own = tree.node(v).gesture_recognizers@;
    assert(indexes_in(own, tree.recognizers@.len())) by {
        assert forall|i: int| 0 <= i < own.len() implies #[trigger] own[i] < tree.recognizers@.len() by {
            let n = tree.nodes@[v.index as int];
            assert(n.gesture_recognizers@[i] < tree.recognizers@.len());
        }
    }
    if let Some(s) = tree.node(v).superview.target {
        lemma_recognizers_up_in_tree(tree, s, (fuel - 1) as nat);
        let rest = recognizers_up(tree, s, (fuel - 1) as nat).unwrap();
        assert forall|i: int| 0 <= i < own.len() + rest.len() implies #[trigger] (own + rest)[i]
            < tree.recognizers@.len() by {
            if i < own.len() {
                assert((own + rest)[i] == own[i]);
            } else {
                assert((own + rest)[i] == rest[i - own.len()]);
            }
        }
    }
}

proof fn lemma_fold_lengths(tree: ViewTree, recs: Seq<PanRecognizer>, list: Seq<usize>, p: Point, n: nat)
    requires
        n <= list.len(),
        indexes_in(list, recs.len()),
    ensures
        began_all(tree, recs, list, p, n).len() == recs.len(),
        ended_all(tree, recs, list, n).len() == recs.len(),
        moved_all(tree, recs, list, p, n).0.len() == recs.len(),
    decreases n,
{
    if n > 0 {
        lemma_fold_lengths(tree, recs, list, p, (n - 1) as nat);
        assert(list[n - 1] < recs.len());
    }
}

/// Shows the touch's recognizers that it went down, in order.
fn recognizers_begin(tree: &mut ViewTree, list: &Vec<usize>, event: &TouchEvent)
    requires
        old(tree).wf(),
        event.touches@.len() > 0,
        indexes_in(list@, old(tree).recognizers@.len()),
    ensures
        final(tree).wf(),
        final(tree).nodes@ == old(tree).nodes@,
        final(tree).recognizers@ == began_all(
            *old(tree),
            old(tree).recognizers@,
            list@,
            event.touches@[0].position,
            list@.len(),
        ),
{
    let ghost start = tree.recognizers@;
    let ghost p = event.touches@[0].position;
    let mut k: usize = 0;
    while k < list.len()
        invariant
            tree.wf(),
            tree.nodes@ == old(tree).nodes@,
            start == old(tree).recognizers@,
            k <= list@.len(),
            indexes_in(list@, start.len()),
            event.touches@.len() > 0,
            p == event.touches@[0].position,
            tree.recognizers@ == began_all(*old(tree), start, list@, p, k as nat),
        decreases list.len() - k,
    {
        proof {
            lemma_fold_lengths(*old(tree), start, list@, p, k as nat);
        }
        let r = list[k];
        let mut recognizer = *tree.recognizer(r);
        if recognizer.view.upgrade(tree).is_some() {
            recognizer.touches_began(&event.touches, event);
            tree.set_recognizer(r, recognizer);
        }
        k = k + 1;
    }
}

/// Shows the touch's recognizers that it lifted, in order.
fn recognizers_end(tree: &mut ViewTree, list: &Vec<usize>, event: &TouchEvent)
    requires
        old(tree).wf(),
        indexes_in(list@, old(tree).recognizers@.len()),
    ensures
        final(tree).wf(),
        final(tree).nodes@ == old(tree).nodes@,
        final(tree).recognizers@ == ended_all(*old(tree), old(tree).recognizers@, list@, list@.len()),
{
    let ghost start = tree.recognizers@;
    let mut k: usize = 0;
    while k < list.len()
        invariant
            tree.wf(),
            tree.nodes@ == old(tree).nodes@,
            start == old(tree).recognizers@,
            k <= list@.len(),
            indexes_in(list@, start.len()),
            tree.recognizers@ == ended_all(*old(tree), start, list@, k as nat),
        decreases list.len() - k,
    {
        proof {
            lemma_fold_lengths(*old(tree), start, list@, Point { x: 0, y: 0 }, k as nat);
        }
        let r = list[k];
        let mut recognizer = *tree.recognizer(r);
        if recognizer.view.upgrade(tree).is_some() {
            recognizer.touches_ended(&event.touches, event);
            tree.set_recognizer(r, recognizer);
        }
        k = k + 1;
    }
}

/// Shows the touch's recognizers that it moved, in order; gives the
/// actions to run.
fn recognizers_move(tree: &mut ViewTree, list: &Vec<usize>, event: &TouchEvent) -> (runs: Vec<
    Response,
>)
    requires
        old(tree).wf(),
        event.touches@.len() > 0,
        indexes_in(list@, old(tree).recognizers@.len()),
        can_move_all(*old(tree), old(tree).recognizers@, list@, event.touches@[0].position, list@.len()),
    ensures
        final(tree).wf(),
        final(tree).nodes@ == old(tree).nodes@,
        final(tree).recognizers@ == moved_all(
            *old(tree),
            old(tree).recognizers@,
            list@,
            event.touches@[0].position,
            list@.len(),
        ).0,
        runs@ == moved_all(
            *old(tree),
            old(tree).recognizers@,
            list@,
            event.touches@[0].position,
            list@.len(),
        ).1.map_values(|r: usize| Response::RunPanAction(r)),
{
    let ghost start = tree.recognizers@;
    let ghost p = event.touches@[0].position;
    let mut runs: Vec<Response> = Vec::new();
    let mut k: usize = 0;
    while k < list.len()
        invariant
            tree.wf(),
            tree.nodes@ == old(tree).nodes@,
            start == old(tree).recognizers@,
            k <= list@.len(),
            indexes_in(list@, start.len()),
            event.touches@.len() > 0,
            p == event.touches@[0].position,
            can_move_all(*old(tree), start, list@, p, list@.len()),
            tree.recognizers@ == moved_all(*old(tree), start, list@, p, k as nat).0,
            runs@ == moved_all(*old(tree), start, list@, p, k as nat).1.map_values(
                |r: usize| Response::RunPanAction(r),
            ),
        decreases list.len() - k,
    {
        proof {
            lemma_fold_lengths(*old(tree), start, list@, p, k as nat);
            lemma_can_move_prefix(*old(tree), start, list@, p, list@.len(), (k + 1) as nat);
        }
        let r = list[k];
        let mut recognizer = *tree.recognizer(r);
        let mut run = false;
        if recognizer.view.upgrade(tree).is_some() {
            run = recognizer.touches_moved(&event.touches, event);
            tree.set_recognizer(r, recognizer);
        }
        if run {
            runs.push(Response::RunPanAction(r));
        }
        k = k + 1;
        proof {
            let (prev, prev_runs) = moved_all(*old(tree), start, list@, p, (k - 1) as nat);
            let f = |r: usize| Response::RunPanAction(r);
            if run {
                assert(prev_runs.push(r).map_values(f) =~= prev_runs.map_values(f).push(
                    Response::RunPanAction(r),
                ));
            }
        }
    }
    runs
}

proof fn lemma_can_move_prefix(tree: ViewTree, recs: Seq<PanRecognizer>, list: Seq<usize>, p: Point, n: nat, m: nat)
    requires
        can_move_all(tree, recs, list, p, n),
        m <= n,
    ensures
        can_move_all(tree, recs, list, p, m),
    decreases n,
{
    if m < n {
        lemma_can_move_prefix(tree, recs, list, p, (n - 1) as nat, m);
    }
}

/// The touch a mouse press makes: touch 0 at the position, in the window,
/// on the view hit there (if any) with the recognizers up from it.
pub open spec fn pressed_touch_matches(t: Touch, tree: ViewTree, window: ViewHandle, position: Point) -> bool {
    &&& t.id == 0
    &&& t.position == position
    &&& t.phase == TouchPhase::Began
    &&& t.window == Some(window)
    &&& t.view == tree.hit_result(window, position).unwrap()
    &&& t.gesture_recognizers@ == match tree.hit_result(window, position).unwrap() {
        Some(v) => recognizers_up(tree, v, tree.nodes@.len()).unwrap(),
        None => Seq::<usize>::empty(),
    }
}

/// What a press can be taken in on: the tree is sound, touch 0 is not
/// down already, and the hit test and the recognizer chain both end.
pub open spec fn can_press(tree: ViewTree, arena: EventArena, window: ViewHandle, position: Point) -> bool {
    &&& tree.wf()
    &&& !has_touch(arena.touches_of(), 0)
    &&& tree.hit_result(window, position) is Some
    &&& (tree.hit_result(window, position).unwrap() matches Some(v) ==> recognizers_up(
        tree,
        v,
        tree.nodes@.len(),
    ) is Some)
}

/// What a press does: touch 0, made as `pressed_touch_matches` says, is
/// added after the arena's touches; the recognizers it follows see it go
/// down at the position of the event's first touch, in order; the view hit,
/// if any, is to receive it. The views stay as they were.
pub open spec fn press_outcome(
    tree: ViewTree,
    arena: EventArena,
    tree2: ViewTree,
    arena2: EventArena,
    window: ViewHandle,
    position: Point,
    responses: Seq<Response>,
) -> bool {
    let touches = arena2.touches_of();
    let touch = touches.last();
    &&& tree2.nodes@ == tree.nodes@
    &&& touches.len() == arena.touches_of().len() + 1
    &&& touches.drop_last() == arena.touches_of()
    &&& pressed_touch_matches(touch, tree, window, position)
    &&& tree2.recognizers@ == began_all(
        tree,
        tree.recognizers@,
        touch.gesture_recognizers@,
        touches[0].position,
        touch.gesture_recognizers@.len(),
    )
    &&& responses == match tree.hit_result(window, position).unwrap() {
        Some(v) => seq![Response::TouchesBegan(v)],
        None => Seq::<Response>::empty(),
    }
}

/// The mouse button went down: touch 0 begins where the mouse is, in the
/// window, on the view hit there. Its recognizers see it go down (at the
/// position of the event's first touch), and the view is to receive it.
pub fn mouse_button_down(
    app: &Application,
    tree: &mut ViewTree,
    arena: &mut EventArena,
    window: ViewHandle,
    position: Point,
) -> (responses: Vec<Response>)
    requires
        can_press(*old(tree), *old(arena), window, position),
        touches_follow_tree(*old(tree), *old(arena)),
    ensures
        final(tree).wf(),
        touches_follow_tree(*final(tree), *final(arena)),
        press_outcome(*old(tree), *old(arena), *final(tree), *final(arena), window, position, responses@),
{
    let mut touch = Touch::new(0, position);
    app.assign_targets_to_touch(tree, window, &mut touch);
    proof {
        if let Some(v) = tree.hit_result(window, position).unwrap() {
            lemma_recognizers_up_in_tree(*tree, v, tree.nodes@.len());
        }
    }
    let list = touch.duplicate().gesture_recognizers;
    let view = touch.view();
    let ghost pushed = touch;
    assert(pressed_touch_matches(pushed, *old(tree), window, position)) by {
        if tree.hit_result(window, position).unwrap() is None {
            assert(pushed.gesture_recognizers@ =~= Seq::<usize>::empty());
        }
    }
    let event = arena.touch_began(touch);
    assert(event.touches@.last() == pushed);
    recognizers_begin(tree, &list, event);
    proof {
        assert(arena.touches_of().drop_last() =~= old(arena).touches_of());
        assert forall|i: int| 0 <= i < arena.touches_of().len() implies indexes_in(
            (#[trigger] arena.touches_of()[i]).gesture_recognizers@,
            tree.recognizers@.len(),
        ) by {
            lemma_fold_lengths(
                *old(tree),
                old(tree).recognizers@,
                list@,
                event.touches@[0].position,
                list@.len(),
            );
            if i < old(arena).touches_of().len() {
                assert(arena.touches_of()[i] == old(arena).touches_of()[i]);
            }
        }
    }
    let mut responses: Vec<Response> = Vec::new();
    if let Some(v) = view {
        responses.push(Response::TouchesBegan(v));
    }
    responses
}

/// What a release does: touch 0 ends where the mouse is; the recognizers
/// that the event's first touch follows see it lift, in order, and its
/// view, if any, is to receive it. The views stay as they were.
pub open spec fn release_outcome(
    tree: ViewTree,
    arena: EventArena,
    tree2: ViewTree,
    arena2: EventArena,
    position: Point,
    responses: Seq<Response>,
) -> bool {
    let first = arena2.touches_of()[0];
    &&& tree2.nodes@ == tree.nodes@
    &&& arena2.touches_of() == ended_touches(arena.touches_of(), 0, position)
    &&& tree2.recognizers@ == ended_all(
        tree,
        tree.recognizers@,
        first.gesture_recognizers@,
        first.gesture_recognizers@.len(),
    )
    &&& responses == match first.view {
        Some(v) => seq![Response::TouchesEnded(v)],
        None => Seq::<Response>::empty(),
    }
}

/// The mouse button went up: touch 0 ends where the mouse is. The event's
/// first touch's recognizers see it lift, and its view is to receive it.
pub fn mouse_button_up(tree: &mut ViewTree, arena: &mut EventArena, position: Point) -> (responses:
    Vec<Response>)
    requires
        old(tree).wf(),
        has_touch(old(arena).touches_of(), 0),
        touches_follow_tree(*old(tree), *old(arena)),
    ensures
        final(tree).wf(),
        touches_follow_tree(*final(tree), *final(arena)),
        release_outcome(*old(tree), *old(arena), *final(tree), *final(arena), position, responses@),
{
    arena.touch_ended(0, position);
    let event = arena.touch_event();
    let first = &event.touches[0];
    let ghost touches = event.touches@;
    assert(touches.len() > 0);
    assert(indexes_in(touches[0].gesture_recognizers@, tree.recognizers@.len())) by {
        assert(touches[0].gesture_recognizers == old(arena).touches_of()[0].gesture_recognizers);
    }
    recognizers_end(tree, &first.gesture_recognizers, event);
    proof {
        lemma_fold_lengths(
            *old(tree),
            old(tree).recognizers@,
            touches[0].gesture_recognizers@,
            Point { x: 0, y: 0 },
            touches[0].gesture_recognizers@.len(),
        );
        assert forall|i: int| 0 <= i < touches.len() implies indexes_in(
            (#[trigger] touches[i]).gesture_recognizers@,
            tree.recognizers@.len(),
        ) by {
            assert(touches[i].gesture_recognizers == old(arena).touches_of()[i].gesture_recognizers);
        }
    }
    let mut responses: Vec<Response> = Vec::new();
    if let Some(v) = first.view {
        responses.push(Response::TouchesEnded(v));
    }
    responses
}

/// What a move can be taken in on: after touch 0 moves, the event's first
/// touch's recognizers can all follow it.
pub open spec fn can_move_to(tree: ViewTree, arena: EventArena, position: Point) -> bool {
    let touches = moved_touches(arena.touches_of(), 0, position);
    touches.len() > 0 ==> can_move_all(
        tree,
        tree.recognizers@,
        touches[0].gesture_recognizers@,
        touches[0].position,
        touches[0].gesture_recognizers@.len(),
    )
}

/// What a motion does: touch 0 moves there, if it is down; if the event
/// has touches, the recognizers its first touch follows see the move, in
/// order, the actions of those that say so run, and then the first touch's
/// view, if any, is to receive it. The views stay as they were.
pub open spec fn motion_outcome(
    tree: ViewTree,
    arena: EventArena,
    tree2: ViewTree,
    arena2: EventArena,
    position: Point,
    responses: Seq<Response>,
) -> bool {
    &&& tree2.nodes@ == tree.nodes@
    &&& arena2.touches_of() == moved_touches(arena.touches_of(), 0, position)
    &&& arena2.touches_of().len() == 0 ==> tree2.recognizers@ == tree.recognizers@ && responses.len()
        == 0
    &&& arena2.touches_of().len() > 0 ==> {
        let first = arena2.touches_of()[0];
        let (recs, runs) = moved_all(
            tree,
            tree.recognizers@,
            first.gesture_recognizers@,
            first.position,
            first.gesture_recognizers@.len(),
        );
        &&& tree2.recognizers@ == recs
        &&& responses == runs.map_values(|r: usize| Response::RunPanAction(r)) + match first.view {
            Some(v) => seq![Response::TouchesMoved(v)],
            None => Seq::<Response>::empty(),
        }
    }
}

/// The mouse moved: touch 0 moves there, if it is down. The event's first
/// touch's recognizers see the move, in order, and say which actions run;
/// the first touch's view is to receive it.
pub fn mouse_motion(tree: &mut ViewTree, arena: &mut EventArena, position: Point) -> (responses:
    Vec<Response>)
    requires
        old(tree).wf(),
        touches_follow_tree(*old(tree), *old(arena)),
        can_move_to(*old(tree), *old(arena), position),
    ensures
        final(tree).wf(),
        touches_follow_tree(*final(tree), *final(arena)),
        motion_outcome(*old(tree), *old(arena), *final(tree), *final(arena), position, responses@),
{
    arena.touch_moved(0, position);
    let event = arena.touch_event();
    let ghost touches = event.touches@;
    if event.touches.len() == 0 {
        return Vec::new();
    }
    let first = &event.touches[0];
    assert(indexes_in(touches[0].gesture_recognizers@, tree.recognizers@.len())) by {
        assert(touches[0].gesture_recognizers == old(arena).touches_of()[0].gesture_recognizers);
    }
    let mut responses = recognizers_move(tree, &first.gesture_recognizers, event);
    proof {
        lemma_fold_lengths(
            *old(tree),
            old(tree).recognizers@,
            touches[0].gesture_recognizers@,
            touches[0].position,
            touches[0].gesture_recognizers@.len(),
        );
        assert forall|i: int| 0 <= i < touches.len() implies indexes_in(
            (#[trigger] touches[i]).gesture_recognizers@,
            tree.recognizers@.len(),
        ) by {
            assert(touches[i].gesture_recognizers == old(arena).touches_of()[i].gesture_recognizers);
        }
    }
    let ghost runs = responses@;
    if let Some(v) = first.view {
        responses.push(Response::TouchesMoved(v));
    }
    assert(responses@ =~= runs + match first.view {
        Some(v) => seq![Response::TouchesMoved(v)],
        None => Seq::<Response>::empty(),
    });
    responses
}

/// The start of an update: the touches that ended at the last one are
/// cleared out; those left still follow the tree's recognizers.
pub fn start_update(tree: &ViewTree, arena: &mut EventArena)
    requires
        touches_follow_tree(*tree, *old(arena)),
    ensures
        touches_follow_tree(*tree, *final(arena)),
        final(arena).touches_of() == old(arena).touches_of().filter(
            |t: Touch| t.phase != TouchPhase::Ended,
        ),
{
    arena.cleanup_ended_touches();
    assert forall|i: int| 0 <= i < arena.touches_of().len() implies indexes_in(
        (#[trigger] arena.touches_of()[i]).gesture_recognizers@,
        tree.recognizers@.len(),
    ) by {
        assert(old(arena).touches_of().contains(arena.touches_of()[i]));
        let k = choose|k: int|
            0 <= k < old(arena).touches_of().len() && old(arena).touches_of()[k]
                == arena.touches_of()[i];
        assert(indexes_in(old(arena).touches_of()[k].gesture_recognizers@, tree.recognizers@.len()));
    }
}

/// The events that can be taken in: a press needs touch 0 up (else the
/// arena would hold it twice), a release needs it down, and every event
/// needs a sound tree whose recognizers the touches follow.
pub open spec fn can_handle(tree: ViewTree, arena: EventArena, event: InputEvent) -> bool {
    &&& tree.wf()
    &&& touches_follow_tree(tree, arena)
    &&& match event {
        InputEvent::MouseButtonDown { window, position } => can_press(tree, arena, window, position),
        InputEvent::MouseButtonUp { .. } => has_touch(arena.touches_of(), 0),
        InputEvent::MouseMotion { position } => can_move_to(tree, arena, position),
        _ => true,
    }
}

/// Whether the superview chain from `v` ends within `fuel` links.
fn chain_ends(tree: &ViewTree, v: ViewHandle, fuel: usize) -> (b: bool)
    ensures
        b == recognizers_up(*tree, v, fuel as nat) is Some,
    decreases fuel,
{
    if fuel == 0 || !tree.is_valid(v) {
        return false;
    }
    match tree.nodes[v.index].superview.target {
        None => true,
        Some(s) => chain_ends(tree, s, fuel - 1),
    }
}

/// Whether each of the moves of the recognizers in `list` to `p` can be
/// followed without leaving `i32`, each seeing the recognizers as the moves
/// before it left them.
fn moves_can_be_followed(tree: &ViewTree, list: &Vec<usize>, p: Point) -> (b: bool)
    requires
        indexes_in(list@, tree.recognizers@.len()),
    ensures
        b == can_move_all(*tree, tree.recognizers@, list@, p, list@.len()),
{
    let ghost start = tree.recognizers@;
    let mut recs: Vec<PanRecognizer> = Vec::new();
    let mut i: usize = 0;
    while i < tree.recognizers.len()
        invariant
            i <= tree.recognizers@.len(),
            recs@ == tree.recognizers@.take(i as int),
        decreases tree.recognizers.len() - i,
    {
        recs.push(tree.recognizers[i]);
        i = i + 1;
        assert(recs@ =~= tree.recognizers@.take(i as int));
    }
    assert(recs@ =~= start);
    let mut k: usize = 0;
    while k < list.len()
        invariant
            start == tree.recognizers@,
            k <= list@.len(),
            indexes_in(list@, start.len()),
            recs@ == moved_all(*tree, start, list@, p, k as nat).0,
            can_move_all(*tree, start, list@, p, k as nat),
        decreases list.len() - k,
    {
        proof {
            lemma_fold_lengths(*tree, start, list@, p, k as nat);
        }
        let r = list[k];
        if recs[r].view.upgrade(tree).is_some() {
            if !recs[r].can_move_to(p) {
                proof {
                    if can_move_all(*tree, start, list@, p, list@.len()) {
                        lemma_can_move_prefix(*tree, start, list@, p, list@.len(), (k + 1) as nat);
                    }
                }
                return false;
            }
            let mut moved = recs[r];
            moved.move_to(p);
            recs.set(r, moved);
        }
        k = k + 1;
    }
    true
}

/// Whether `handle_event` can take the event in: a press needs no touch 0
/// yet and a view hierarchy whose hit test and superview chains end; a
/// release needs touch 0; a motion needs every pan it drives to stay within
/// `i32`.
pub fn can_handle_event(tree: &ViewTree, arena: &EventArena, event: InputEvent) -> (b: bool)
    requires
        tree.wf(),
        touches_follow_tree(*tree, *arena),
    ensures
        b == can_handle(*tree, *arena, event),
{
    match event {
        InputEvent::MouseButtonDown { window, position } => {
            if arena.contains_touch(0) {
                return false;
            }
            match tree.try_hit_test(window, &position) {
                None => false,
                Some(None) => true,
                Some(Some(v)) => chain_ends(tree, v, tree.nodes.len()),
            }
        },
        InputEvent::MouseButtonUp { .. } => arena.contains_touch(0),
        InputEvent::MouseMotion { position } => {
            let touches = match &arena.touch_event {
                Some(e) => &e.touches,
                None => {
                    return true;
                },
            };
            if touches.len() == 0 {
                return true;
            }
            let first = &touches[0];
            let moves = first.id == 0 && (match first.phase {
                TouchPhase::Began => true,
                TouchPhase::Moved => true,
                _ => false,
            });
            let p = if moves {
                position
            } else {
                first.position
            };
            assert(indexes_in(first.gesture_recognizers@, tree.recognizers@.len()));
            moves_can_be_followed(tree, &first.gesture_recognizers, p)
        },
        _ => true,
    }
}

/// Takes one input event in, and says what is left to do: a quit asks the
/// application to exit, the mouse drives touch 0, a multi-finger gesture is
/// only reported, and anything else is let go.
pub fn handle_event(
    app: &Application,
    tree: &mut ViewTree,
    arena: &mut EventArena,
    event: InputEvent,
) -> (responses: Vec<Response>)
    requires
        can_handle(*old(tree), *old(arena), event),
    ensures
        final(tree).wf(),
        touches_follow_tree(*final(tree), *final(arena)),
        match event {
            InputEvent::Quit => {
                &&& responses@ == seq![Response::Exit]
                &&& *final(tree) == *old(tree)
                &&& *final(arena) == *old(arena)
            },
            InputEvent::MouseButtonDown { window, position } => press_outcome(
                *old(tree),
                *old(arena),
                *final(tree),
                *final(arena),
                window,
                position,
                responses@,
            ),
            InputEvent::MouseButtonUp { position } => release_outcome(
                *old(tree),
                *old(arena),
                *final(tree),
                *final(arena),
                position,
                responses@,
            ),
            InputEvent::MouseMotion { position } => motion_outcome(
                *old(tree),
                *old(arena),
                *final(tree),
                *final(arena),
                position,
                responses@,
            ),
            InputEvent::MultiGesture => {
                &&& responses@ == seq![Response::MultiGesture]
                &&& *final(tree) == *old(tree)
                &&& *final(arena) == *old(arena)
            },
            InputEvent::Other => {
                &&& responses@.len() == 0
                &&& *final(tree) == *old(tree)
                &&& *final(arena) == *old(arena)
            },
        },
{
    match event {
        InputEvent::Quit => {
            let mut responses: Vec<Response> = Vec::new();
            responses.push(Response::Exit);
            responses
        },
        InputEvent::MouseButtonDown { window, position } => mouse_button_down(
            app,
            tree,
            arena,
            window,
            position,
        ),
        InputEvent::MouseButtonUp { position } => mouse_button_up(tree, arena, position),
        InputEvent::MouseMotion { position } => mouse_motion(tree, arena, position),
        InputEvent::MultiGesture => {
            let mut responses: Vec<Response> = Vec::new();
            responses.push(Response::MultiGesture);
            responses
        },
        InputEvent::Other => Vec::new(),
    }
}

proof fn lemma_filter_keeps_live(s: Seq<Touch>)
    requires
        forall|i: int| 0 <= i < s.len() ==> (#[trigger] s[i]).phase != TouchPhase::Ended,
    ensures
        s.filter(|t: Touch| t.phase != TouchPhase::Ended) == s,
    decreases s.len(),
{
    if s.len() > 0 {
        let pred = |t: Touch| t.phase != TouchPhase::Ended;
        let rest = s.drop_last();
        lemma_filter_keeps_live(rest);
        rest.lemma_filter_push(s.last(), pred);
        assert(rest.push(s.last()) =~= s);
    }
}

/// A click leaves no touch behind: after the mouse goes down and up again,
/// the next update's cleanup gives back exactly the touches there were
/// before the press, when none of those had ended.
pub proof fn lemma_click_leaves_no_touch(
    tree: ViewTree,
    arena: EventArena,
    pressed_tree: ViewTree,
    pressed_arena: EventArena,
    released_tree: ViewTree,
    released_arena: EventArena,
    window: ViewHandle,
    down_at: Point,
    up_at: Point,
    down_responses: Seq<Response>,
    up_responses: Seq<Response>,
)
    requires
        can_press(tree, arena, window, down_at),
        forall|i: int|
            0 <= i < arena.touches_of().len() ==> (#[trigger] arena.touches_of()[i]).phase
                != TouchPhase::Ended,
        press_outcome(tree, arena, pressed_tree, pressed_arena, window, down_at, down_responses),
        release_outcome(
            pressed_tree,
            pressed_arena,
            released_tree,
            released_arena,
            up_at,
            up_responses,
        ),
    ensures
        released_arena.touches_of().filter(|t: Touch| t.phase != TouchPhase::Ended)
            == arena.touches_of(),
{
    let before = arena.touches_of();
    let pressed = pressed_arena.touches_of();
    let released = released_arena.touches_of();
    let n = before.len() as int;
    assert(pressed =~= before.push(pressed.last()));
    assert forall|i: int| 0 <= i < n implies #[trigger] released[i] == before[i] by {
        assert(pressed[i] == before[i]);
        if before[i].id == 0 {
            assert(has_touch(before, 0));
        }
        assert(!crate::touch::first_with_id(pressed, 0, i));
    }
    assert(crate::touch::first_with_id(pressed, 0, n)) by {
        assert forall|j: int| 0 <= j < n implies pressed[j].id != 0 by {
            assert(pressed[j] == before[j]);
            if before[j].id == 0 {
                assert(has_touch(before, 0));
            }
        }
    }
    assert(released[n].phase == TouchPhase::Ended);
    assert(released =~= before.push(released[n]));
    let pred = |t: Touch| t.phase != TouchPhase::Ended;
    before.lemma_filter_push(released[n], pred);
    lemma_filter_keeps_live(before);
}

} // verus!
