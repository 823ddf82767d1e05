use pelican::application::Application;
use pelican::events::{can_handle_event, handle_event, start_update, InputEvent, Response};
use pelican::geometry::{Point, Rectangle};
use pelican::handle::ViewHandle;
use pelican::pan::{PanRecognizer, PanState};
use pelican::touch::{EventArena, TouchPhase};
use pelican::view::ViewTree;

fn scene() -> (Application, ViewTree, ViewHandle, ViewHandle, usize) {
    let mut tree = ViewTree::new();
    let window = tree.new_view(Rectangle::new(0, 0, 400, 400));
    let view = tree.new_view(Rectangle::new(100, 100, 100, 100));
    tree.add_subview(window, view);
    let pan = tree.add_gesture_recognizer(view, PanRecognizer::new());
    let mut app = Application::new();
    app.add_window(window);
    (app, tree, window, view, pan)
}

#[test]
fn quit_asks_to_exit() {
    let (app, mut tree, _, _, _) = scene();
    let mut arena = EventArena::new();
    let responses = handle_event(&app, &mut tree, &mut arena, InputEvent::Quit);
    assert_eq!(responses, vec![Response::Exit]);
}

#[test]
fn multi_gesture_is_only_reported() {
    let (app, mut tree, _, _, _) = scene();
    let mut arena = EventArena::new();
    let responses = handle_event(&app, &mut tree, &mut arena, InputEvent::MultiGesture);
    assert_eq!(responses, vec![Response::MultiGesture]);
    let responses = handle_event(&app, &mut tree, &mut arena, InputEvent::Other);
    assert!(responses.is_empty());
    assert!(!arena.contains_touch(0));
}

#[test]
fn press_on_a_view_begins_touch_zero() {
    let (app, mut tree, window, view, pan) = scene();
    let mut arena = EventArena::new();
    let responses = handle_event(
        &app,
        &mut tree,
        &mut arena,
        InputEvent::MouseButtonDown { window, position: Point::new(150, 150) },
    );
    assert_eq!(responses, vec![Response::TouchesBegan(view)]);
    assert!(arena.contains_touch(0));
    let touches = arena.touch_event().touches.clone();
    assert_eq!(touches.len(), 1);
    assert_eq!(touches[0].view, Some(view));
    assert_eq!(touches[0].window, Some(window));
    assert_eq!(touches[0].gesture_recognizers, vec![pan]);
    assert_eq!(tree.recognizer(pan).state, PanState::Possible);
    assert_eq!(tree.recognizer(pan).initial_position, Point::new(150, 150));
}

#[test]
fn press_outside_every_view_reaches_the_window() {
    let (app, mut tree, window, _, pan) = scene();
    let mut arena = EventArena::new();
    let responses = handle_event(
        &app,
        &mut tree,
        &mut arena,
        InputEvent::MouseButtonDown { window, position: Point::new(10, 10) },
    );
    assert_eq!(responses, vec![Response::TouchesBegan(window)]);
    let touches = arena.touch_event().touches.clone();
    assert!(touches[0].gesture_recognizers.is_empty());
    assert_eq!(tree.recognizer(pan).initial_position, Point::new(0, 0));
}

#[test]
fn press_outside_the_window_hits_nothing() {
    let (app, mut tree, window, _, _) = scene();
    let mut arena = EventArena::new();
    let responses = handle_event(
        &app,
        &mut tree,
        &mut arena,
        InputEvent::MouseButtonDown { window, position: Point::new(500, 500) },
    );
    assert!(responses.is_empty());
    let touches = arena.touch_event().touches.clone();
    assert_eq!(touches[0].view, None);
    assert_eq!(touches[0].window, Some(window));
}

#[test]
fn drag_runs_the_pan_action_past_the_threshold() {
    let (app, mut tree, window, view, pan) = scene();
    let mut arena = EventArena::new();
    handle_event(
        &app,
        &mut tree,
        &mut arena,
        InputEvent::MouseButtonDown { window, position: Point::new(150, 150) },
    );

    let small = handle_event(
        &app,
        &mut tree,
        &mut arena,
        InputEvent::MouseMotion { position: Point::new(155, 150) },
    );
    assert_eq!(small, vec![Response::TouchesMoved(view)]);
    assert_eq!(tree.recognizer(pan).state, PanState::Possible);
    assert_eq!(tree.recognizer(pan).translation, Point::new(5, 0));

    let far = handle_event(
        &app,
        &mut tree,
        &mut arena,
        InputEvent::MouseMotion { position: Point::new(170, 150) },
    );
    assert_eq!(far, vec![Response::RunPanAction(pan), Response::TouchesMoved(view)]);
    assert_eq!(tree.recognizer(pan).state, PanState::Began);
    assert_eq!(tree.recognizer(pan).translation, Point::new(20, 0));

    let again = handle_event(
        &app,
        &mut tree,
        &mut arena,
        InputEvent::MouseMotion { position: Point::new(171, 152) },
    );
    assert_eq!(again, vec![Response::RunPanAction(pan), Response::TouchesMoved(view)]);
    assert_eq!(tree.recognizer(pan).state, PanState::Changed);

    let up = handle_event(
        &app,
        &mut tree,
        &mut arena,
        InputEvent::MouseButtonUp { position: Point::new(172, 152) },
    );
    assert_eq!(up, vec![Response::TouchesEnded(view)]);
    assert_eq!(tree.recognizer(pan).state, PanState::Ended);
    let touches = arena.touch_event().touches.clone();
    assert_eq!(touches[0].phase, TouchPhase::Ended);
    assert_eq!(touches[0].position, Point::new(172, 152));

    start_update(&tree, &mut arena);
    assert!(!arena.contains_touch(0));
    assert!(arena.touch_event().touches.is_empty());
}

#[test]
fn motion_without_a_touch_does_nothing() {
    let (app, mut tree, _, _, pan) = scene();
    let mut arena = EventArena::new();
    let responses = handle_event(
        &app,
        &mut tree,
        &mut arena,
        InputEvent::MouseMotion { position: Point::new(300, 300) },
    );
    assert!(responses.is_empty());
    assert_eq!(tree.recognizer(pan).state, PanState::Possible);
    assert!(arena.touch_event().touches.is_empty());
}

#[test]
fn click_leaves_no_touch() {
    let (app, mut tree, window, view, pan) = scene();
    let mut arena = EventArena::new();
    start_update(&tree, &mut arena);
    let down = handle_event(
        &app,
        &mut tree,
        &mut arena,
        InputEvent::MouseButtonDown { window, position: Point::new(120, 130) },
    );
    assert_eq!(down, vec![Response::TouchesBegan(view)]);
    let up = handle_event(
        &app,
        &mut tree,
        &mut arena,
        InputEvent::MouseButtonUp { position: Point::new(120, 130) },
    );
    assert_eq!(up, vec![Response::TouchesEnded(view)]);
    assert_eq!(tree.recognizer(pan).state, PanState::Ended);
    start_update(&tree, &mut arena);
    assert!(arena.touch_event().touches.is_empty());
    let again = handle_event(
        &app,
        &mut tree,
        &mut arena,
        InputEvent::MouseButtonDown { window, position: Point::new(120, 130) },
    );
    assert_eq!(again, vec![Response::TouchesBegan(view)]);
    assert_eq!(arena.touch_event().touches.len(), 1);
}

#[test]
fn recognizers_of_a_released_view_stop_following_the_touch() {
    let (app, mut tree, window, view, pan) = scene();
    let mut arena = EventArena::new();
    handle_event(
        &app,
        &mut tree,
        &mut arena,
        InputEvent::MouseButtonDown { window, position: Point::new(150, 150) },
    );
    tree.remove_from_superview(view);
    tree.release(view);
    let before = *tree.recognizer(pan);
    let moved = handle_event(
        &app,
        &mut tree,
        &mut arena,
        InputEvent::MouseMotion { position: Point::new(190, 150) },
    );
    assert_eq!(moved, vec![Response::TouchesMoved(view)]);
    assert_eq!(tree.recognizer(pan).state, before.state);
    assert_eq!(tree.recognizer(pan).translation, before.translation);
}

#[test]
fn can_handle_event_says_which_events_can_be_taken_in() {
    let (app, mut tree, window, _, _) = scene();
    let mut arena = EventArena::new();
    let up = InputEvent::MouseButtonUp { position: Point::new(150, 150) };
    let down = InputEvent::MouseButtonDown { window, position: Point::new(150, 150) };
    // No touch yet: a release cannot be taken in; a press can.
    assert!(!can_handle_event(&tree, &arena, up));
    assert!(can_handle_event(&tree, &arena, down));
    assert!(can_handle_event(&tree, &arena, InputEvent::Quit));
    assert!(can_handle_event(&tree, &arena, InputEvent::MouseMotion { position: Point::new(1, 1) }));

    handle_event(&app, &mut tree, &mut arena, down);
    // Touch 0 is down: a second press cannot be taken in; a release can.
    assert!(!can_handle_event(&tree, &arena, down));
    assert!(can_handle_event(&tree, &arena, up));
    // A move the pan can measure, and one that leaves i32.
    assert!(can_handle_event(&tree, &arena, InputEvent::MouseMotion { position: Point::new(170, 150) }));
    assert!(!can_handle_event(&tree, &arena, InputEvent::MouseMotion { position: Point::new(i32::MIN, 150) }));
}

#[test]
fn can_handle_event_refuses_a_press_on_a_looping_hierarchy() {
    let mut tree = ViewTree::new();
    let window = tree.new_view(Rectangle::new(0, 0, 400, 400));
    let view = tree.new_view(Rectangle::new(0, 0, 100, 100));
    tree.add_subview(window, view);
    tree.add_subview(view, window);
    let arena = EventArena::new();
    let down = InputEvent::MouseButtonDown { window, position: Point::new(10, 10) };
    assert!(!can_handle_event(&tree, &arena, down));
}
