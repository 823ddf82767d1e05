use pelican::geometry::{Point, Rectangle};
use pelican::pan::PanRecognizer;
use pelican::touch::{EventArena, Touch, TouchEvent, TouchPhase};
use pelican::view::ViewTree;

#[test]
fn test_get_position() {
    let touch = Touch::new(0, Point { x: 5, y: 5 });
    assert_eq!(touch.position(), Point { x: 5, y: 5 });
}

#[test]
fn test_eq() {
    let touch1 = Touch::new(0, Point { x: 5, y: 5 });
    let touch2 = Touch::new(0, Point { x: 5, y: 5 });
    assert_eq!(touch1, touch2);
}

#[test]
fn touch_test_debug() {
    let touch = Touch::new(0, Point { x: 5, y: 5 });
    assert_eq!(touch.debug_string(), "Touch(0)");
}

#[test]
fn test_get_id() {
    let touch = Touch::new(2, Point { x: 5, y: 5 });
    assert_eq!(touch.id(), 2);
}

#[test]
fn test_get_view() {
    let mut tree = ViewTree::new();
    let view = tree.new_view(Rectangle::new(0, 0, 100, 100));
    let mut touch = Touch::new(0, Point { x: 5, y: 5 });
    touch.set_view(view.clone());
    assert_eq!(touch.view(), Some(view));
}

#[test]
fn test_set_phase() {
    let mut touch = Touch::new(0, Point { x: 5, y: 5 });
    touch.set_phase(TouchPhase::Moved);
    assert_eq!(touch.phase(), TouchPhase::Moved);
}

#[test]
fn test_phase() {
    let touch = Touch::new(0, Point { x: 5, y: 5 });
    assert_eq!(touch.phase(), TouchPhase::Began);
}

#[test]
fn test_set_recognizers() {
    let mut tree = ViewTree::new();
    let view = tree.new_view(Rectangle::new(0, 0, 100, 100));
    let mut touch = Touch::new(0, Point { x: 5, y: 5 });
    let recognizer = tree.add_gesture_recognizer(view, PanRecognizer::new());
    assert_eq!(touch.gesture_recognizers().len(), 0);
    touch.set_gesture_recognizers(vec![recognizer]);
    assert_eq!(touch.gesture_recognizers().len(), 1);
}

#[test]
fn touch_test_clone() {
    let touch = Touch::new(0, Point { x: 5, y: 5 });
    let clone = touch.clone();
    assert_eq!(touch, clone);
}

#[test]
fn test_event_arena_touch_event() {
    let mut arena = EventArena { touch_event: None };
    let touch_event = arena.touch_event();
    assert_eq!(touch_event.touches().len(), 0);
}

#[test]
fn test_event_arena_touch_began() {
    let mut arena = EventArena { touch_event: None };
    let touch = Touch::new(0, Point::new(0, 0));
    arena.touch_began(touch);
    let touch_event = arena.touch_event();
    assert_eq!(touch_event.touches().len(), 1);
}

#[test]
fn test_event_arena_touch_moved() {
    let mut arena = EventArena { touch_event: None };
    let touch = Touch::new(0, Point::new(0, 0));
    arena.touch_began(touch);
    arena.touch_moved(0, Point::new(10, 50));
    let touch_event = arena.touch_event();
    assert_eq!(touch_event.touches().len(), 1);
    assert_eq!(touch_event.touches()[0].position(), Point::new(10, 50));
}

#[test]
fn test_event_arena_touch_ended() {
    let mut arena = EventArena { touch_event: None };
    let touch = Touch::new(0, Point::new(0, 0));
    arena.touch_began(touch);
    arena.touch_ended(0, Point::new(10, 50));
    let touch_event = arena.touch_event();
    assert_eq!(touch_event.touches().len(), 1);
    assert_eq!(touch_event.touches()[0].position(), Point::new(10, 50));
    assert_eq!(touch_event.touches()[0].phase(), TouchPhase::Ended);
}

#[test]
fn test_event_arena_cleanup_ended_touches() {
    let mut arena = EventArena { touch_event: None };
    let touch = Touch::new(0, Point::new(0, 0));
    arena.touch_began(touch);
    let touch = Touch::new(1, Point::new(0, 0));
    arena.touch_began(touch);
    assert_eq!(arena.touch_event().touches().len(), 2);
    arena.cleanup_ended_touches();
    assert_eq!(arena.touch_event().touches().len(), 2);
    arena.touch_ended(0, Point::new(10, 50));
    arena.cleanup_ended_touches();
    assert_eq!(arena.touch_event().touches().len(), 1);
}

#[test]
fn event_arena_moved_touch_stays_once_ended() {
    let mut arena = EventArena::new();
    arena.touch_began(Touch::new(3, Point::new(0, 0)));
    arena.touch_ended(3, Point::new(1, 1));
    arena.touch_moved(3, Point::new(9, 9));
    let event = arena.touch_event();
    assert_eq!(event.touches()[0].position(), Point::new(1, 1));
    assert_eq!(event.touches()[0].phase(), TouchPhase::Ended);
}

#[test]
fn event_arena_unknown_touch_moves_nothing() {
    let mut arena = EventArena::new();
    arena.touch_began(Touch::new(1, Point::new(0, 0)));
    arena.touch_moved(2, Point::new(9, 9));
    let event = arena.touch_event();
    assert_eq!(event.touches()[0].position(), Point::new(0, 0));
    assert_eq!(event.touches()[0].phase(), TouchPhase::Began);
}

#[test]
fn touch_event_starts_empty() {
    assert_eq!(TouchEvent::new().touches().len(), 0);
}

#[test]
fn test_touch_event_clone() {
    // The arena keeps one touch event: whoever asks for it later sees the
    // touches added since.
    let mut arena = EventArena::new();
    let touch_event = arena.touch_event().touches().clone();
    assert_eq!(touch_event.len(), 0);

    let touch = Touch::new(0, Point::new(0, 0));
    arena.touch_began(touch);
    let touch_event = arena.touch_event().touches().clone();
    let touch_event_clone = arena.touch_event().touches().clone();

    assert_eq!(touch_event.len(), 1);
    for (index, touch) in touch_event.iter().enumerate() {
        assert_eq!(touch.id(), touch_event[index].id());
        assert_eq!(touch.id(), touch_event_clone[index].id());
    }
}
