use pelican::geometry::{Point, Rectangle};
use pelican::pan::{PanRecognizer, PanState};
use pelican::touch::{Touch, TouchEvent};
use pelican::view::ViewTree;

#[test]
fn test_default_state() {
    let recognizer = PanRecognizer::new();
    assert_eq!(recognizer.state(), PanState::Possible);
}

#[test]
fn test_default_view() {
    let tree = ViewTree::new();
    let recognizer = PanRecognizer::new();
    assert!(recognizer.view().is_none(&tree));
}

#[test]
fn test_default_translation() {
    let mut tree = ViewTree::new();
    let frame = Rectangle::new(0, 0, 100, 100);
    let view = tree.new_view(frame);
    let recognizer = PanRecognizer::new();
    assert_eq!(recognizer.translation_in(&view), Point::new(0, 0));
}

#[test]
fn test_translation() {
    {
        let mut tree = ViewTree::new();
        let mut recognizer = PanRecognizer::new();
        let frame = Rectangle::new(0, 0, 100, 100);
        let view = tree.new_view(frame);
        recognizer.set_translation(Point::new(1, 2), &view);
        assert_eq!(recognizer.translation_in(&view), Point::new(1, 2));
    }

    {
        let mut tree = ViewTree::new();
        let view = tree.new_view(Rectangle::new(0, 0, 100, 100));
        let index = tree.add_gesture_recognizer(view, PanRecognizer::new());
        let mut recognizer = *tree.recognizer(index);
        recognizer.set_translation(Point::new(1, 2), &view);
        tree.set_recognizer(index, recognizer);
        assert_eq!(tree.recognizer(index).translation_in(&view), Point::new(1, 2));
    }

    {
        let mut tree = ViewTree::new();
        let parent_view = tree.new_view(Rectangle::new(0, 0, 100, 100));
        let child_view = tree.new_view(Rectangle::new(10, 10, 10, 10));
        tree.add_subview(parent_view, child_view);

        let index = tree.add_gesture_recognizer(parent_view, PanRecognizer::new());
        let mut recognizer = *tree.recognizer(index);
        recognizer.set_translation(Point::new(1, 2), &child_view);
        tree.set_recognizer(index, recognizer);
        assert_eq!(tree.recognizer(index).translation_in(&child_view), Point::new(1, 2));
        assert_eq!(tree.recognizer(index).translation_in(&parent_view), Point::new(1, 2));
    }
}

#[test]
fn test_touches_began() {
    let mut tree = ViewTree::new();
    let frame = Rectangle::new(0, 0, 100, 100);
    let view = tree.new_view(frame);
    let index = tree.add_gesture_recognizer(view, PanRecognizer::new());
    let mut recognizer = *tree.recognizer(index);

    let event = TouchEvent::new();
    let touches = vec![Touch::new(0, Point::new(10, 10))];
    recognizer.touches_began(&touches, &event);

    assert_eq!(recognizer.state(), PanState::Possible);
}

#[test]
fn test_touches_began_when_previously_failed() {
    //TODO: assert_eq!(true, false)
}

#[test]
fn pan_begins_only_past_the_threshold() {
    let mut recognizer = PanRecognizer::new();
    let event = TouchEvent::new();
    recognizer.touches_began(&vec![Touch::new(0, Point::new(100, 100))], &event);

    // Ten points along an axis is not yet a pan.
    let run = recognizer.touches_moved(&vec![Touch::new(0, Point::new(110, 90))], &event);
    assert!(!run);
    assert_eq!(recognizer.state(), PanState::Possible);
    assert_eq!(recognizer.translation_in(&pelican::handle::ViewHandle { index: 0, id: 0 }), Point::new(10, -10));

    // Eleven points begins it.
    let run = recognizer.touches_moved(&vec![Touch::new(0, Point::new(89, 100))], &event);
    assert!(run);
    assert_eq!(recognizer.state(), PanState::Began);
    assert_eq!(recognizer.translation, Point::new(-11, 0));

    // Then it changes with every move.
    let run = recognizer.touches_moved(&vec![Touch::new(0, Point::new(90, 100))], &event);
    assert!(run);
    assert_eq!(recognizer.state(), PanState::Changed);

    // Once ended, moves run nothing.
    recognizer.touches_ended(&vec![], &event);
    assert_eq!(recognizer.state(), PanState::Ended);
    let run = recognizer.touches_moved(&vec![Touch::new(0, Point::new(0, 0))], &event);
    assert!(!run);
    assert_eq!(recognizer.state(), PanState::Ended);
}

#[test]
fn pan_set_translation_measures_anew() {
    let mut recognizer = PanRecognizer::new();
    let event = TouchEvent::new();
    let view = pelican::handle::ViewHandle { index: 0, id: 0 };
    recognizer.touches_began(&vec![Touch::new(0, Point::new(0, 0))], &event);
    recognizer.touches_moved(&vec![Touch::new(0, Point::new(20, 0))], &event);
    recognizer.set_translation(Point::new(0, 0), &view);
    recognizer.touches_moved(&vec![Touch::new(0, Point::new(25, 3))], &event);
    assert_eq!(recognizer.translation_in(&view), Point::new(5, 3));
}

#[test]
fn pan_scroll_mirrors_horizontally() {
    let mut recognizer = PanRecognizer::new();
    assert!(recognizer.scroll_did_translate(&Point::new(3, 4)));
    assert_eq!(recognizer.translation, Point::new(-3, 4));
    assert!(recognizer.cancels_touches_in_view());
}

#[test]
fn move_to_follows_the_touch_and_can_move_to_guards_i32() {
    let mut recognizer = PanRecognizer::new();
    let event = TouchEvent::new();
    recognizer.touches_began(&vec![Touch::new(0, Point::new(0, 0))], &event);
    assert!(recognizer.can_move_to(Point::new(20, 0)));
    assert!(recognizer.move_to(Point::new(20, 0)));
    assert_eq!(recognizer.state(), PanState::Began);
    assert_eq!(recognizer.translation, Point::new(20, 0));

    let mut far = PanRecognizer::new();
    far.touches_began(&vec![Touch::new(0, Point::new(10, 0))], &event);
    // Measured from 10, the left edge of i32 lies out of range.
    assert!(!far.can_move_to(Point::new(i32::MIN, 0)));
    assert!(far.can_move_to(Point::new(i32::MIN + 10, 0)) == false);
    assert!(far.can_move_to(Point::new(i32::MIN + 11, 0)));
}
