use pelican::color::Color;
use pelican::geometry::{Point, Rectangle, Size};
use pelican::pan::PanRecognizer;
use pelican::scroll::{ScrollBarDirection, ScrollView};
use pelican::view::ViewTree;

#[test]
fn test_vertical_scroll_bar_size() {
    let mut tree = ViewTree::new();
    let scroll_view = ScrollView::new(&mut tree, Rectangle::new(0, 0, 100, 100));

    assert_eq!(tree.frame(scroll_view.vertical_scroll_bar.view).size, Size::new(10, 100));

    assert_eq!(tree.frame(scroll_view.vertical_scroll_bar.handle).size, Size::new(10, 10));
}

#[test]
fn test_horizontal_scroll_bar_size() {
    let mut tree = ViewTree::new();
    let scroll_view = ScrollView::new(&mut tree, Rectangle::new(0, 0, 100, 100));

    assert_eq!(tree.frame(scroll_view.horizontal_scroll_bar.view).size, Size::new(100, 10));

    assert_eq!(tree.frame(scroll_view.vertical_scroll_bar.handle).size, Size::new(10, 10));
}

#[test]
fn test_content_offset() {
    // No content view meaning it's not scrollable
    {
        let mut tree = ViewTree::new();
        let scroll_view = ScrollView::new(&mut tree, Rectangle::new(0, 0, 100, 100));
        assert_eq!(scroll_view.content_offset(&tree), Point::new(0, 0));
        scroll_view.set_content_offset(&mut tree, Point::new(10, 10));
        assert_eq!(scroll_view.content_offset(&tree), Point::new(0, 0));
    }

    // With content view of the same size as the scroll view, meaning it's
    // not scrollable still.
    {
        let mut tree = ViewTree::new();
        let scroll_view = ScrollView::new(&mut tree, Rectangle::new(0, 0, 100, 100));
        let content_view = tree.new_view(Rectangle::new(0, 0, 100, 100));
        scroll_view.set_content_view(&mut tree, content_view);

        assert_eq!(scroll_view.content_offset(&tree), Point::new(0, 0));
        scroll_view.set_content_offset(&mut tree, Point::new(10, 10));
        assert_eq!(scroll_view.content_offset(&tree), Point::new(0, 0));
    }

    // With content view bigger than the scroll view
    {
        let mut tree = ViewTree::new();
        let scroll_view = ScrollView::new(&mut tree, Rectangle::new(0, 0, 100, 100));
        let content_view = tree.new_view(Rectangle::new(0, 0, 200, 200));
        scroll_view.set_content_view(&mut tree, content_view);

        assert_eq!(scroll_view.content_offset(&tree), Point::new(0, 0));
        scroll_view.set_content_offset(&mut tree, Point::new(10, 10));
        assert_eq!(scroll_view.content_offset(&tree), Point::new(10, 10));
    }
}

#[test]
fn scroll_view_layout() {
    let mut tree = ViewTree::new();
    let sv = ScrollView::new(&mut tree, Rectangle::new(5, 5, 300, 200));
    assert_eq!(
        tree.subviews(sv.view),
        &vec![sv.inner_content_view, sv.vertical_scroll_bar.view, sv.horizontal_scroll_bar.view]
    );
    assert_eq!(tree.frame(sv.vertical_scroll_bar.view), Rectangle::new(290, 0, 10, 200));
    assert_eq!(tree.frame(sv.horizontal_scroll_bar.view), Rectangle::new(0, 190, 300, 10));
    assert_eq!(tree.subviews(sv.vertical_scroll_bar.view), &vec![sv.vertical_scroll_bar.handle]);
    assert_eq!(
        tree.nodes[sv.vertical_scroll_bar.handle.index].background_color,
        Color::new(127, 127, 127, 127)
    );
    assert_eq!(tree.nodes[sv.view.index].background_color, Color::clear());
    assert_eq!(tree.nodes[sv.inner_content_view.index].background_color, Color::clear());
    assert_eq!(sv.vertical_scroll_bar.direction, ScrollBarDirection::Vertical);
    assert_eq!(sv.horizontal_scroll_bar.direction, ScrollBarDirection::Horizontal);
    assert_eq!(tree.gesture_recognizers(sv.view), &vec![sv.pan]);
    assert_eq!(tree.recognizer(sv.pan).view.upgrade(&tree), Some(sv.view));
    assert_eq!(sv.content_view(&tree), None);
    assert_eq!(sv.content_size(&tree), Size::new(0, 0));
}

#[test]
fn offsets_are_clamped_to_the_content() {
    let mut tree = ViewTree::new();
    let sv = ScrollView::new(&mut tree, Rectangle::new(0, 0, 100, 100));
    let content = tree.new_view(Rectangle::new(0, 0, 250, 130));
    sv.set_content_view(&mut tree, content);
    assert_eq!(sv.content_size(&tree), Size::new(250, 130));
    assert_eq!(tree.frame(sv.inner_content_view), Rectangle::new(0, 0, 250, 130));
    let pos = sv.set_content_offset(&mut tree, Point::new(500, -20));
    assert_eq!(pos.offset, Point::new(150, 0));
    assert_eq!(pos.range, Size::new(150, 30));
    assert_eq!(tree.bounds(sv.inner_content_view), Rectangle::new(150, 0, 100, 100));
}

#[test]
fn replacing_the_content_view() {
    let mut tree = ViewTree::new();
    let sv = ScrollView::new(&mut tree, Rectangle::new(0, 0, 100, 100));
    let first = tree.new_view(Rectangle::new(0, 0, 300, 300));
    let second = tree.new_view(Rectangle::new(0, 0, 120, 400));
    sv.set_content_view(&mut tree, first);
    sv.set_content_view(&mut tree, second);
    assert_eq!(sv.content_view(&tree), Some(second));
    assert_eq!(tree.subviews(sv.inner_content_view), &vec![second]);
    assert_eq!(sv.content_size(&tree), Size::new(120, 400));
}

#[test]
fn panning_moves_the_content_against_the_finger() {
    let mut tree = ViewTree::new();
    let sv = ScrollView::new(&mut tree, Rectangle::new(0, 0, 100, 100));
    let content = tree.new_view(Rectangle::new(0, 0, 400, 400));
    sv.set_content_view(&mut tree, content);
    let mut pan = *tree.recognizer(sv.pan);
    pan.set_translation(Point::new(-30, -40), &sv.view);
    tree.set_recognizer(sv.pan, pan);
    let pos = sv.pan(&mut tree).unwrap();
    assert_eq!(pos.offset, Point::new(30, 40));
    assert_eq!(sv.content_offset(&tree), Point::new(30, 40));
    assert_eq!(tree.recognizer(sv.pan).translation, Point::new(0, 0));
}

#[test]
fn a_pan_on_no_view_does_nothing() {
    let mut tree = ViewTree::new();
    let sv = ScrollView::new(&mut tree, Rectangle::new(0, 0, 100, 100));
    tree.set_recognizer(sv.pan, PanRecognizer::new());
    assert_eq!(sv.pan(&mut tree), None);
    assert_eq!(sv.content_offset(&tree), Point::new(0, 0));
}
