use pelican::color::Color;
use pelican::geometry::{Point, Rectangle, Size};
use pelican::handle::WeakView;
use pelican::view::ViewTree;

fn three_deep(tree: &mut ViewTree) -> [pelican::handle::ViewHandle; 4] {
    let main = tree.new_view(Rectangle { origin: Point { x: 0, y: 0 }, size: Size { width: 100, height: 100 } });
    let a = tree.new_view(Rectangle { origin: Point { x: 0, y: 1 }, size: Size { width: 10, height: 10 } });
    let b = tree.new_view(Rectangle { origin: Point { x: 1, y: 0 }, size: Size { width: 10, height: 10 } });
    let c = tree.new_view(Rectangle { origin: Point { x: 1, y: 0 }, size: Size { width: 10, height: 10 } });
    tree.add_subview(main, a);
    tree.add_subview(a, b);
    tree.add_subview(b, c);
    [main, a, b, c]
}

#[test]
fn test_get_location_in_window() {
    let mut tree = ViewTree::new();
    let [_main, a, b, c] = three_deep(&mut tree);
    assert_eq!(tree.get_location_in_window(a), Point { x: 0 as i32, y: 1 as i32 });
    assert_eq!(tree.get_location_in_window(b), Point { x: 1 as i32, y: 1 as i32 });
    assert_eq!(tree.get_location_in_window(c), Point { x: 2 as i32, y: 1 as i32 });
}

#[test]
fn test_convert_point_to() {
    let mut tree = ViewTree::new();
    let [main, a, b, c] = three_deep(&mut tree);
    assert_eq!(tree.convert_point_to(a, &Point { x: 0, y: 0 }, main), Point { x: 0, y: 1 });
    assert_eq!(tree.convert_point_to(b, &Point { x: 0, y: 0 }, main), Point { x: 1, y: 1 });
    assert_eq!(tree.convert_point_to(c, &Point { x: 0, y: 0 }, main), Point { x: 2, y: 1 });

    assert_eq!(tree.convert_point_to(main, &Point { x: 2, y: 2 }, c), Point { x: 0, y: 1 });
}

#[test]
fn test_point_inside() {
    let mut tree = ViewTree::new();
    let frame = Rectangle::new(0, 0, 1000, 1000);
    let parent_view = tree.new_view(frame);

    // Red view in the top left
    let frame = Rectangle::new(10, 10, 100, 100);
    let red = tree.new_view(frame);
    tree.set_background_color(red, Color::red());
    tree.add_subview(parent_view, red);

    let point = Point { x: 5, y: 5 };
    let point = tree.convert_point_to(parent_view, &point, red);
    assert!(!tree.is_point_inside(red, &point));

    let point = Point { x: 50, y: 50 };
    let point = tree.convert_point_to(parent_view, &point, red);
    assert!(tree.is_point_inside(red, &point));
}

#[test]
fn test_hit_test() {
    let mut tree = ViewTree::new();
    let frame = Rectangle::new(0, 0, 1000, 1000);
    let parent_view = tree.new_view(frame);

    // Red view in the top left
    let frame = Rectangle::new(10, 10, 100, 100);
    let red = tree.new_view(frame);
    tree.set_background_color(red, Color::red());
    tree.add_subview(parent_view, red);

    let point = Point { x: 5, y: 5 };
    let result = tree.hit_test(parent_view, &point).unwrap();
    assert_eq!(result, parent_view);

    let point = Point { x: 50, y: 50 };
    let result = tree.hit_test(parent_view, &point).unwrap();
    assert_eq!(result, red);
}

#[test]
fn test_set_frame() {
    let mut tree = ViewTree::new();
    let frame = Rectangle::new(0, 0, 1000, 1000);
    let view = tree.new_view(frame);

    let new_frame = Rectangle::new(10, 10, 100, 100);
    tree.set_frame(view, new_frame.clone());

    assert_eq!(tree.frame(view), new_frame);
}

#[test]
fn test_subviews() {
    let mut tree = ViewTree::new();
    let frame = Rectangle::new(0, 0, 1000, 1000);
    let view = tree.new_view(frame);

    let subview = tree.new_view(Rectangle::new(0, 0, 100, 100));
    tree.add_subview(view, subview.clone());

    assert_eq!(tree.subviews(view).len(), 1);
    assert_eq!(tree.subviews(view).get(0).unwrap(), &subview);

    tree.remove_from_superview(subview);
    assert_eq!(tree.subviews(view).len(), 0);
}

#[test]
fn test_bounds() {
    let mut tree = ViewTree::new();
    let frame = Rectangle::new(100, 100, 500, 500);
    let view = tree.new_view(frame);

    // By default the same size as the frame, with 0, 0 origin.
    assert_eq!(tree.bounds(view), Rectangle::new(0, 0, 500, 500));

    tree.set_bounds(view, Rectangle::new(10, 10, 100, 100));

    assert_eq!(tree.bounds(view), Rectangle::new(10, 10, 100, 100));
}

#[test]
fn view_weak_view_upgrade() {
    let tree = ViewTree::new();
    let weak_view = WeakView::none();
    assert!(weak_view.upgrade(&tree).is_none());
}

#[test]
fn mod_weak_view_upgrade() {
    let tree = ViewTree::new();
    let weak_view = WeakView::none();
    assert!(weak_view.upgrade(&tree).is_none());
}

/// When there are no more strong references, the weak view can no longer
/// be upgraded.
fn check_weak_dying() {
    let mut tree = ViewTree::new();
    let mut weak = WeakView::none();
    assert_eq!(weak.upgrade(&tree).is_some(), false);

    {
        let frame = Rectangle { origin: Point { x: 10, y: 10 }, size: Size { width: 50, height: 50 } };
        let strong = tree.new_view(frame.clone());
        weak = strong.downgrade();

        assert_eq!(weak.upgrade(&tree).is_some(), true);
        // The last strong handle goes.
        tree.release(strong);
    }

    assert_eq!(weak.upgrade(&tree).is_some(), false)
}

#[test]
fn view_weak_dying() {
    check_weak_dying();
}

#[test]
fn mod_weak_dying() {
    check_weak_dying();
}

#[test]
fn released_view_lets_go_of_its_subviews() {
    let mut tree = ViewTree::new();
    let parent = tree.new_view(Rectangle::new(0, 0, 100, 100));
    let child = tree.new_view(Rectangle::new(0, 0, 10, 10));
    tree.add_subview(parent, child);
    tree.release(parent);
    assert!(!tree.is_valid(parent));
    assert!(tree.is_valid(child));
    assert!(tree.superview(child).is_none(&tree));
    assert_eq!(parent.downgrade().id(&tree), None);
    assert_eq!(child.downgrade().id(&tree), Some(child.id));
}

fn check_strong_vs_weak_ids() {
    let mut tree = ViewTree::new();
    let frame = Rectangle { origin: Point { x: 10, y: 10 }, size: Size { width: 50, height: 50 } };

    let strong = tree.new_view(frame.clone());
    let weak = strong.downgrade();
    let strong_again = weak.upgrade(&tree).unwrap();
    let strong_clone = strong.clone();

    assert_eq!(Some(strong.id), weak.id(&tree));
    assert_eq!(weak.id(&tree), Some(strong_again.id));
    assert_eq!(strong.id, strong_clone.id);

    let different = tree.new_view(frame.clone());

    assert_ne!(strong.id, different.id);
}

#[test]
fn view_strong_vs_weak_ids() {
    check_strong_vs_weak_ids();
}

#[test]
fn mod_strong_vs_weak_ids() {
    check_strong_vs_weak_ids();
}

fn check_parent_child_relationship() {
    let mut tree = ViewTree::new();
    let frame = Rectangle { origin: Point { x: 10, y: 10 }, size: Size { width: 50, height: 50 } };

    let view_parent = tree.new_view(frame.clone());
    let view_child = tree.new_view(frame.clone());

    tree.add_subview(view_parent, view_child.clone());

    let childs_parent = tree.superview(view_child);
    assert_eq!(view_parent, childs_parent.upgrade(&tree).unwrap());

    let contains_child = tree.subviews(view_parent).contains(&view_child);
    assert_eq!(contains_child, true);
}

#[test]
fn view_parent_child_relationship() {
    check_parent_child_relationship();
}

#[test]
fn mod_parent_child_relationship() {
    check_parent_child_relationship();
}

#[test]
fn test_weak_view_upgrade() {
    let mut tree = ViewTree::new();
    let frame = Rectangle::new(0, 0, 100, 100);
    let view = tree.new_view(frame);
    let weak_view = view.downgrade();
    assert!(weak_view.upgrade(&tree).is_some());
    assert_eq!(weak_view.upgrade(&tree).unwrap(), view);
}

#[test]
fn test_weak_view_is_none() {
    let tree = ViewTree::new();
    let weak_view = WeakView::none();
    assert!(weak_view.is_none(&tree));
}

#[test]
fn weak_view_test_clone() {
    let mut tree = ViewTree::new();
    let frame = Rectangle::new(0, 0, 100, 100);
    let view = tree.new_view(frame);
    let weak_view = view.downgrade();
    let weak_view_clone = weak_view.clone();
    assert!(weak_view_clone.upgrade(&tree).is_some());
    assert_eq!(weak_view_clone.upgrade(&tree).unwrap(), view);
}

#[test]
fn hit_test_skips_hidden_and_non_interactive_views() {
    let mut tree = ViewTree::new();
    let parent = tree.new_view(Rectangle::new(0, 0, 100, 100));
    let front = tree.new_view(Rectangle::new(0, 0, 50, 50));
    let back = tree.new_view(Rectangle::new(0, 0, 50, 50));
    tree.add_subview(parent, back);
    tree.add_subview(parent, front);
    // The frontmost (last added) subview wins.
    assert_eq!(tree.hit_test(parent, &Point::new(10, 10)), Some(front));
    tree.set_hidden(front, true);
    assert!(tree.is_hidden(front));
    assert_eq!(tree.hit_test(parent, &Point::new(10, 10)), Some(back));
    tree.set_user_interaction_enabled(back, false);
    assert_eq!(tree.hit_test(parent, &Point::new(10, 10)), Some(parent));
    // Outside the parent's bounds nothing is hit.
    assert_eq!(tree.hit_test(parent, &Point::new(100, 10)), None);
    tree.set_hidden(parent, true);
    assert_eq!(tree.hit_test(parent, &Point::new(10, 10)), None);
}

#[test]
fn hit_test_uses_bounds_origin() {
    let mut tree = ViewTree::new();
    let parent = tree.new_view(Rectangle::new(0, 0, 100, 100));
    tree.set_bounds(parent, Rectangle::new(50, 50, 100, 100));
    assert_eq!(tree.hit_test(parent, &Point::new(10, 10)), None);
    assert_eq!(tree.hit_test(parent, &Point::new(60, 60)), Some(parent));
}

#[test]
fn cyclic_chain_has_no_location() {
    let mut tree = ViewTree::new();
    let a = tree.new_view(Rectangle::new(0, 0, 10, 10));
    let b = tree.new_view(Rectangle::new(1, 1, 10, 10));
    tree.add_subview(a, b);
    tree.add_subview(b, a);
    assert_eq!(tree.location_in_window(a), None);
    assert_eq!(tree.try_convert_point(a, &Point::new(0, 0), b), None);
}

#[test]
fn location_overflow_is_refused() {
    let mut tree = ViewTree::new();
    let a = tree.new_view(Rectangle::new(i32::MAX, 0, 10, 10));
    let b = tree.new_view(Rectangle::new(1, 0, 10, 10));
    tree.add_subview(a, b);
    assert_eq!(tree.location_in_window(a), Some(Point::new(i32::MAX, 0)));
    assert_eq!(tree.location_in_window(b), None);
}

#[test]
fn remove_from_superview_keeps_other_subviews() {
    let mut tree = ViewTree::new();
    let parent = tree.new_view(Rectangle::new(0, 0, 100, 100));
    let one = tree.new_view(Rectangle::new(0, 0, 10, 10));
    let two = tree.new_view(Rectangle::new(0, 0, 10, 10));
    tree.add_subview(parent, one);
    tree.add_subview(parent, two);
    tree.remove_from_superview(one);
    assert_eq!(tree.subviews(parent), &vec![two]);
    // The removed view no longer has a superview.
    assert!(tree.superview(one).is_none(&tree));
    assert_eq!(tree.superview(two).upgrade(&tree), Some(parent));
    // A view never added anywhere has no superview; removing it does nothing.
    let lone = tree.new_view(Rectangle::new(0, 0, 1, 1));
    tree.remove_from_superview(lone);
    assert!(tree.superview(lone).is_none(&tree));
}

#[test]
fn new_view_defaults() {
    let mut tree = ViewTree::new();
    let v = tree.new_view(Rectangle::new(3, 4, 5, 6));
    assert_eq!(tree.nodes[v.index].background_color, Color::white());
    assert!(!tree.is_hidden(v));
    assert!(tree.nodes[v.index].user_interaction_enabled);
    assert_eq!(tree.gesture_recognizers(v).len(), 0);
}
