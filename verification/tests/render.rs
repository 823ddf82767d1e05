use pelican::geometry::Rectangle;
use pelican::render::{window_display, DrawStep};
use pelican::view::ViewTree;

#[test]
fn drawing_a_window_draws_its_visible_views() {
    let mut tree = ViewTree::new();
    let window = tree.new_view(Rectangle::new(0, 0, 100, 100));
    let a = tree.new_view(Rectangle::new(10, 20, 30, 30));
    let b = tree.new_view(Rectangle::new(0, 0, 5, 5));
    let c = tree.new_view(Rectangle::new(1, 2, 3, 4));
    tree.add_subview(window, a);
    tree.add_subview(window, b);
    tree.add_subview(a, c);
    tree.set_hidden(b, true);
    tree.set_bounds(window, Rectangle::new(5, 5, 100, 100));

    let all = vec![true; 4];
    let steps = window_display(&tree, window, &all).unwrap();
    assert_eq!(
        steps,
        vec![
            DrawStep::Draw(window),
            DrawStep::Draw(a),
            DrawStep::Draw(c),
            DrawStep::Composite { parent: a, child: c, frame: Rectangle::new(1, 2, 3, 4) },
            DrawStep::Composite { parent: window, child: a, frame: Rectangle::new(5, 15, 30, 30) },
        ]
    );

    // A view whose layer is up to date is laid in as it is.
    let only_window = vec![true, false, false, false];
    let steps = window_display(&tree, window, &only_window).unwrap();
    assert_eq!(
        steps,
        vec![
            DrawStep::Draw(window),
            DrawStep::Composite { parent: window, child: a, frame: Rectangle::new(5, 15, 30, 30) },
        ]
    );
}

#[test]
fn a_hidden_window_draws_nothing() {
    let mut tree = ViewTree::new();
    let window = tree.new_view(Rectangle::new(0, 0, 100, 100));
    tree.set_hidden(window, true);
    assert_eq!(window_display(&tree, window, &vec![true]).unwrap(), vec![]);
}

#[test]
fn a_window_that_needs_no_display_draws_nothing() {
    let mut tree = ViewTree::new();
    let window = tree.new_view(Rectangle::new(0, 0, 100, 100));
    assert_eq!(window_display(&tree, window, &vec![false]).unwrap(), vec![]);
}
