//! Scroll views: a view whose content view is moved about inside it by a
//! pan gesture, with a scroll bar along its right and bottom edges; how far
//! content can scroll, and where the scroll bars sit.

use vstd::prelude::*;
use crate::color::Color;
use crate::geometry::{Point, Rectangle, Size};
use crate::handle::ViewHandle;
use crate::pan::PanRecognizer;
use crate::view::{ViewNode, ViewTree, fits};

verus! {

/// The two scroll bars of a scroll view.
#[derive(Clone, Copy, Debug, PartialEq, Eq, Structural)]
pub enum ScrollBarDirection {
    Vertical,
    Horizontal,
}

/// How far content of one length scrolls in a view of another: nothing
/// where the content is no longer than the view.
pub open spec fn scroll_range(content: u32, view: u32) -> u32 {
    if content < view { 0 } else { (content - view) as u32 }
}

/// An offset coordinate kept within `0..=range`, with the range taken as
/// an `i32`.
pub open spec fn clamp_offset(o: i32, range: u32) -> i32 {
    let lower = if o < 0 { 0 } else { o };
    let upper = range as i32;
    if upper < lower { upper } else { lower }
}

/// The content offset a scroll view takes when asked for `offset`: each
/// coordinate kept between zero and how far the content can scroll.
pub fn content_offset_within(offset: Point, content_size: Size, view_size: Size) -> (p: Point)
    ensures
        p.x == clamp_offset(offset.x, scroll_range(content_size.width, view_size.width)),
        p.y == clamp_offset(offset.y, scroll_range(content_size.height, view_size.height)),
{
    let mut content_width = content_size.width;
    let mut content_height = content_size.height;
    if content_width < view_size.width {
        content_width = view_size.width;
    }
    if content_height < view_size.height {
        content_height = view_size.height;
    }
    let max_x = content_width - view_size.width;
    let max_y = content_height - view_size.height;
    let x = if offset.x < 0 { 0 } else { offset.x };
    let x = if (max_x as i32) < x { max_x as i32 } else { x };
    let y = if offset.y < 0 { 0 } else { offset.y };
    let y = if (max_y as i32) < y { max_y as i32 } else { y };
    Point { x, y }
}

/// The frame of a scroll bar in a scroll view of the given size: ten
/// points thick, along the right edge for the vertical bar and along the
/// bottom edge for the horizontal one.
pub fn scroll_bar_frame(direction: ScrollBarDirection, superview_size: Size) -> (r: Rectangle)
    requires
        direction == ScrollBarDirection::Vertical ==> superview_size.width as i32 - 10 >= i32::MIN,
        direction == ScrollBarDirection::Horizontal ==> superview_size.height as i32 - 10
            >= i32::MIN,
    ensures
        r == match direction {
            ScrollBarDirection::Vertical => Rectangle::new_spec(
                (superview_size.width as i32 - 10) as i32,
                0,
                10,
                superview_size.height,
            ),
            ScrollBarDirection::Horizontal => Rectangle::new_spec(
                0,
                (superview_size.height as i32 - 10) as i32,
                superview_size.width,
                10,
            ),
        },
{
    match direction {
        ScrollBarDirection::Vertical => Rectangle::new(
            superview_size.width as i32 - 10,
            0,
            10,
            superview_size.height,
        ),
        ScrollBarDirection::Horizontal => Rectangle::new(
            0,
            superview_size.height as i32 - 10,
            superview_size.width,
            10,
        ),
    }
}

/// A scrolled offset never leaves the content: each coordinate ends up
/// between zero and how far the content reaches, and an offset already
/// inside stays where it is (when that reach fits in an `i32`).
pub proof fn lemma_offset_stays_in_content(o: i32, range: u32)
    requires
        range <= i32::MAX,
    ensures
        0 <= clamp_offset(o, range) <= range,
        0 <= o <= range ==> clamp_offset(o, range) == o,
        clamp_offset(clamp_offset(o, range), range) == clamp_offset(o, range),
{
}

/// A scroll bar of a scroll view: its view, the handle inside it, which
/// way it runs, and how far along it the handle sits, in percent.
#[derive(Clone, Copy, Debug, PartialEq, Eq, Structural)]
pub struct ScrollBarView {
    pub view: ViewHandle,
    pub handle: ViewHandle,
    pub direction: ScrollBarDirection,
    pub percent: u8,
}

/// A scroll view: its view; the inner view that holds the content and is
/// moved by its bounds; its scroll bars; and the pan recognizer (its index
/// in the tree) that scrolls it.
#[derive(Clone, Copy, Debug, PartialEq, Eq, Structural)]
pub struct ScrollView {
    pub view: ViewHandle,
    pub inner_content_view: ViewHandle,
    pub vertical_scroll_bar: ScrollBarView,
    pub horizontal_scroll_bar: ScrollBarView,
    pub pan: usize,
}

/// Where a scroll view's content has been scrolled to, and how far it can
/// scroll along each axis.
#[derive(Clone, Copy, Debug, PartialEq, Eq, Structural)]
pub struct ScrollPosition {
    pub offset: Point,
    pub range: Size,
}

/// Every view an old tree had is still there, as the same view.
pub open spec fn keeps_views(tree: ViewTree, old_tree: ViewTree) -> bool {
    &&& old_tree.nodes@.len() <= tree.nodes@.len()
    &&& forall|i: int|
        0 <= i < old_tree.nodes@.len() ==> (#[trigger] tree.nodes@[i]).id == old_tree.nodes@[i].id
}

/// The size of the content of a scroll view whose inner view is `inner`:
/// that of its content view, or nothing when it has none.
pub open spec fn content_size_of(tree: ViewTree, inner: ViewHandle) -> Size {
    if tree.node(inner).subviews@.len() > 0 {
        tree.node(tree.node(inner).subviews@[0]).frame.size
    } else {
        Size { width: 0, height: 0 }
    }
}

/// Makes a scroll bar running the given way: a clear view, ten points
/// square for now, holding a grey half-transparent handle of the same size.
fn new_scroll_bar(tree: &mut ViewTree, direction: ScrollBarDirection) -> (bar: ScrollBarView)
    requires
        old(tree).wf(),
    ensures
        final(tree).wf(),
        keeps_views(*final(tree), *old(tree)),
        final(tree).recognizers@ == old(tree).recognizers@,
        forall|i: int|
            0 <= i < old(tree).nodes@.len() ==> #[trigger] final(tree).nodes@[i]
                == old(tree).nodes@[i],
        bar.view.index == old(tree).nodes@.len(),
        bar.handle.index == old(tree).nodes@.len() + 1,
        final(tree).nodes@.len() == old(tree).nodes@.len() + 2,
        final(tree).valid(bar.view),
        final(tree).valid(bar.handle),
        bar.direction == direction,
        bar.percent == 0,
        final(tree).node(bar.view).frame == Rectangle::new_spec(0, 0, 10, 10),
        final(tree).node(bar.view).background_color == Color::rgba(0, 0, 0, 0),
        final(tree).node(bar.view).subviews@ == seq![bar.handle],
        final(tree).node(bar.view).superview.target.is_none(),
        final(tree).node(bar.handle).frame == Rectangle::new_spec(0, 0, 10, 10),
        final(tree).node(bar.handle).background_color == Color::rgba(127, 127, 127, 127),
        final(tree).node(bar.handle).superview == bar.view.downgrade_spec(),
{
    let view = tree.new_view(Rectangle::new(0, 0, 10, 10));
    let handle = tree.new_view(Rectangle::new(0, 0, 10, 10));
    let ghost made = *tree;
    tree.set_background_color(handle, Color::new(127, 127, 127, 127));
    tree.set_background_color(view, Color::clear());
    tree.add_subview(view, handle);
    assert(tree.node(view).subviews@ =~= seq![handle]);
    proof {
        assert forall|i: int| 0 <= i < old(tree).nodes@.len() implies #[trigger] tree.nodes@[i]
            == old(tree).nodes@[i] by {
            assert(made.nodes@[i] == old(tree).nodes@[i]);
        }
    }
    ScrollBarView { view, handle, direction, percent: 0 }
}

impl ScrollView {
    /// The views of the scroll view are views of the tree, and its
    /// recognizer one of the tree's; the inner view holds at most one view,
    /// the content view, whose superview it is.
    pub open spec fn wf(self, tree: ViewTree) -> bool {
        &&& tree.wf()
        &&& tree.valid(self.view)
        &&& tree.valid(self.inner_content_view)
        &&& tree.valid(self.vertical_scroll_bar.view)
        &&& tree.valid(self.vertical_scroll_bar.handle)
        &&& tree.valid(self.horizontal_scroll_bar.view)
        &&& tree.valid(self.horizontal_scroll_bar.handle)
        &&& self.pan < tree.recognizers@.len()
        &&& tree.node(self.inner_content_view).subviews@.len() <= 1
        &&& tree.node(self.inner_content_view).subviews@.len() == 1 ==> tree.node(
            tree.node(self.inner_content_view).subviews@[0],
        ).superview == self.inner_content_view.downgrade_spec()
    }

    /// Makes a scroll view with the given frame. It is clear; its
    /// subviews are a clear, empty content view at the origin, then the
    /// vertical scroll bar fitted to its right edge and the horizontal one
    /// to its bottom edge; a pan recognizer on it scrolls the content.
    pub fn new(tree: &mut ViewTree, frame: Rectangle) -> (sv: ScrollView)
        requires
            old(tree).wf(),
            frame.size.width as i32 - 10 >= i32::MIN,
            frame.size.height as i32 - 10 >= i32::MIN,
        ensures
            sv.wf(*final(tree)),
            keeps_views(*final(tree), *old(tree)),
            forall|i: int|
                0 <= i < old(tree).nodes@.len() ==> #[trigger] final(tree).nodes@[i]
                    == old(tree).nodes@[i],
            final(tree).recognizers@ == old(tree).recognizers@.push(
                PanRecognizer { view: sv.view.downgrade_spec(), ..PanRecognizer::initial() },
            ),
            sv.pan == old(tree).recognizers@.len(),
            final(tree).node(sv.view).frame == frame,
            final(tree).node(sv.view).background_color == Color::rgba(0, 0, 0, 0),
            final(tree).node(sv.view).subviews@ == seq![
                sv.inner_content_view,
                sv.vertical_scroll_bar.view,
                sv.horizontal_scroll_bar.view,
            ],
            final(tree).node(sv.view).gesture_recognizers@ == seq![sv.pan],
            final(tree).node(sv.inner_content_view).frame == Rectangle::new_spec(0, 0, 0, 0),
            final(tree).node(sv.inner_content_view).bounds == Rectangle::new_spec(0, 0, 0, 0),
            final(tree).node(sv.inner_content_view).background_color == Color::rgba(0, 0, 0, 0),
            final(tree).node(sv.inner_content_view).subviews@.len() == 0,
            sv.vertical_scroll_bar.direction == ScrollBarDirection::Vertical,
            sv.horizontal_scroll_bar.direction == ScrollBarDirection::Horizontal,
            sv.vertical_scroll_bar.percent == 0,
            sv.horizontal_scroll_bar.percent == 0,
            final(tree).node(sv.vertical_scroll_bar.view).frame == Rectangle::new_spec(
                (frame.size.width as i32 - 10) as i32,
                0,
                10,
                frame.size.height,
            ),
            final(tree).node(sv.horizontal_scroll_bar.view).frame == Rectangle::new_spec(
                0,
                (frame.size.height as i32 - 10) as i32,
                frame.size.width,
                10,
            ),
            final(tree).node(sv.vertical_scroll_bar.handle).frame == Rectangle::new_spec(
                0,
                0,
                10,
                10,
            ),
            final(tree).node(sv.horizontal_scroll_bar.handle).frame == Rectangle::new_spec(
                0,
                0,
                10,
                10,
            ),
    {
        let ghost start = *tree;
        let vertical = new_scroll_bar(tree, ScrollBarDirection::Vertical);
        let horizontal = new_scroll_bar(tree, ScrollBarDirection::Horizontal);
        let content = tree.new_view(Rectangle::new(0, 0, 0, 0));
        tree.set_background_color(content, Color::clear());
        let view = tree.new_view(frame);
        let ghost made = *tree;
        tree.set_background_color(view, Color::clear());
        tree.add_subview(view, content);
        tree.add_subview(view, vertical.view);
        tree.add_subview(view, horizontal.view);
        let size = tree.frame(view).size;
        tree.set_frame(vertical.view, scroll_bar_frame(ScrollBarDirection::Vertical, size));
        tree.set_frame(horizontal.view, scroll_bar_frame(ScrollBarDirection::Horizontal, size));
        let pan = tree.add_gesture_recognizer(view, PanRecognizer::new());
        assert(tree.node(view).subviews@ =~= seq![content, vertical.view, horizontal.view]);
        assert(tree.node(view).gesture_recognizers@ =~= seq![pan]);
        proof {
            assert forall|i: int| 0 <= i < start.nodes@.len() implies #[trigger] tree.nodes@[i]
                == start.nodes@[i] by {
                assert(made.nodes@[i] == start.nodes@[i]);
            }
        }
        ScrollView {
            view,
            inner_content_view: content,
            vertical_scroll_bar: vertical,
            horizontal_scroll_bar: horizontal,
            pan,
        }
    }

    /// How far the content is scrolled: the inner view's bounds origin.
    pub fn content_offset(&self, tree: &ViewTree) -> (p: Point)
        requires
            self.wf(*tree),
        ensures
            p == tree.node(self.inner_content_view).bounds.origin,
    {
        tree.bounds(self.inner_content_view).origin
    }

    /// The content view, if one was set.
    pub fn content_view(&self, tree: &ViewTree) -> (v: Option<ViewHandle>)
        requires
            self.wf(*tree),
        ensures
            v == (if tree.node(self.inner_content_view).subviews@.len() > 0 {
                Some(tree.node(self.inner_content_view).subviews@[0])
            } else {
                None
            }),
            v matches Some(c) ==> tree.valid(c),
    {
        let subviews = tree.subviews(self.inner_content_view);
        if subviews.len() > 0 {
            proof {
                let n = tree.nodes@[self.inner_content_view.index as int];
                assert(tree.valid(n.subviews@[0]));
            }
            Some(subviews[0])
        } else {
            None
        }
    }

    /// The size of the content view; nothing when there is none.
    pub fn content_size(&self, tree: &ViewTree) -> (s: Size)
        requires
            self.wf(*tree),
        ensures
            s == content_size_of(*tree, self.inner_content_view),
    {
        match self.content_view(tree) {
            Some(c) => tree.frame(c).size,
            None => Size::new(0, 0),
        }
    }

    /// Scrolls the content to `offset`, kept between zero and as far as the
    /// content reaches: the inner view's bounds move there, keeping the
    /// scroll view's bounds size. Says where the content went and how far
    /// it can scroll.
    pub fn set_content_offset(&self, tree: &mut ViewTree, offset: Point) -> (pos: ScrollPosition)
        requires
            self.wf(*old(tree)),
        ensures
            self.wf(*final(tree)),
            keeps_views(*final(tree), *old(tree)),
            final(tree).recognizers@ == old(tree).recognizers@,
            ({
                let content = content_size_of(*old(tree), self.inner_content_view);
                let size = old(tree).node(self.view).frame.size;
                &&& pos.range.width == scroll_range(content.width, size.width)
                &&& pos.range.height == scroll_range(content.height, size.height)
                &&& pos.offset.x == clamp_offset(offset.x, pos.range.width)
                &&& pos.offset.y == clamp_offset(offset.y, pos.range.height)
            }),
            final(tree).nodes@ == old(tree).nodes@.update(
                self.inner_content_view.index as int,
                ViewNode {
                    bounds: Rectangle {
                        origin: pos.offset,
                        size: old(tree).node(self.view).bounds.size,
                    },
                    ..old(tree).node(self.inner_content_view)
                },
            ),
    {
        let content = self.content_size(tree);
        let size = tree.frame(self.view).size;
        let range = Size::new(
            if content.width < size.width { 0 } else { content.width - size.width },
            if content.height < size.height { 0 } else { content.height - size.height },
        );
        let p = content_offset_within(offset, content, size);
        let bounds_size = tree.bounds(self.view).size;
        tree.set_bounds(
            self.inner_content_view,
            Rectangle::new(p.x, p.y, bounds_size.width, bounds_size.height),
        );
        ScrollPosition { offset: p, range }
    }

    /// Sets (or replaces) the content view: the one there is taken out, the
    /// inner view takes the new one's size at the origin, and the new one
    /// goes in.
    pub fn set_content_view(&self, tree: &mut ViewTree, view: ViewHandle)
        requires
            self.wf(*old(tree)),
            old(tree).valid(view),
            view != self.inner_content_view,
        ensures
            self.wf(*final(tree)),
            keeps_views(*final(tree), *old(tree)),
            final(tree).recognizers@ == old(tree).recognizers@,
            final(tree).node(self.inner_content_view).frame == Rectangle::new_spec(
                0,
                0,
                old(tree).node(view).frame.size.width,
                old(tree).node(view).frame.size.height,
            ),
            final(tree).node(self.inner_content_view).subviews@ == seq![view],
            final(tree).node(view).superview == self.inner_content_view.downgrade_spec(),
    {
        let ghost start = *tree;
        if let Some(existing) = self.content_view(tree) {
            tree.remove_from_superview(existing);
            proof {
                reveal_with_fuel(Seq::filter, 2);
                assert(start.node(self.inner_content_view).subviews@ =~= seq![existing]);
                assert(seq![existing].drop_last() =~= Seq::<ViewHandle>::empty());
            }
        }
        let ghost removed = *tree;
        assert(keeps_views(removed, start));
        assert(removed.node(self.inner_content_view).subviews@.len() == 0);
        let size = tree.frame(view).size;
        tree.set_frame(self.inner_content_view, Rectangle::new(0, 0, size.width, size.height));
        let ghost sized = *tree;
        assert(keeps_views(sized, start));
        tree.add_subview(self.inner_content_view, view);
        assert(keeps_views(*tree, start)) by {
            assert forall|i: int| 0 <= i < start.nodes@.len() implies (#[trigger] tree.nodes@[i]).id
                == start.nodes@[i].id by {
                assert(sized.nodes@[i].id == start.nodes@[i].id);
            }
        }
        assert(tree.node(self.inner_content_view).subviews@ =~= seq![view]);
    }

    /// What the scroll view's pan does: once the recognizer is on a view,
    /// the content moves against the pan's translation, and the
    /// translation starts again from zero. Says where the content went;
    /// nothing happens while the recognizer is on no view of the tree.
    pub fn pan(&self, tree: &mut ViewTree) -> (pos: Option<ScrollPosition>)
        requires
            self.wf(*old(tree)),
            ({
                let t = old(tree).recognizers@[self.pan as int].translation;
                let o = old(tree).node(self.inner_content_view).bounds.origin;
                old(tree).live(old(tree).recognizers@[self.pan as int].view) ==> {
                    &&& t.x != i32::MIN
                    &&& t.y != i32::MIN
                    &&& fits(o.x - t.x)
                    &&& fits(o.y - t.y)
                }
            }),
        ensures
            self.wf(*final(tree)),
            keeps_views(*final(tree), *old(tree)),
            ({
                let r = old(tree).recognizers@[self.pan as int];
                let o = old(tree).node(self.inner_content_view).bounds.origin;
                match pos {
                    None => !old(tree).live(r.view) && *final(tree) == *old(tree),
                    Some(p) => {
                        let content = content_size_of(*old(tree), self.inner_content_view);
                        let size = old(tree).node(self.view).frame.size;
                        &&& old(tree).live(r.view)
                        &&& p.range.width == scroll_range(content.width, size.width)
                        &&& p.range.height == scroll_range(content.height, size.height)
                        &&& p.offset.x == clamp_offset(
                            (o.x - r.translation.x) as i32,
                            p.range.width,
                        )
                        &&& p.offset.y == clamp_offset(
                            (o.y - r.translation.y) as i32,
                            p.range.height,
                        )
                        &&& final(tree).nodes@ == old(tree).nodes@.update(
                            self.inner_content_view.index as int,
                            ViewNode {
                                bounds: Rectangle {
                                    origin: p.offset,
                                    size: old(tree).node(self.view).bounds.size,
                                },
                                ..old(tree).node(self.inner_content_view)
                            },
                        )
                        &&& final(tree).recognizers@ == old(tree).recognizers@.update(
                            self.pan as int,
                            PanRecognizer {
                                translation: Point { x: 0, y: 0 },
                                initial_position: r.last_position,
                                ..r
                            },
                        )
                    },
                }
            }),
    {
        let recognizer = *tree.recognizer(self.pan);
        if recognizer.view().is_none(tree) {
            return None;
        }
        let translation = recognizer.translation_in(&self.view);
        let offset = self.content_offset(tree);
        let moved = Point::new(offset.x - translation.x, offset.y - translation.y);
        let pos = self.set_content_offset(tree, moved);
        let mut recognizer = recognizer;
        recognizer.set_translation(Point::new(0, 0), &self.view);
        tree.set_recognizer(self.pan, recognizer);
        Some(pos)
    }
}

} // verus!
