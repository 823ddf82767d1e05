//! Buttons: a view holding a label, whose text color follows whether the
//! button is pressed.

use vstd::prelude::*;
use crate::color::Color;
use crate::geometry::{Point, Rectangle};
use crate::handle::ViewHandle;
use crate::touch::Touch;
use crate::view::ViewTree;

verus! {

/// Whether a button is held down.
#[derive(Clone, Copy, Debug, PartialEq, Eq, Structural)]
pub enum State {
    Normal,
    Pressed,
}

/// A button: its view, the label view inside it, the label's text, and the
/// colors the label's text takes.
#[derive(Debug)]
pub struct Button {
    pub view: ViewHandle,
    pub label: ViewHandle,
    pub text: String,
    pub state: State,
    /// The label's text color while pressed.
    pub pressed_text_color: Color,
    /// The label's text color to go back to when released.
    pub last_normal_text_color: Color,
    /// The label's current text color.
    pub text_color: Color,
}

/// The label's text color of a button at rest.
pub open spec fn default_normal_color() -> Color {
    Color::rgba(2, 117, 227, 255)
}

/// The label's text color of a pressed button.
pub open spec fn default_pressed_color() -> Color {
    Color::rgba(64, 155, 255, 255)
}

/// What a button's state decides: the state and the label's colors.
pub struct Look {
    pub state: State,
    pub text_color: Color,
    pub last_normal_text_color: Color,
    pub pressed_text_color: Color,
}

/// The look after moving to `state`.
pub open spec fn look_after(l: Look, state: State) -> Look {
    if l.state == state {
        l
    } else {
        match state {
            State::Normal => Look { state, text_color: l.last_normal_text_color, ..l },
            State::Pressed => Look {
                state,
                text_color: l.pressed_text_color,
                last_normal_text_color: l.text_color,
                ..l
            },
        }
    }
}

/// Pressing a button at rest and releasing it gives the label back the
/// color it had; pressing shows the pressed color.
pub proof fn lemma_press_release_restores(l: Look)
    requires
        l.state == State::Normal,
    ensures
        look_after(l, State::Pressed).text_color == l.pressed_text_color,
        look_after(look_after(l, State::Pressed), State::Normal).text_color == l.text_color,
        look_after(look_after(l, State::Pressed), State::Normal).state == State::Normal,
{
}

impl Button {
    pub open spec fn look(self) -> Look {
        Look {
            state: self.state,
            text_color: self.text_color,
            last_normal_text_color: self.last_normal_text_color,
            pressed_text_color: self.pressed_text_color,
        }
    }

    /// A button over `frame` labelled `text`: a clear view holding a label
    /// of the same size that takes no touches, in the normal state and
    /// color.
    pub fn new(tree: &mut ViewTree, frame: Rectangle, text: &str) -> (b: Button)
        requires
            old(tree).wf(),
        ensures
            final(tree).wf(),
            b.state == State::Normal,
            b.text@ == text@,
            b.text_color == default_normal_color(),
            b.last_normal_text_color == default_normal_color(),
            b.pressed_text_color == default_pressed_color(),
            final(tree).valid(b.view),
            final(tree).valid(b.label),
            b.view.index == old(tree).nodes@.len(),
            b.label.index == old(tree).nodes@.len() + 1,
            final(tree).node(b.view).frame == frame,
            final(tree).node(b.view).background_color == Color::rgba(0, 0, 0, 0),
            final(tree).node(b.view).subviews@ == seq![b.label],
            final(tree).node(b.label).superview.target == Some(b.view),
            final(tree).node(b.label).frame == Rectangle::new_spec(0, 0, frame.size.width, frame.size.height),
            final(tree).node(b.label).background_color == Color::rgba(0, 0, 0, 0),
            !final(tree).node(b.label).user_interaction_enabled,
    {
        let view = tree.new_view(frame);
        let label = tree.new_view(Rectangle::new(0, 0, frame.size.width, frame.size.height));
        tree.set_background_color(label, Color::clear());
        tree.set_user_interaction_enabled(label, false);
        tree.add_subview(view, label);
        tree.set_background_color(view, Color::clear());
        Button {
            view,
            label,
            text: text.to_owned(),
            state: State::Normal,
            pressed_text_color: Color::new(64, 155, 255, 255),
            last_normal_text_color: Color::new(2, 117, 227, 255),
            text_color: Color::new(2, 117, 227, 255),
        }
    }

    /// Moves the button to a state. Pressing remembers the label's color
    /// and shows the pressed color; releasing restores the remembered
    /// color. Moving to the state the button is in changes nothing.
    pub fn set_state(&mut self, state: State)
        ensures
            final(self).view == old(self).view,
            final(self).label == old(self).label,
            final(self).text == old(self).text,
            final(self).look() == look_after(old(self).look(), state),
    {
        if self.state == state {
            return;
        }
        match state {
            State::Normal => {
                self.text_color = self.last_normal_text_color;
            },
            State::Pressed => {
                self.last_normal_text_color = self.text_color;
                self.text_color = self.pressed_text_color;
            },
        }
        self.state = state;
    }

    /// The label's text color.
    pub fn set_text_color(&mut self, color: Color)
        ensures
            *final(self) == (Button { text_color: color, ..*old(self) }),
    {
        self.text_color = color;
    }

    /// The color the label's text takes while the button is pressed.
    pub fn set_pressed_text_color(&mut self, color: Color)
        ensures
            *final(self) == (Button { pressed_text_color: color, ..*old(self) }),
    {
        self.pressed_text_color = color;
    }

    /// A touch went down on the button: it is pressed.
    pub fn touches_began(&mut self, _touches: &Vec<Touch>)
        ensures
            final(self).view == old(self).view,
            final(self).label == old(self).label,
            final(self).text == old(self).text,
            final(self).look() == look_after(old(self).look(), State::Pressed),
    {
        self.set_state(State::Pressed);
    }

    /// Whether the first touch, taken from its window into the button's
    /// coordinates, lies in the button's bounds.
    pub open spec fn first_touch_inside(self, tree: ViewTree, touches: Seq<Touch>) -> bool {
        let t = touches[0];
        let p = tree.converted(t.window.unwrap(), t.position, self.view).unwrap();
        tree.node(self.view).bounds.spec_contains(p)
    }

    /// The touches a button can judge: the first one has a window, from
    /// which its position converts into the button's coordinates.
    pub open spec fn can_judge(self, tree: ViewTree, touches: Seq<Touch>) -> bool {
        touches.len() > 0 ==> {
            &&& touches[0].window is Some
            &&& tree.converted(touches[0].window.unwrap(), touches[0].position, self.view) is Some
        }
    }

    fn touch_inside(&self, tree: &ViewTree, touch: &Touch) -> (b: bool)
        requires
            tree.wf(),
            tree.valid(self.view),
            touch.window is Some,
            tree.converted(touch.window.unwrap(), touch.position, self.view) is Some,
        ensures
            b == tree.node(self.view).bounds.spec_contains(
                tree.converted(touch.window.unwrap(), touch.position, self.view).unwrap(),
            ),
    {
        let window = touch.window.unwrap();
        let position = tree.convert_point_to(window, &touch.position, self.view);
        tree.bounds(self.view).contains(&position)
    }

    /// The touch lifted: the button is released, and says whether it was
    /// clicked, that is, whether the first touch lifted inside it.
    pub fn touches_ended(&mut self, tree: &ViewTree, touches: &Vec<Touch>) -> (clicked: bool)
        requires
            tree.wf(),
            tree.valid(old(self).view),
            old(self).can_judge(*tree, touches@),
        ensures
            final(self).view == old(self).view,
            final(self).label == old(self).label,
            final(self).text == old(self).text,
            final(self).look() == look_after(old(self).look(), State::Normal),
            clicked == (touches@.len() > 0 && old(self).first_touch_inside(*tree, touches@)),
    {
        let mut clicked = false;
        if touches.len() > 0 {
            clicked = self.touch_inside(tree, &touches[0]);
        }
        self.set_state(State::Normal);
        clicked
    }

    /// The touch moved: the button is pressed while the first touch is
    /// inside it, and released while it is outside.
    pub fn touches_moved(&mut self, tree: &ViewTree, touches: &Vec<Touch>)
        requires
            tree.wf(),
            tree.valid(old(self).view),
            old(self).can_judge(*tree, touches@),
        ensures
            final(self).view == old(self).view,
            touches@.len() == 0 ==> *final(self) == *old(self),
            touches@.len() > 0 ==> {
                &&& final(self).view == old(self).view
                &&& final(self).label == old(self).label
                &&& final(self).text == old(self).text
                &&& final(self).look() == look_after(
                    old(self).look(),
                    if old(self).first_touch_inside(*tree, touches@) {
                        State::Pressed
                    } else {
                        State::Normal
                    },
                )
            },
    {
        if touches.len() > 0 {
            if self.touch_inside(tree, &touches[0]) {
                self.set_state(State::Pressed);
            } else {
                self.set_state(State::Normal);
            }
        }
    }
}

} // verus!
