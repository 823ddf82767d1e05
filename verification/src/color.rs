//! Colors with 8-bit red, green, blue and alpha channels.

use vstd::prelude::*;
use vstd::string::*;
use crate::text::{push_decimal, decimal};

verus! {

/// A color as the toolkit stores it.
#[derive(Clone, Copy, Debug, PartialEq, Eq, Structural)]
pub struct Color {
    pub red: u8,
    pub green: u8,
    pub blue: u8,
    pub alpha: u8,
}

/// A color in the form the renderer takes.
#[derive(Clone, Copy, Debug, PartialEq, Eq, Structural)]
pub struct GraphicsColor {
    pub r: u8,
    pub g: u8,
    pub b: u8,
    pub a: u8,
}

impl Color {
    pub open spec fn rgba(red: u8, green: u8, blue: u8, alpha: u8) -> Color {
        Color { red, green, blue, alpha }
    }

    pub fn new(red: u8, green: u8, blue: u8, alpha: u8) -> (c: Color)
        ensures
            c == Color::rgba(red, green, blue, alpha),
    {
        Color { red, green, blue, alpha }
    }

    /// Opaque white.
    pub fn white() -> (c: Color)
        ensures
            c == Color::rgba(255, 255, 255, 255),
    {
        Color { red: 255, green: 255, blue: 255, alpha: 255 }
    }

    /// Opaque black.
    pub fn black() -> (c: Color)
        ensures
            c == Color::rgba(0, 0, 0, 255),
    {
        Color { red: 0, green: 0, blue: 0, alpha: 255 }
    }

    /// Opaque red.
    pub fn red() -> (c: Color)
        ensures
            c == Color::rgba(255, 0, 0, 255),
    {
        Color { red: 255, green: 0, blue: 0, alpha: 255 }
    }

    /// Opaque green.
    pub fn green() -> (c: Color)
        ensures
            c == Color::rgba(0, 255, 0, 255),
    {
        Color { red: 0, green: 255, blue: 0, alpha: 255 }
    }

    /// Opaque blue.
    pub fn blue() -> (c: Color)
        ensures
            c == Color::rgba(0, 0, 255, 255),
    {
        Color { red: 0, green: 0, blue: 255, alpha: 255 }
    }

    /// Opaque mid gray.
    pub fn gray() -> (c: Color)
        ensures
            c == Color::rgba(128, 128, 128, 255),
    {
        Color { red: 128, green: 128, blue: 128, alpha: 255 }
    }

    /// Fully transparent black.
    pub fn clear() -> (c: Color)
        ensures
            c == Color::rgba(0, 0, 0, 0),
    {
        Color { red: 0, green: 0, blue: 0, alpha: 0 }
    }

    /// The same color in the renderer's form: channel for channel.
    pub fn to_graphics_color(&self) -> (g: GraphicsColor)
        ensures
            g.r == self.red,
            g.g == self.green,
            g.b == self.blue,
            g.a == self.alpha,
    {
        GraphicsColor { r: self.red, g: self.green, b: self.blue, a: self.alpha }
    }

    /// The debug notation `Color(r, g, b, a)`, the channels in decimal.
    pub open spec fn debug_notation(self) -> Seq<char> {
        "Color("@ + decimal(self.red as nat) + ", "@ + decimal(self.green as nat) + ", "@
            + decimal(self.blue as nat) + ", "@ + decimal(self.alpha as nat) + ")"@
    }

    /// Formats the color as `Color(r, g, b, a)`.
    pub fn debug_string(&self) -> (s: String)
        ensures
            s@ == self.debug_notation(),
    {
        let mut s = String::new();
        s.append("Color(");
        push_decimal(&mut s, self.red as u64);
        s.append(", ");
        push_decimal(&mut s, self.green as u64);
        s.append(", ");
        push_decimal(&mut s, self.blue as u64);
        s.append(", ");
        push_decimal(&mut s, self.alpha as u64);
        s.append(")");
        assert(s@ =~= self.debug_notation());
        s
    }
}

} // verus!
