use vstd::prelude::*;

use crate::color::Color;

verus! {

/// An outline: a width in pixels and a colour.
#[derive(Debug, Clone, Copy, PartialEq, Eq, Structural)]
pub struct Stroke {
    pub width: u32,
    pub color: Color,
}

impl Stroke {
    pub fn new(width: u32, color: Color) -> (s: Self)
        ensures
            s.width == width,
            s.color == color,
    {
        Self { width, color }
    }

    pub fn color(&self) -> (c: Color)
        ensures
            c == self.color,
    {
        self.color
    }

    pub fn width(&self) -> (w: u32)
        ensures
            w == self.width,
    {
        self.width
    }
}

} // verus!
