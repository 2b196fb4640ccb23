use vstd::prelude::*;

verus! {

/// A measured width and height, e.g. of a rendered piece of text.
#[derive(Debug, Clone, Copy)]
pub struct Size<T> {
    pub height: T,
    pub width: T,
}

impl<T: Copy> Size<T> {
    pub fn new(width: T, height: T) -> (s: Self)
        ensures
            s.width == width,
            s.height == height,
    {
        Self { width, height }
    }

    pub fn height(&self) -> (h: T)
        ensures
            h == self.height,
    {
        self.height
    }

    pub fn width(&self) -> (w: T)
        ensures
            w == self.width,
    {
        self.width
    }
}

} // verus!
