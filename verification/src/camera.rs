use vstd::prelude::*;

verus! {

/// Clamps a mathematical integer into the `i32` range.
pub open spec fn clamp_i32(v: int) -> i32 {
    if v > i32::MAX {
        i32::MAX
    } else if v < i32::MIN {
        i32::MIN
    } else {
        v as i32
    }
}

/// Adds two `i32` values, clamping at the ends of the `i32` range
/// instead of overflowing.
pub fn saturating_add_i32(a: i32, b: i32) -> (r: i32)
    ensures
        r == clamp_i32(a + b),
{
    let wide: i64 = a as i64 + b as i64;
    if wide > i32::MAX as i64 {
        i32::MAX
    } else if wide < i32::MIN as i64 {
        i32::MIN
    } else {
        wide as i32
    }
}

/// The world-space offset of the top-left corner of the viewport.
/// Only ever translated; translation clamps at the `i32` range, which
/// is already far beyond the coordinate range of any element.
#[derive(Debug, Clone, Copy, PartialEq, Eq, Structural)]
pub struct Camera {
    pub x: i32,
    pub y: i32,
}

impl Camera {
    pub fn x(&self) -> (r: i32)
        ensures
            r == self.x,
    {
        self.x
    }

    pub fn y(&self) -> (r: i32)
        ensures
            r == self.y,
    {
        self.y
    }

    pub fn translate(&mut self, x: i32, y: i32)
        ensures
            final(self).x == clamp_i32(old(self).x + x),
            final(self).y == clamp_i32(old(self).y + y),
    {
        self.x = saturating_add_i32(self.x, x);
        self.y = saturating_add_i32(self.y, y);
    }
}

impl Default for Camera {
    /// A camera at the world origin.
    fn default() -> (c: Self)
        ensures
            c.x == 0 && c.y == 0,
    {
        Camera { x: 0, y: 0 }
    }
}

} // verus!
