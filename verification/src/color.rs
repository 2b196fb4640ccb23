use vstd::prelude::*;

verus! {

/// A tagged RGB triple with 8-bit channels.
#[derive(Debug, Clone, Copy, PartialEq, Eq, Structural)]
pub enum Color {
    Rgb { red: u8, green: u8, blue: u8 },
}

impl Color {
    /// Pure black, the default text and stroke colour.
    pub fn black() -> (c: Color)
        ensures
            c == (Color::Rgb { red: 0, green: 0, blue: 0 }),
    {
        Color::Rgb { red: 0, green: 0, blue: 0 }
    }

    /// Pure white.
    pub fn white() -> (c: Color)
        ensures
            c == (Color::Rgb { red: 255, green: 255, blue: 255 }),
    {
        Color::Rgb { red: 255, green: 255, blue: 255 }
    }
}

} // verus!
