use vstd::prelude::*;

use crate::document::Document;
use crate::element::Element;
use crate::id::Id;

verus! {

/// The pointer shapes the host can show.
#[derive(Debug, Clone, Copy, PartialEq, Eq, Structural)]
pub enum CursorStyle {
    Default,
    Grab,
    Grabbing,
}

impl Default for CursorStyle {
    fn default() -> (c: Self)
        ensures
            c == CursorStyle::Default,
    {
        CursorStyle::Default
    }
}

/// The result of a handler pass: a declarative description of one
/// state mutation, applied by the client `State` in emission order.
#[derive(Debug, Clone, PartialEq)]
pub enum Outcome {
    /// Nothing to do.
    Noop,
    /// Replace the local document with an authoritative one.
    UpdateDocument(Document),
    /// Translate the camera; the delta is in screen pixels.
    Translate { x: i32, y: i32 },
    /// Move an element by a world-space delta.
    MoveElement { id: Id, x: i32, y: i32 },
    /// Click an element at an absolute world-space position.
    ClickElement { id: Id, x: i32, y: i32 },
    /// Set an element's hover flag.
    HoverElement { id: Id, hovered: bool },
    /// Change the pointer shape.
    CursorStyle(CursorStyle),
    /// Show or hide the info overlay.
    UpdateInfo { visible: bool },
    /// Add an element to the document.
    AddElement(Element),
}

impl Default for Outcome {
    fn default() -> (o: Self)
        ensures
            o == Outcome::Noop,
    {
        Outcome::Noop
    }
}

} // verus!
