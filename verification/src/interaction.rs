use vstd::prelude::*;

use crate::prompt::{Prompt, PromptResponse};

verus! {

/// Transient per-element interaction flags; never serialised.
#[derive(Debug, Clone, Copy, PartialEq, Eq, Structural)]
pub struct InteractionState {
    pub hover: bool,
}

impl InteractionState {
    pub fn new() -> (s: Self)
        ensures
            s.hover == false,
    {
        InteractionState { hover: false }
    }

    pub fn set_hover(&mut self, value: bool)
        ensures
            final(self).hover == value,
    {
        self.hover = value;
    }

    pub fn is_hovered(&self) -> (b: bool)
        ensures
            b == self.hover,
    {
        self.hover
    }
}

/// Behaviour shared by everything on the canvas that reacts to the
/// pointer: hover highlighting, dragging and clicking.
pub trait Interactive {
    fn get_interaction(&self) -> InteractionState;

    fn set_hover(&mut self, value: bool);

    fn adjust_position(&mut self, delta_x: i32, delta_y: i32);

    fn click(&mut self, x: i32, y: i32) -> Option<Prompt>;

    fn prompt(&mut self, response: PromptResponse);

    fn hover_enter(&mut self);

    fn hover_leave(&mut self);

    fn is_hovered(&self) -> bool;
}

} // verus!
