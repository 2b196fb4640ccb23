use vstd::prelude::*;

use crate::camera::Camera;
use crate::canvas::Canvas;
use crate::color::Color;
use crate::interaction::{InteractionState, Interactive};
use crate::stroke::Stroke;
use crate::prompt::{Prompt, PromptResponse};

verus! {

/// An axis-aligned filled rectangle in world coordinates, with an
/// optional corner radius and an optional outline.
#[derive(Debug, Clone, Copy, PartialEq)]
pub struct Rectangle {
    pub x: i32,
    pub y: i32,
    pub width: u32,
    pub height: u32,
    pub color: Color,
    pub radius: Option<u32>,
    pub stroke: Option<Stroke>,
    pub interaction_state: InteractionState,
}

impl Rectangle {
    /// True when world point `(x, y)` lies inside the rectangle,
    /// borders included.
    pub open spec fn hit(self, x: int, y: int) -> bool {
        &&& self.x <= x <= self.x + self.width
        &&& self.y <= y <= self.y + self.height
    }

    pub fn new(
        x: i32,
        y: i32,
        width: u32,
        height: u32,
        color: Color,
        radius: Option<u32>,
        stroke: Option<Stroke>,
    ) -> (r: Self)
        ensures
            r == (Rectangle {
                x,
                y,
                width,
                height,
                color,
                radius,
                stroke,
                interaction_state: InteractionState { hover: false },
            }),
    {
        Self {
            x,
            y,
            width,
            height,
            color,
            radius,
            stroke,
            interaction_state: InteractionState::new(),
        }
    }

    pub fn x(&self) -> (r: i32)
        ensures
            r == self.x,
    {
        self.x
    }

    pub fn y(&self) -> (r: i32)
        ensures
            r == self.y,
    {
        self.y
    }

    pub fn width(&self) -> (r: u32)
        ensures
            r == self.width,
    {
        self.width
    }

    pub fn height(&self) -> (r: u32)
        ensures
            r == self.height,
    {
        self.height
    }

    pub fn color(&self) -> (r: Color)
        ensures
            r == self.color,
    {
        self.color
    }

    pub fn radius(&self) -> (r: Option<u32>)
        ensures
            r == self.radius,
    {
        self.radius
    }

    pub fn stroke(&self) -> (r: Option<Stroke>)
        ensures
            r == self.stroke,
    {
        self.stroke
    }

    /// Moves the rectangle by a delta, clamping at the coordinate range.
    pub fn adjust_position(&mut self, delta_x: i32, delta_y: i32)
        ensures
            *final(self) == (Rectangle {
                x: crate::camera::clamp_i32(old(self).x + delta_x),
                y: crate::camera::clamp_i32(old(self).y + delta_y),
                ..*old(self)
            }),
    {
        self.x = crate::camera::saturating_add_i32(self.x, delta_x);
        self.y = crate::camera::saturating_add_i32(self.y, delta_y);
    }

    /// Hands the rectangle to the canvas for drawing.
    pub fn draw<C: Canvas>(&self, canvas: &C, camera: &Camera) {
        canvas.draw_rectangle(*self, camera);
    }

    /// Draws in screen space, ignoring the camera.
    pub fn draw_fixed<C: Canvas>(&self, canvas: &C) {
        let fixed = Camera { x: 0, y: 0 };
        canvas.draw_rectangle(*self, &fixed);
    }
}


/// The shared interaction surface: rectangles move and hover but do
/// not answer clicks or prompts.
impl Interactive for Rectangle {
    fn get_interaction(&self) -> InteractionState {
        self.interaction_state
    }

    fn set_hover(&mut self, value: bool) {
        self.interaction_state.set_hover(value);
    }

    fn adjust_position(&mut self, delta_x: i32, delta_y: i32) {
        Rectangle::adjust_position(self, delta_x, delta_y);
    }

    fn click(&mut self, x: i32, y: i32) -> Option<Prompt> {
        None
    }

    fn prompt(&mut self, response: PromptResponse) {
    }

    fn hover_enter(&mut self) {
        self.interaction_state.set_hover(true);
    }

    fn hover_leave(&mut self) {
        self.interaction_state.set_hover(false);
    }

    fn is_hovered(&self) -> bool {
        self.interaction_state.is_hovered()
    }
}

} // verus!
