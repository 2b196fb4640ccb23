use vstd::prelude::*;

use crate::camera::{clamp_i32, saturating_add_i32, Camera};
use crate::canvas::Canvas;
use crate::color::Color;
use crate::interaction::{InteractionState, Interactive};
use crate::prompt::{Prompt, PromptResponse};
use crate::size::Size;
use crate::text::TextProperties;

verus! {

/// `post` is `pre` after one measuring pass: a successful
/// measurement is stored, a failed one keeps whatever was measured
/// before; nothing else changes.
pub open spec fn label_initalized(pre: Label, post: Label) -> bool {
    &&& post == (Label { width: post.width, height: post.height, ..pre })
    &&& ((post.width == pre.width && post.height == pre.height) || (post.width is Some
        && post.height is Some))
}

/// A run of text anchored at a world position. `width` and `height`
/// are measured against the canvas during initialisation and are
/// transient: they are never serialised.
#[derive(Debug, Clone, PartialEq)]
pub struct Label {
    pub x: i32,
    pub y: i32,
    pub width: Option<u32>,
    pub height: Option<u32>,
    pub text: String,
    pub properties: TextProperties,
    pub color: Color,
    pub interaction_state: InteractionState,
}

impl Label {
    /// The measured height, or 0 while unmeasured.
    pub open spec fn height_or_zero(self) -> int {
        match self.height {
            Some(h) => h as int,
            None => 0,
        }
    }

    /// The measured width, or 0 while unmeasured.
    pub open spec fn width_or_zero(self) -> int {
        match self.width {
            Some(w) => w as int,
            None => 0,
        }
    }

    /// The text baseline: the anchor moved down by the measured height.
    pub open spec fn baseline(self) -> int {
        clamp_i32(self.y + self.height_or_zero()) as int
    }

    /// True when world point `(x, y)` lies in the label's hit box: a
    /// box of the measured size whose top edge is the baseline.
    pub open spec fn hit(self, x: int, y: int) -> bool {
        &&& self.baseline() <= y <= self.baseline() + self.height_or_zero()
        &&& self.x <= x <= self.x + self.width_or_zero()
    }

    pub fn new(x: i32, y: i32, text: String, props: TextProperties, color: Color) -> (l: Self)
        ensures
            l == (Label {
                x,
                y,
                width: None,
                height: None,
                text,
                properties: props,
                color,
                interaction_state: InteractionState { hover: false },
            }),
    {
        Self {
            x,
            y,
            text,
            properties: props,
            color,
            interaction_state: InteractionState::new(),
            width: None,
            height: None,
        }
    }

    pub fn x(&self) -> (r: i32)
        ensures
            r == self.x,
    {
        self.x
    }

    /// The baseline y coordinate (anchor plus measured height).
    pub fn y(&self) -> (r: i32)
        ensures
            r as int == self.baseline(),
    {
        match self.height {
            Some(h) => {
                let wide: i64 = self.y as i64 + h as i64;
                if wide > i32::MAX as i64 {
                    i32::MAX
                } else {
                    wide as i32
                }
            },
            None => self.y,
        }
    }

    pub fn width(&self) -> (r: Option<u32>)
        ensures
            r == self.width,
    {
        self.width
    }

    pub fn height(&self) -> (r: Option<u32>)
        ensures
            r == self.height,
    {
        self.height
    }

    pub fn text(&self) -> (r: &String)
        ensures
            r@ == self.text@,
    {
        &self.text
    }

    pub fn props(&self) -> (r: &TextProperties)
        ensures
            r == self.properties,
    {
        &self.properties
    }

    pub fn color(&self) -> (r: Color)
        ensures
            r == self.color,
    {
        self.color
    }

    pub fn set_text(&mut self, value: String)
        ensures
            *final(self) == (Label { text: value, ..*old(self) }),
    {
        self.text = value;
    }

    pub fn set_position(&mut self, x: i32, y: i32)
        ensures
            *final(self) == (Label { x, y, ..*old(self) }),
    {
        self.x = x;
        self.y = y;
    }

    pub fn adjust_position(&mut self, delta_x: i32, delta_y: i32)
        ensures
            *final(self) == (Label {
                x: clamp_i32(old(self).x + delta_x),
                y: clamp_i32(old(self).y + delta_y),
                ..*old(self)
            }),
    {
        self.x = saturating_add_i32(self.x, delta_x);
        self.y = saturating_add_i32(self.y, delta_y);
    }

    /// Records a measurement exactly: a size is stored; its absence
    /// keeps whatever was measured before, so a failed re-measure
    /// never loses a working layout.
    pub fn apply_measurement(&mut self, measured: Option<Size<u32>>)
        ensures
            *final(self) == (Label {
                width: final(self).width,
                height: final(self).height,
                ..*old(self)
            }),
            (match measured {
                Some(s) => final(self).width == Some(s.width) && final(self).height == Some(
                    s.height,
                ),
                None => final(self).width == old(self).width && final(self).height == old(
                    self,
                ).height,
            }),
    {
        if let Some(size) = measured {
            self.width = Some(size.width());
            self.height = Some(size.height());
        }
    }

    /// Measures the text against the canvas and records the result
    /// through `apply_measurement`: a successful measurement is
    /// stored, a failed one changes nothing, and the rest of the
    /// label is untouched either way.
    pub fn initalize<C: Canvas>(&mut self, canvas: &C)
        ensures
            label_initalized(*old(self), *final(self)),
    {
        let measured = canvas.measure_text(self.text.as_str(), &self.properties);
        self.apply_measurement(measured);
    }

    /// Hands the label to the canvas for drawing.
    pub fn draw<C: Canvas>(&self, canvas: &C, camera: &Camera) {
        canvas.draw_text(self, camera);
    }

    /// Draws in screen space, ignoring the camera.
    pub fn draw_fixed<C: Canvas>(&self, canvas: &C) {
        let fixed = Camera { x: 0, y: 0 };
        canvas.draw_text(self, &fixed);
    }
}


/// The shared interaction surface: labels move and hover but do not
/// answer clicks or prompts.
impl Interactive for Label {
    fn get_interaction(&self) -> InteractionState {
        self.interaction_state
    }

    fn set_hover(&mut self, value: bool) {
        self.interaction_state.set_hover(value);
    }

    fn adjust_position(&mut self, delta_x: i32, delta_y: i32) {
        Label::adjust_position(self, delta_x, delta_y);
    }

    fn click(&mut self, x: i32, y: i32) -> Option<Prompt> {
        None
    }

    fn prompt(&mut self, response: PromptResponse) {
    }

    fn hover_enter(&mut self) {
        self.interaction_state.set_hover(true);
    }

    fn hover_leave(&mut self) {
        self.interaction_state.set_hover(false);
    }

    fn is_hovered(&self) -> bool {
        self.interaction_state.is_hovered()
    }
}

} // verus!
