use vstd::prelude::*;

use crate::camera::Camera;
use crate::label::Label;
use crate::rectangle::Rectangle;
use crate::size::Size;
use crate::text::TextProperties;

verus! {

/// The drawing capability the host environment provides. Drawing is
/// fire-and-forget; measuring may fail before the host has laid out
/// fonts, in which case callers skip drawing and retry later.
pub trait Canvas {
    fn draw_rectangle(&self, rect: Rectangle, camera: &Camera);

    fn draw_text(&self, label: &Label, camera: &Camera);

    fn measure_text(&self, text: &str, props: &TextProperties) -> Option<Size<u32>>;
}

} // verus!
