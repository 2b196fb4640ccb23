use vstd::prelude::*;

use crate::camera::Camera;
use crate::canvas::Canvas;
use crate::color::Color;
use crate::label::Label;
use crate::rectangle::Rectangle;
use crate::stroke::Stroke;
use crate::text::TextProperties;

verus! {

/// The fixed-position overlay that shows the camera offset while the
/// user pans. Local only; never part of the shared document.
#[derive(Debug, Clone, PartialEq)]
pub struct Info {
    pub text: String,
    pub props: TextProperties,
}

impl Info {
    pub fn set_text(&mut self, value: String)
        ensures
            final(self).text@ == value@,
            final(self).props == old(self).props,
    {
        self.text = value;
    }

    /// Draws the overlay in screen space: a padded box behind the
    /// text. Skips the frame when the host cannot measure the text.
    pub fn draw<C: Canvas>(&self, canvas: &C) {
        let measurement = match canvas.measure_text(self.text.as_str(), &self.props) {
            None => {
                return ;
            },
            Some(m) => m,
        };

        let width: u32 = if measurement.width() > 1000000 {
            1000000
        } else {
            measurement.width()
        };
        let height: u32 = if measurement.height() > 1000000 {
            1000000
        } else {
            measurement.height()
        };

        let bg = Rectangle::new(
            30,
            30,
            width + 20,
            height + 20,
            Color::Rgb { red: 255, green: 255, blue: 0 },
            Some(2),
            Some(Stroke::new(2, Color::black())),
        );
        bg.draw_fixed(canvas);

        let label = Label::new(
            40,
            40 + height as i32,
            self.text.clone(),
            self.props.clone(),
            Color::black(),
        );
        label.draw_fixed(canvas);
    }
}

impl Default for Info {
    /// An empty overlay in the default 20-point font.
    fn default() -> (i: Self)
        ensures
            i.text@.len() == 0,
    {
        Self { text: String::new(), props: TextProperties::new(20, "Arial,sans-serif".to_owned()) }
    }
}

} // verus!
