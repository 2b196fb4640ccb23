use vstd::prelude::*;

use crate::camera::Camera;
use crate::canvas::Canvas;
use crate::color::Color;
use crate::element::{shape_unchanged, Element};
use crate::info::Info;
use crate::rectangle::Rectangle;

verus! {

/// Per-tab presentation state that never travels over the wire.
#[derive(Debug, Clone, PartialEq)]
pub struct LocalData {
    pub show_info: bool,
    pub info_element: Info,
}

/// The unit of synchronisation: an ordered list of elements and a
/// background colour. `local` and `synchronized` are transient.
/// `synchronized` is true exactly while the document matches what was
/// last sent to or received from the relay.
#[derive(Debug, Clone, PartialEq)]
pub struct Document {
    pub elements: Vec<Element>,
    pub color: Color,
    pub local: LocalData,
    pub synchronized: bool,
}

impl Document {
    pub fn elements(&self) -> (r: &Vec<Element>)
        ensures
            r@ == self.elements@,
    {
        &self.elements
    }

    /// Appends an element; every other element is untouched.
    pub fn add_element(&mut self, el: Element)
        ensures
            final(self).elements@ == old(self).elements@.push(el),
            final(self).color == old(self).color,
            final(self).local == old(self).local,
            final(self).synchronized == old(self).synchronized,
    {
        self.elements.push(el);
    }

    /// Reconciles every element's hover flag against the cursor: while
    /// the cursor is visible an element is hovered exactly when the
    /// cursor hits it; an invisible cursor hovers nothing.
    pub fn update_cursor(&mut self, x: i32, y: i32, visible: bool)
        ensures
            final(self).elements@.len() == old(self).elements@.len(),
            forall|i: int|
                0 <= i < old(self).elements@.len() ==> {
                    &&& (#[trigger] final(self).elements@[i]).id == old(self).elements@[i].id
                    &&& shape_unchanged(old(self).elements@[i], final(self).elements@[i])
                    &&& final(self).elements@[i].hovered() == (visible && old(self).elements@[i].hit(x as int, y as int))
                },
            final(self).color == old(self).color,
            final(self).local == old(self).local,
            final(self).synchronized == old(self).synchronized,
    {
        let mut i: usize = 0;
        while i < self.elements.len()
            invariant
                0 <= i <= self.elements@.len(),
                self.elements@.len() == old(self).elements@.len(),
                forall|j: int|
                    0 <= j < i ==> {
                        &&& (#[trigger] self.elements@[j]).id == old(self).elements@[j].id
                        &&& shape_unchanged(old(self).elements@[j], self.elements@[j])
                        &&& self.elements@[j].hovered() == (visible && old(self).elements@[j].hit(
                            x as int,
                            y as int,
                        ))
                    },
                forall|j: int|
                    i <= j < self.elements@.len() ==> self.elements@[j] == old(self).elements@[j],
                self.color == old(self).color,
                self.local == old(self).local,
                self.synchronized == old(self).synchronized,
            decreases self.elements@.len() - i,
        {
            let hit = self.elements[i].cursor_intersects(x, y);
            let hovered = self.elements[i].is_hovered();
            let want = visible && hit;
            if hovered != want {
                let ghost pre = self.elements@;
                let mut el = self.elements.remove(i);
                el.set_hover(want);
                self.elements.insert(i, el);
                proof {
                    assert(self.elements@ =~= pre.update(i as int, self.elements@[i as int]));
                }
            }
            i = i + 1;
        }
    }

    /// Draws the frame: the background, the sliding dot grid, every
    /// element in order, and the info overlay while it is visible.
    pub fn draw<C: Canvas>(&self, canvas: &C, camera: &Camera) {
        let clear_rect = Rectangle::new(
            i32::MIN,
            i32::MIN,
            u32::MAX,
            u32::MAX,
            self.color,
            None,
            None,
        );
        clear_rect.draw(canvas, camera);

        let space: i32 = 75;
        let offx: i32 = space - (camera.x() % space);
        let offy: i32 = space - (camera.y() % space);
        let dot_color = Color::Rgb { red: 170, green: 170, blue: 170 };

        let mut row: i32 = -1;
        while row < 100
            invariant
                -1 <= row <= 100,
            decreases 100 - row,
        {
            let mut col: i32 = -1;
            while col < 100
                invariant
                    -1 <= col <= 100,
                    -1 <= row <= 100,
                decreases 100 - col,
            {
                let wx: i64 = row as i64 * 75 + offx as i64;
                let wy: i64 = col as i64 * 75 + offy as i64;
                let x: i32 = if wx > i32::MAX as i64 {
                    i32::MAX
                } else if wx < i32::MIN as i64 {
                    i32::MIN
                } else {
                    wx as i32
                };
                let y: i32 = if wy > i32::MAX as i64 {
                    i32::MAX
                } else if wy < i32::MIN as i64 {
                    i32::MIN
                } else {
                    wy as i32
                };
                let dot = Rectangle::new(x, y, 2, 2, dot_color, None, None);
                dot.draw_fixed(canvas);
                col = col + 1;
            }
            row = row + 1;
        }

        let mut i: usize = 0;
        while i < self.elements.len()
            decreases self.elements@.len() - i,
        {
            self.elements[i].draw(canvas, camera);
            i = i + 1;
        }

        if self.local.show_info {
            self.local.info_element.draw(canvas);
        }
    }

    /// Updates the info overlay: its visibility when given, and its
    /// text always.
    pub fn update_info(&mut self, visible: Option<bool>, text: String)
        ensures
            final(self).local.show_info == (match visible {
                Some(v) => v,
                None => old(self).local.show_info,
            }),
            final(self).local.info_element.text@ == text@,
            final(self).elements@ == old(self).elements@,
            final(self).color == old(self).color,
            final(self).synchronized == old(self).synchronized,
    {
        if let Some(v) = visible {
            self.local.show_info = v;
        }
        self.local.info_element.set_text(text);
    }
}

impl Default for Document {
    /// An empty document on the default light-grey background, with a
    /// hidden info overlay, counted as synchronised because there is
    /// nothing to send.
    fn default() -> (d: Self)
        ensures
            d.elements@.len() == 0,
            d.color == (Color::Rgb { red: 240, green: 240, blue: 240 }),
            d.local.show_info == false,
            d.local.info_element.text@.len() == 0,
            d.synchronized == true,
    {
        Self {
            color: Color::Rgb { red: 240, green: 240, blue: 240 },
            elements: Vec::new(),
            local: LocalData { show_info: false, info_element: Info::default() },
            synchronized: true,
        }
    }
}

} // verus!
