use vstd::prelude::*;

use crate::camera::{clamp_i32, saturating_add_i32, Camera};
use crate::canvas::Canvas;
use crate::color::Color;
use crate::interaction::{InteractionState, Interactive};
use crate::label::Label;
use crate::prompt::{Prompt, PromptResponse};
use crate::rectangle::Rectangle;
use crate::stroke::Stroke;
use crate::text::TextProperties;

verus! {

/// Inner margin between a class's border and its labels, in pixels.
pub const CLASS_MARGIN: u32 = 20;

/// Vertical spacing between consecutive labels of a class, in pixels.
pub const CLASS_SPACING: u32 = 16;

/// A UML class: a bounding box sized after an owned title label and
/// attribute labels, all laid out vertically with a fixed margin and
/// spacing. The class owns its labels and re-lays them out on every
/// initialisation.
#[derive(Debug, Clone, PartialEq)]
pub struct Class {
    pub x: i32,
    pub y: i32,
    pub color: Color,
    pub radius: Option<u32>,
    pub stroke: Option<Stroke>,
    pub title: Label,
    pub attributes: Vec<Label>,
    pub interaction_state: InteractionState,
}

/// Adds two non-negative quantities, clamping at `u32::MAX`.
pub open spec fn sat_add_u32(a: int, b: int) -> u32
    recommends
        a >= 0,
        b >= 0,
{
    if a + b > u32::MAX {
        u32::MAX
    } else {
        (a + b) as u32
    }
}

/// The widest row so far, folding the remaining attribute labels in;
/// `None` as soon as any label is unmeasured.
pub open spec fn class_width_rec(attrs: Seq<Label>, acc: u32) -> Option<u32>
    decreases attrs.len(),
{
    if attrs.len() == 0 {
        Some(acc)
    } else {
        match attrs[0].width {
            None => None,
            Some(w) => class_width_rec(
                attrs.drop_first(),
                if sat_add_u32(w as int, 2 * CLASS_MARGIN) > acc {
                    sat_add_u32(w as int, 2 * CLASS_MARGIN)
                } else {
                    acc
                },
            ),
        }
    }
}

/// The height so far plus the remaining attribute labels, each adding
/// the spacing and its own height; `None` as soon as any label is
/// unmeasured.
pub open spec fn class_height_rec(attrs: Seq<Label>, acc: u32) -> Option<u32>
    decreases attrs.len(),
{
    if attrs.len() == 0 {
        Some(acc)
    } else {
        match attrs[0].height {
            None => None,
            Some(h) => class_height_rec(
                attrs.drop_first(),
                sat_add_u32(sat_add_u32(acc as int, CLASS_SPACING as int) as int, h as int),
            ),
        }
    }
}

/// The y coordinate the `i`th attribute label is laid out at: the
/// offsets of the labels before it, accumulated with clamping.
pub open spec fn class_attr_y(attrs: Seq<Label>, i: int, start: int) -> int
    recommends
        0 <= i <= attrs.len(),
    decreases i,
{
    if i <= 0 {
        start
    } else {
        clamp_i32(
            class_attr_y(attrs, i - 1, start) + attrs[i - 1].height_or_zero() + CLASS_SPACING,
        ) as int
    }
}

/// `post` is `pre` moved by `(dx, dy)`: the box and every owned
/// label shifted, everything else untouched.
pub open spec fn class_moved(pre: Class, post: Class, dx: i32, dy: i32) -> bool {
    &&& post.x == clamp_i32(pre.x + dx)
    &&& post.y == clamp_i32(pre.y + dy)
    &&& post.color == pre.color
    &&& post.radius == pre.radius
    &&& post.stroke == pre.stroke
    &&& post.interaction_state == pre.interaction_state
    &&& post.title == (Label {
        x: clamp_i32(pre.title.x + dx),
        y: clamp_i32(pre.title.y + dy),
        ..pre.title
    })
    &&& post.attributes@.len() == pre.attributes@.len()
    &&& forall|i: int|
        0 <= i < pre.attributes@.len() ==> post.attributes@[i] == (Label {
            x: clamp_i32(pre.attributes@[i].x + dx),
            y: clamp_i32(pre.attributes@[i].y + dy),
            ..pre.attributes@[i]
        })
}

/// `post` is `pre` laid out against a canvas: geometry, colours and
/// texts untouched, the title at the top margin, every attribute
/// below the previous one at the fixed spacing.
pub open spec fn class_initalized(pre: Class, post: Class) -> bool {
    &&& post.x == pre.x
    &&& post.y == pre.y
    &&& post.color == pre.color
    &&& post.radius == pre.radius
    &&& post.stroke == pre.stroke
    &&& post.interaction_state == pre.interaction_state
    &&& post.title.text@ == pre.title.text@
    &&& post.title.x == clamp_i32(pre.x + CLASS_MARGIN)
    &&& post.title.y == clamp_i32(pre.y + CLASS_MARGIN)
    &&& post.attributes@.len() == pre.attributes@.len()
    &&& forall|i: int|
        0 <= i < post.attributes@.len() ==> (#[trigger] post.attributes@[i]).text@
            == pre.attributes@[i].text@
    &&& forall|i: int|
        0 <= i < post.attributes@.len() ==> (#[trigger] post.attributes@[i]).x == clamp_i32(
            pre.x + CLASS_MARGIN,
        )
    &&& forall|i: int|
        0 <= i < post.attributes@.len() ==> (#[trigger] post.attributes@[i]).y == class_attr_y(
            post.attributes@,
            i,
            clamp_i32(
                clamp_i32(pre.y + CLASS_MARGIN) + post.title.height_or_zero() + CLASS_SPACING,
            ) as int,
        )
}

impl Class {
    /// The full width of the class box: the widest label plus margins,
    /// or `None` while any label is unmeasured.
    pub open spec fn width_spec(self) -> Option<u32> {
        match self.title.width {
            None => None,
            Some(tw) => class_width_rec(
                self.attributes@,
                sat_add_u32(tw as int, 2 * CLASS_MARGIN),
            ),
        }
    }

    /// The full height of the class box: the title plus margins, then
    /// spacing and height for each attribute, or `None` while any
    /// label is unmeasured.
    pub open spec fn height_spec(self) -> Option<u32> {
        match self.title.height {
            None => None,
            Some(th) => class_height_rec(
                self.attributes@,
                sat_add_u32(th as int, 2 * CLASS_MARGIN),
            ),
        }
    }

    /// The measured width, or 0 while unmeasured.
    pub open spec fn width_or_zero(self) -> int {
        match self.width_spec() {
            Some(w) => w as int,
            None => 0,
        }
    }

    /// The measured height, or 0 while unmeasured.
    pub open spec fn height_or_zero(self) -> int {
        match self.height_spec() {
            Some(h) => h as int,
            None => 0,
        }
    }

    /// True when world point `(x, y)` lies inside the class box.
    pub open spec fn hit(self, x: int, y: int) -> bool {
        &&& self.x <= x <= self.x + self.width_or_zero()
        &&& self.y <= y <= self.y + self.height_or_zero()
    }

    /// A new class at `(x, y)` with the given title text, the default
    /// two placeholder attributes, and defaulted colours.
    pub fn new(
        x: i32,
        y: i32,
        name: String,
        color: Option<Color>,
        stroke: Option<Stroke>,
        radius: Option<u32>,
    ) -> (c: Self)
        ensures
            c.x == x,
            c.y == y,
            c.color == (match color {
                Some(col) => col,
                None => Color::Rgb { red: 244, green: 244, blue: 244 },
            }),
            c.radius == radius,
            c.stroke == stroke,
            c.interaction_state.hover == false,
            c.title.text@ == name@,
            c.title.x == 0 && c.title.y == 0,
            c.title.width is None && c.title.height is None,
            c.title.properties.weight == Some(700u32),
            c.attributes@.len() == 2,
            c.attributes@[0].text@ == "Attribute 1"@,
            c.attributes@[1].text@ == "Attribute 2"@,
            c.attributes@[0].width is None && c.attributes@[0].height is None,
            c.attributes@[1].width is None && c.attributes@[1].height is None,
    {
        let text_color = Color::Rgb { red: 31, green: 31, blue: 31 };
        let color = match color {
            Some(col) => col,
            None => Color::Rgb { red: 244, green: 244, blue: 244 },
        };

        let mut attributes: Vec<Label> = Vec::new();
        attributes.push(
            Label::new(0, 0, "Attribute 1".to_owned(), TextProperties::default(), text_color),
        );
        attributes.push(
            Label::new(0, 0, "Attribute 2".to_owned(), TextProperties::default(), text_color),
        );

        Self {
            x,
            y,
            color,
            radius,
            stroke,
            interaction_state: InteractionState::new(),
            attributes,
            title: Label::new(0, 0, name, TextProperties::default().weight(700), text_color),
        }
    }

    pub fn x(&self) -> (r: i32)
        ensures
            r == self.x,
    {
        self.x
    }

    pub fn y(&self) -> (r: i32)
        ensures
            r == self.y,
    {
        self.y
    }

    /// The width of the class box, `None` while a label is unmeasured.
    pub fn width(&self) -> (r: Option<u32>)
        ensures
            r == self.width_spec(),
    {
        let tw = match self.title.width {
            None => {
                return None;
            },
            Some(tw) => tw,
        };

        let mut w: u32 = sat_add_u32_exec(tw, 2 * CLASS_MARGIN);
        assert(self.attributes@.skip(0) =~= self.attributes@);
        let mut i: usize = 0;
        while i < self.attributes.len()
            invariant
                0 <= i <= self.attributes@.len(),
                class_width_rec(self.attributes@.skip(i as int), w) == self.width_spec(),
            decreases self.attributes@.len() - i,
        {
            assert(self.attributes@.skip(i as int).drop_first() =~= self.attributes@.skip(
                i as int + 1,
            ));
            let aw = match self.attributes[i].width {
                None => {
                    return None;
                },
                Some(aw) => aw,
            };
            let row = sat_add_u32_exec(aw, 2 * CLASS_MARGIN);
            if row > w {
                w = row;
            }
            i = i + 1;
        }
        assert(self.attributes@.skip(i as int) =~= Seq::<Label>::empty());
        Some(w)
    }

    /// The height of the class box, `None` while a label is unmeasured.
    pub fn height(&self) -> (r: Option<u32>)
        ensures
            r == self.height_spec(),
    {
        let th = match self.title.height {
            None => {
                return None;
            },
            Some(th) => th,
        };

        let mut h: u32 = sat_add_u32_exec(th, 2 * CLASS_MARGIN);
        assert(self.attributes@.skip(0) =~= self.attributes@);
        let mut i: usize = 0;
        while i < self.attributes.len()
            invariant
                0 <= i <= self.attributes@.len(),
                class_height_rec(self.attributes@.skip(i as int), h) == self.height_spec(),
            decreases self.attributes@.len() - i,
        {
            assert(self.attributes@.skip(i as int).drop_first() =~= self.attributes@.skip(
                i as int + 1,
            ));
            let ah = match self.attributes[i].height {
                None => {
                    return None;
                },
                Some(ah) => ah,
            };
            h = sat_add_u32_exec(sat_add_u32_exec(h, CLASS_SPACING), ah);
            i = i + 1;
        }
        assert(self.attributes@.skip(i as int) =~= Seq::<Label>::empty());
        Some(h)
    }

    pub fn color(&self) -> (r: Color)
        ensures
            r == self.color,
    {
        self.color
    }

    pub fn radius(&self) -> (r: Option<u32>)
        ensures
            r == self.radius,
    {
        self.radius
    }

    pub fn stroke(&self) -> (r: Option<Stroke>)
        ensures
            r == self.stroke,
    {
        self.stroke
    }

    /// Moves the class and all of its labels by a delta.
    pub fn adjust_position(&mut self, delta_x: i32, delta_y: i32)
        ensures
            class_moved(*old(self), *final(self), delta_x, delta_y),
    {
        self.x = saturating_add_i32(self.x, delta_x);
        self.y = saturating_add_i32(self.y, delta_y);
        self.title.adjust_position(delta_x, delta_y);

        let mut i: usize = 0;
        while i < self.attributes.len()
            invariant
                0 <= i <= self.attributes@.len(),
                self.attributes@.len() == old(self).attributes@.len(),
                forall|j: int|
                    0 <= j < i ==> self.attributes@[j] == (Label {
                        x: clamp_i32(old(self).attributes@[j].x + delta_x),
                        y: clamp_i32(old(self).attributes@[j].y + delta_y),
                        ..old(self).attributes@[j]
                    }),
                forall|j: int|
                    i <= j < self.attributes@.len() ==> self.attributes@[j] == old(self).attributes@[j],
                self.x == clamp_i32(old(self).x + delta_x),
                self.y == clamp_i32(old(self).y + delta_y),
                self.color == old(self).color,
                self.radius == old(self).radius,
                self.stroke == old(self).stroke,
                self.interaction_state == old(self).interaction_state,
                self.title == (Label {
                    x: clamp_i32(old(self).title.x + delta_x),
                    y: clamp_i32(old(self).title.y + delta_y),
                    ..old(self).title
                }),
            decreases self.attributes@.len() - i,
        {
            let mut l = self.attributes.remove(i);
            l.adjust_position(delta_x, delta_y);
            self.attributes.insert(i, l);
            i = i + 1;
        }
    }

    /// Reacting to a click: the class asks for a new title, offering
    /// the current one as the value under edit.
    pub fn click(&mut self, x: i32, y: i32) -> (p: Option<Prompt>)
        ensures
            *final(self) == *old(self),
            p matches Some(pr) && pr matches Prompt::Text { value, .. } && value@ == old(self).title.text@,
    {
        let value = self.title.text.clone();
        Some(
            Prompt::Text {
                explanation: "Provide this class with a new name".to_owned(),
                placeholder: "Class name".to_owned(),
                value,
                metadata: String::new(),
            },
        )
    }

    /// Applies a prompt answer: a non-empty response becomes the new
    /// title text; an empty response changes nothing.
    pub fn prompt(&mut self, response: PromptResponse)
        ensures
            (match response {
                PromptResponse::Text { response: r, .. } => {
                    if r@.len() == 0 {
                        *final(self) == *old(self)
                    } else {
                        *final(self) == (Class {
                            title: (Label { text: r, ..old(self).title }),
                            ..*old(self)
                        })
                    }
                },
            }),
    {
        let PromptResponse::Text { response, metadata: _ } = response;

        if response.as_str().is_empty() {
            return ;
        }

        self.title.set_text(response);
    }

    /// Measures every label and lays them out inside the class box:
    /// the title at the top margin, each attribute below the previous
    /// one, separated by the fixed spacing.
    pub fn initalize<C: Canvas>(&mut self, canvas: &C)
        ensures
            class_initalized(*old(self), *final(self)),
    {
        self.title.initalize(canvas);

        let label_x = saturating_add_i32(self.x, CLASS_MARGIN as i32);
        let mut offset_y = saturating_add_i32(self.y, CLASS_MARGIN as i32);

        self.title.set_position(label_x, offset_y);

        offset_y = add_clamped(offset_y, self.title.height, CLASS_SPACING);
        let ghost start: int = offset_y as int;

        let mut i: usize = 0;
        while i < self.attributes.len()
            invariant
                0 <= i <= self.attributes@.len(),
                self.attributes@.len() == old(self).attributes@.len(),
                self.x == old(self).x,
                self.y == old(self).y,
                self.color == old(self).color,
                self.radius == old(self).radius,
                self.stroke == old(self).stroke,
                self.interaction_state == old(self).interaction_state,
                self.title.text@ == old(self).title.text@,
                self.title.x == clamp_i32(old(self).x + CLASS_MARGIN),
                self.title.y == clamp_i32(old(self).y + CLASS_MARGIN),
                label_x == clamp_i32(old(self).x + CLASS_MARGIN),
                start == clamp_i32(
                    clamp_i32(old(self).y + CLASS_MARGIN) + self.title.height_or_zero()
                        + CLASS_SPACING,
                ) as int,
                offset_y as int == class_attr_y(self.attributes@, i as int, start),
                forall|j: int|
                    0 <= j < i ==> (#[trigger] self.attributes@[j]).text@ == old(self).attributes@[j].text@,
                forall|j: int| 0 <= j < i ==> (#[trigger] self.attributes@[j]).x == label_x,
                forall|j: int|
                    0 <= j < i ==> (#[trigger] self.attributes@[j]).y == class_attr_y(
                        self.attributes@,
                        j,
                        start,
                    ),
                forall|j: int|
                    i <= j < self.attributes@.len() ==> self.attributes@[j] == old(self).attributes@[j],
            decreases self.attributes@.len() - i,
        {
            let ghost pre = self.attributes@;
            let mut l = self.attributes.remove(i);
            l.initalize(canvas);
            l.set_position(label_x, offset_y);
            let ghost next_y = add_clamped_spec(offset_y as int, l.height, CLASS_SPACING);
            offset_y = add_clamped(offset_y, l.height, CLASS_SPACING);
            self.attributes.insert(i, l);
            proof {
                assert(self.attributes@ =~= pre.update(i as int, l));
                assert forall|j: int| 0 <= j <= i implies class_attr_y(self.attributes@, j, start)
                    == class_attr_y(pre, j, start) by {
                    lemma_class_attr_y_prefix(pre, self.attributes@, j, start);
                }
                assert(class_attr_y(self.attributes@, i as int + 1, start) == clamp_i32(
                    class_attr_y(self.attributes@, i as int, start) + self.attributes@[
                        i as int
                    ].height_or_zero() + CLASS_SPACING,
                ) as int);
                assert(class_attr_y(self.attributes@, i as int + 1, start) == next_y);
            }
            i = i + 1;
        }
    }

    /// Draws the class: its background box, highlighted while hovered,
    /// then the title and the attributes. Skips the frame entirely
    /// while any label is unmeasured.
    pub fn draw<C: Canvas>(&self, canvas: &C, camera: &Camera) {
        let width = match self.width() {
            None => {
                return ;
            },
            Some(w) => w,
        };
        let height = match self.height() {
            None => {
                return ;
            },
            Some(h) => h,
        };

        let stroke = if self.interaction_state.is_hovered() {
            Stroke::new(2, Color::Rgb { red: 142, green: 202, blue: 230 })
        } else {
            Stroke::new(2, Color::Rgb { red: 210, green: 210, blue: 210 })
        };

        let bg = Rectangle::new(
            self.x,
            self.y,
            width,
            height,
            Color::Rgb { red: 244, green: 244, blue: 244 },
            Some(2),
            Some(stroke),
        );

        bg.draw(canvas, camera);
        self.title.draw(canvas, camera);

        let mut i: usize = 0;
        while i < self.attributes.len()
            decreases self.attributes@.len() - i,
        {
            self.attributes[i].draw(canvas, camera);
            i = i + 1;
        }
    }
}

/// The label's anchor moved down by its measured height plus the
/// spacing, clamped into the coordinate range.
pub open spec fn add_clamped_spec(off: int, h: Option<u32>, spacing: u32) -> int {
    clamp_i32(
        off + (match h {
            Some(hv) => hv as int,
            None => 0,
        }) + spacing,
    ) as int
}

/// Adds a measured height and the spacing onto a y offset, clamping.
fn add_clamped(off: i32, h: Option<u32>, spacing: u32) -> (r: i32)
    ensures
        r as int == add_clamped_spec(off as int, h, spacing),
{
    let hv: i64 = match h {
        Some(hv) => hv as i64,
        None => 0,
    };
    let wide: i64 = off as i64 + hv + spacing as i64;
    if wide > i32::MAX as i64 {
        i32::MAX
    } else if wide < i32::MIN as i64 {
        i32::MIN
    } else {
        wide as i32
    }
}

/// Adds two `u32` values, clamping at `u32::MAX`.
pub fn sat_add_u32_exec(a: u32, b: u32) -> (r: u32)
    ensures
        r == sat_add_u32(a as int, b as int),
{
    let wide: u64 = a as u64 + b as u64;
    if wide > u32::MAX as u64 {
        u32::MAX
    } else {
        wide as u32
    }
}

/// `class_attr_y` at or below `i` only looks at labels before `i`, so
/// two sequences that agree there give the same offsets.
proof fn lemma_class_attr_y_prefix(s1: Seq<Label>, s2: Seq<Label>, i: int, start: int)
    requires
        0 <= i <= s1.len(),
        s1.len() == s2.len(),
        forall|j: int| 0 <= j < i ==> s1[j] == s2[j],
    ensures
        class_attr_y(s1, i, start) == class_attr_y(s2, i, start),
    decreases i,
{
    if i > 0 {
        lemma_class_attr_y_prefix(s1, s2, i - 1, start);
    }
}


/// The shared interaction surface: a class moves, hovers, asks for a
/// new title on click and takes the answer as a prompt response.
impl Interactive for Class {
    fn get_interaction(&self) -> InteractionState {
        self.interaction_state
    }

    fn set_hover(&mut self, value: bool) {
        self.interaction_state.set_hover(value);
    }

    fn adjust_position(&mut self, delta_x: i32, delta_y: i32) {
        Class::adjust_position(self, delta_x, delta_y);
    }

    fn click(&mut self, x: i32, y: i32) -> Option<Prompt> {
        Class::click(self, x, y)
    }

    fn prompt(&mut self, response: PromptResponse) {
        Class::prompt(self, response);
    }

    fn hover_enter(&mut self) {
        self.interaction_state.set_hover(true);
    }

    fn hover_leave(&mut self) {
        self.interaction_state.set_hover(false);
    }

    fn is_hovered(&self) -> bool {
        self.interaction_state.is_hovered()
    }
}

} // verus!
