use vstd::prelude::*;

use crate::camera::{clamp_i32, Camera};
use crate::canvas::Canvas;
use crate::class::Class;
use crate::id::Id;
use crate::interaction::InteractionState;
use crate::label::Label;
use crate::prompt::{Prompt, PromptResponse};
use crate::rectangle::Rectangle;

verus! {

/// The closed set of element shapes; the tag is what the wire format
/// serialises.
#[derive(Debug, Clone, PartialEq)]
pub enum ElementType {
    Rectangle(Rectangle),
    Label(Label),
    Class(Class),
}

/// `b` is `a` moved by `(dx, dy)`: the shape shifted exactly as its
/// own `adjust_position` states, identifier and hover flag untouched.
pub open spec fn element_moved(a: Element, b: Element, dx: i32, dy: i32) -> bool {
    &&& b.id == a.id
    &&& b.interaction_spec() == a.interaction_spec()
    &&& (match (a.inner, b.inner) {
        (ElementType::Rectangle(r), ElementType::Rectangle(r2)) => r2 == (Rectangle {
            x: clamp_i32(r.x + dx),
            y: clamp_i32(r.y + dy),
            ..r
        }),
        (ElementType::Label(l), ElementType::Label(l2)) => l2 == (Label {
            x: clamp_i32(l.x + dx),
            y: clamp_i32(l.y + dy),
            ..l
        }),
        (ElementType::Class(c), ElementType::Class(c2)) => crate::class::class_moved(
            c,
            c2,
            dx,
            dy,
        ),
        _ => false,
    })
}

/// `b` is `a` after one measuring/layout pass against a canvas:
/// rectangles untouched, labels re-measured (or kept on a failed
/// measure), classes laid out, identifier and hover flag untouched.
pub open spec fn element_initialized(a: Element, b: Element) -> bool {
    &&& b.id == a.id
    &&& b.hovered() == a.hovered()
    &&& (match (a.inner, b.inner) {
        (ElementType::Rectangle(r), ElementType::Rectangle(r2)) => r2 == r,
        (ElementType::Label(l), ElementType::Label(l2)) => crate::label::label_initalized(l, l2),
        (ElementType::Class(c), ElementType::Class(c2)) => crate::class::class_initalized(c, c2),
        _ => false,
    })
}

/// `b` is `a` after a prompt answer: a non-empty answer retitles a
/// class, everything else is unchanged.
pub open spec fn element_prompted(a: Element, b: Element, response: PromptResponse) -> bool {
    match a.inner {
        ElementType::Class(c) => (match response {
            PromptResponse::Text { response: r, .. } => {
                if r@.len() == 0 {
                    b == a
                } else {
                    b.id == a.id && b.inner == ElementType::Class(
                        Class { title: (Label { text: r, ..c.title }), ..c },
                    )
                }
            },
        }),
        _ => b == a,
    }
}

/// A drawable, hit-testable object: a shape paired with a local-only
/// identifier. The identifier is never serialised; every peer numbers
/// its own elements.
#[derive(Debug, Clone, PartialEq)]
pub struct Element {
    pub id: Id,
    pub inner: ElementType,
}

impl Element {
    /// The element's x coordinate (for labels: the anchor).
    pub open spec fn x_spec(self) -> int {
        match self.inner {
            ElementType::Rectangle(r) => r.x as int,
            ElementType::Label(l) => l.x as int,
            ElementType::Class(c) => c.x as int,
        }
    }

    /// The element's y coordinate (for labels: the baseline).
    pub open spec fn y_spec(self) -> int {
        match self.inner {
            ElementType::Rectangle(r) => r.y as int,
            ElementType::Label(l) => l.baseline(),
            ElementType::Class(c) => c.y as int,
        }
    }

    /// True when world point `(x, y)` lies in the element's hit box.
    pub open spec fn hit(self, x: int, y: int) -> bool {
        match self.inner {
            ElementType::Rectangle(r) => r.hit(x, y),
            ElementType::Label(l) => l.hit(x, y),
            ElementType::Class(c) => c.hit(x, y),
        }
    }

    /// The transient hover flag.
    pub open spec fn hovered(self) -> bool {
        self.interaction_spec().hover
    }

    pub open spec fn interaction_spec(self) -> InteractionState {
        match self.inner {
            ElementType::Rectangle(r) => r.interaction_state,
            ElementType::Label(l) => l.interaction_state,
            ElementType::Class(c) => c.interaction_state,
        }
    }

    pub fn x(&self) -> (r: i32)
        ensures
            r as int == self.x_spec(),
    {
        match &self.inner {
            ElementType::Rectangle(rectangle) => rectangle.x(),
            ElementType::Label(label) => label.x(),
            ElementType::Class(class) => class.x(),
        }
    }

    pub fn y(&self) -> (r: i32)
        ensures
            r as int == self.y_spec(),
    {
        match &self.inner {
            ElementType::Rectangle(rectangle) => rectangle.y(),
            ElementType::Label(label) => label.y(),
            ElementType::Class(class) => class.y(),
        }
    }

    /// Whether the world-space cursor position hits this element.
    pub fn cursor_intersects(&self, x: i32, y: i32) -> (b: bool)
        ensures
            b == self.hit(x as int, y as int),
    {
        match &self.inner {
            ElementType::Rectangle(r) => {
                let xi: i64 = x as i64;
                let yi: i64 = y as i64;
                xi >= r.x as i64 && xi <= r.x as i64 + r.width as i64 && yi >= r.y as i64 && yi
                    <= r.y as i64 + r.height as i64
            },
            ElementType::Label(l) => {
                let top: i64 = l.y() as i64;
                let w: i64 = match l.width {
                    Some(w) => w as i64,
                    None => 0,
                };
                let h: i64 = match l.height {
                    Some(h) => h as i64,
                    None => 0,
                };
                let xi: i64 = x as i64;
                let yi: i64 = y as i64;
                xi >= l.x as i64 && xi <= l.x as i64 + w && yi >= top && yi <= top + h
            },
            ElementType::Class(c) => {
                let w: i64 = match c.width() {
                    Some(w) => w as i64,
                    None => 0,
                };
                let h: i64 = match c.height() {
                    Some(h) => h as i64,
                    None => 0,
                };
                let xi: i64 = x as i64;
                let yi: i64 = y as i64;
                xi >= c.x as i64 && xi <= c.x as i64 + w && yi >= c.y as i64 && yi <= c.y as i64
                    + h
            },
        }
    }

    pub fn id(&self) -> (r: Id)
        ensures
            r == self.id,
    {
        self.id
    }

    pub fn get_interaction(&self) -> (r: InteractionState)
        ensures
            r == self.interaction_spec(),
    {
        match &self.inner {
            ElementType::Rectangle(r) => r.interaction_state,
            ElementType::Label(l) => l.interaction_state,
            ElementType::Class(c) => c.interaction_state,
        }
    }

    /// Sets the transient hover flag; nothing else changes.
    pub fn set_hover(&mut self, value: bool)
        ensures
            final(self).id == old(self).id,
            final(self).hovered() == value,
            final(self).interaction_spec() == (InteractionState { hover: value }),
            shape_unchanged(*old(self), *final(self)),
    {
        match &mut self.inner {
            ElementType::Rectangle(r) => r.interaction_state.set_hover(value),
            ElementType::Label(l) => l.interaction_state.set_hover(value),
            ElementType::Class(c) => c.interaction_state.set_hover(value),
        }
    }

    pub fn hover_enter(&mut self)
        ensures
            final(self).id == old(self).id,
            final(self).hovered() == true,
            shape_unchanged(*old(self), *final(self)),
    {
        self.set_hover(true);
    }

    pub fn hover_leave(&mut self)
        ensures
            final(self).id == old(self).id,
            final(self).hovered() == false,
            shape_unchanged(*old(self), *final(self)),
    {
        self.set_hover(false);
    }

    pub fn is_hovered(&self) -> (b: bool)
        ensures
            b == self.hovered(),
    {
        self.get_interaction().is_hovered()
    }

    /// Moves the element by a world-space delta.
    pub fn adjust_position(&mut self, delta_x: i32, delta_y: i32)
        ensures
            element_moved(*old(self), *final(self), delta_x, delta_y),
    {
        match &mut self.inner {
            ElementType::Rectangle(r) => r.adjust_position(delta_x, delta_y),
            ElementType::Label(l) => l.adjust_position(delta_x, delta_y),
            ElementType::Class(c) => c.adjust_position(delta_x, delta_y),
        }
    }

    /// Reacting to a click at a position relative to the element's own
    /// origin: only classes answer, asking for a new title.
    pub fn click(&mut self, x: i32, y: i32) -> (p: Option<Prompt>)
        ensures
            final(self).id == old(self).id,
            *final(self) == *old(self),
            (old(self).inner matches ElementType::Class(c) ==> p matches Some(pr) && pr matches
                Prompt::Text { value, .. } && value@ == c.title.text@),
            !(old(self).inner matches ElementType::Class(_)) ==> p is None,
    {
        match &mut self.inner {
            ElementType::Rectangle(_) => None,
            ElementType::Label(_) => None,
            ElementType::Class(c) => c.click(x, y),
        }
    }

    /// Delivers a prompt answer to the element that raised it.
    pub fn prompt(&mut self, response: PromptResponse)
        ensures
            element_prompted(*old(self), *final(self), response),
            final(self).hovered() == old(self).hovered(),
    {
        match &mut self.inner {
            ElementType::Rectangle(_) => {
            },
            ElementType::Label(_) => {
            },
            ElementType::Class(c) => c.prompt(response),
        }
    }

    /// Measures and lays the element out against the canvas. The
    /// shape's persistent geometry and the identifier survive.
    pub fn initalize<C: Canvas>(&mut self, canvas: &C)
        ensures
            element_initialized(*old(self), *final(self)),
    {
        match &mut self.inner {
            ElementType::Rectangle(_) => {
            },
            ElementType::Label(l) => l.initalize(canvas),
            ElementType::Class(c) => c.initalize(canvas),
        }
    }

    /// Hands the element to the canvas for drawing.
    pub fn draw<C: Canvas>(&self, canvas: &C, camera: &Camera) {
        match &self.inner {
            ElementType::Rectangle(r) => r.draw(canvas, camera),
            ElementType::Label(l) => l.draw(canvas, camera),
            ElementType::Class(c) => c.draw(canvas, camera),
        }
    }

    /// Wraps a shape with the given identifier.
    pub fn from_rectangle(value: Rectangle, id: Id) -> (e: Element)
        ensures
            e.id == id,
            e.inner == ElementType::Rectangle(value),
    {
        Element { id, inner: ElementType::Rectangle(value) }
    }

    /// Wraps a shape with the given identifier.
    pub fn from_label(value: Label, id: Id) -> (e: Element)
        ensures
            e.id == id,
            e.inner == ElementType::Label(value),
    {
        Element { id, inner: ElementType::Label(value) }
    }

    /// Wraps a shape with the given identifier.
    pub fn from_class(value: Class, id: Id) -> (e: Element)
        ensures
            e.id == id,
            e.inner == ElementType::Class(value),
    {
        Element { id, inner: ElementType::Class(value) }
    }
}

/// The identifier of the topmost-drawn element whose hit box contains
/// the world point `(x, y)`: later elements draw over earlier ones, so
/// the search runs from the back.
pub open spec fn topmost_hit(elements: Seq<Element>, x: int, y: int) -> Option<Id>
    decreases elements.len(),
{
    if elements.len() == 0 {
        None
    } else if elements.last().hit(x, y) {
        Some(elements.last().id)
    } else {
        topmost_hit(elements.drop_last(), x, y)
    }
}

/// Finds the topmost element under the world-space cursor.
pub fn find_topmost(elements: &Vec<Element>, x: i32, y: i32) -> (r: Option<Id>)
    ensures
        r == topmost_hit(elements@, x as int, y as int),
{
    let mut i: usize = elements.len();
    proof {
        assert(elements@.take(elements@.len() as int) =~= elements@);
    }
    while i > 0
        invariant
            i <= elements@.len(),
            topmost_hit(elements@, x as int, y as int) == topmost_hit(
                elements@.take(i as int),
                x as int,
                y as int,
            ),
        decreases i,
    {
        i = i - 1;
        proof {
            assert(elements@.take(i as int + 1).last() == elements@[i as int]);
            assert(elements@.take(i as int + 1).drop_last() =~= elements@.take(i as int));
        }
        if elements[i].cursor_intersects(x, y) {
            return Some(elements[i].id);
        }
    }
    proof {
        assert(elements@.take(0) =~= Seq::<Element>::empty());
    }
    None
}


/// A hit, when there is one, names one of the elements in the list.
pub proof fn lemma_topmost_hit_in_ids(elements: Seq<Element>, x: int, y: int)
    ensures
        (match topmost_hit(elements, x, y) {
            Some(h) => exists|i: int| 0 <= i < elements.len() && (#[trigger] elements[i]).id == h,
            None => true,
        }),
    decreases elements.len(),
{
    if elements.len() > 0 && !elements.last().hit(x, y) {
        lemma_topmost_hit_in_ids(elements.drop_last(), x, y);
        match topmost_hit(elements.drop_last(), x, y) {
            Some(h) => {
                let i = choose|i: int|
                    0 <= i < elements.drop_last().len() && (#[trigger] elements.drop_last()[i]).id
                        == h;
                assert(elements[i].id == h);
            },
            None => {
            },
        }
    }
}

/// `b` is `a` moved by `(dx, dy)`, allowing the transient hover flag
/// to differ (hover reconciliation runs after movement).
pub open spec fn element_moved_ignoring_hover(a: Element, b: Element, dx: i32, dy: i32) -> bool {
    exists|mid: Element|
        #[trigger] element_moved(a, mid, dx, dy) && shape_unchanged(mid, b) && mid.id == b.id
}

/// Shape preservation composes.
pub proof fn lemma_shape_unchanged_trans(a: Element, b: Element, c: Element)
    requires
        shape_unchanged(a, b),
        shape_unchanged(b, c),
    ensures
        shape_unchanged(a, c),
{
}

/// The persistent shape of `b` equals that of `a`; only transient
/// interaction flags may differ.
pub open spec fn shape_unchanged(a: Element, b: Element) -> bool {
    match (a.inner, b.inner) {
        (ElementType::Rectangle(r1), ElementType::Rectangle(r2)) => r2 == (Rectangle {
            interaction_state: r2.interaction_state,
            ..r1
        }),
        (ElementType::Label(l1), ElementType::Label(l2)) => l2 == (Label {
            interaction_state: l2.interaction_state,
            ..l1
        }),
        (ElementType::Class(c1), ElementType::Class(c2)) => c2 == (Class {
            interaction_state: c2.interaction_state,
            ..c1
        }),
        _ => false,
    }
}

} // verus!
