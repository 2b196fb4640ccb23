use vstd::prelude::*;

use crate::camera::{clamp_i32, Camera};
use crate::element::{topmost_hit, Element};
use crate::event::{str_eq, Event, KeyboardEvent, MouseButton, MouseEvent};
use crate::id::Id;
use crate::outcome::{CursorStyle, Outcome};

verus! {

/// The drag machine's state: idle, panning the camera, or holding an
/// element that may turn into a drag or a click.
#[derive(Debug, Clone, Copy, PartialEq, Eq, Structural)]
pub enum DragState {
    Idle,
    Camera,
    PressingElement { id: Id },
    DraggingElement { id: Id },
}

impl Default for DragState {
    fn default() -> (s: Self)
        ensures
            s == DragState::Idle,
    {
        DragState::Idle
    }
}

/// Disambiguates camera panning, element dragging and clicking from
/// the raw pointer and key stream.
#[derive(Debug, Clone, Copy, PartialEq, Eq, Structural)]
pub struct DragHandler {
    pub state: DragState,
    pub cursor: CursorStyle,
    pub translate_key: bool,
    pub left_button: bool,
    pub x: i32,
    pub y: i32,
}

impl Default for DragHandler {
    fn default() -> (h: Self)
        ensures
            h == (DragHandler {
                state: DragState::Idle,
                cursor: CursorStyle::Default,
                translate_key: false,
                left_button: false,
                x: 0,
                y: 0,
            }),
    {
        DragHandler {
            state: DragState::Idle,
            cursor: CursorStyle::Default,
            translate_key: false,
            left_button: false,
            x: 0,
            y: 0,
        }
    }
}

/// The handler after it has absorbed an event's raw inputs: the held
/// keys, the held button and the cursor position, before any state
/// transition.
pub open spec fn drag_inputs(h: DragHandler, event: Event) -> DragHandler {
    match event {
        Event::Keyboard(ev) => {
            if ev.key_spec() == " "@ {
                DragHandler {
                    translate_key: (ev matches KeyboardEvent::Down { .. }),
                    ..h
                }
            } else {
                h
            }
        },
        Event::Mouse(ev) => {
            let pressed = (match ev {
                MouseEvent::Down { button, .. } => (if button == MouseButton::Left {
                    Some(true)
                } else {
                    None
                }),
                MouseEvent::Up { button, .. } => (if button == MouseButton::Left {
                    Some(false)
                } else {
                    None
                }),
                _ => None,
            });
            DragHandler {
                left_button: (match pressed {
                    Some(b) => b,
                    None => h.left_button,
                }),
                x: ev.x_spec(),
                y: ev.y_spec(),
                ..h
            }
        },
        _ => h,
    }
}

/// The transition table: from the pre-event handler `pre` and the
/// input-updated handler `mid`, the next drag state and the primary
/// outcome.
pub open spec fn drag_step(
    pre: DragHandler,
    mid: DragHandler,
    elements: Seq<Element>,
    camera: Camera,
) -> (DragState, Outcome) {
    let dx = clamp_i32(mid.x - pre.x);
    let dy = clamp_i32(mid.y - pre.y);
    match mid.state {
        DragState::Idle => {
            if mid.translate_key {
                if mid.left_button {
                    (DragState::Camera, Outcome::Noop)
                } else {
                    (DragState::Idle, Outcome::Noop)
                }
            } else if !mid.left_button {
                (DragState::Idle, Outcome::Noop)
            } else {
                let wx = clamp_i32(mid.x + camera.x);
                let wy = clamp_i32(mid.y + camera.y);
                match topmost_hit(elements, wx as int, wy as int) {
                    Some(id) => (DragState::PressingElement { id }, Outcome::Noop),
                    None => (DragState::Idle, Outcome::Noop),
                }
            }
        },
        DragState::Camera => {
            if !mid.left_button || !mid.translate_key {
                (DragState::Idle, Outcome::Noop)
            } else {
                (
                    DragState::Camera,
                    Outcome::Translate {
                        x: clamp_i32(pre.x - mid.x),
                        y: clamp_i32(pre.y - mid.y),
                    },
                )
            }
        },
        DragState::PressingElement { id } => {
            if mid.x != pre.x || mid.y != pre.y {
                (DragState::DraggingElement { id }, Outcome::MoveElement { id, x: dx, y: dy })
            } else if !mid.left_button {
                (
                    DragState::Idle,
                    Outcome::ClickElement {
                        id,
                        x: clamp_i32(mid.x + camera.x),
                        y: clamp_i32(mid.y + camera.y),
                    },
                )
            } else {
                (DragState::PressingElement { id }, Outcome::Noop)
            }
        },
        DragState::DraggingElement { id } => {
            if !mid.left_button {
                (DragState::Idle, Outcome::Noop)
            } else if dx != 0 || dy != 0 {
                (DragState::DraggingElement { id }, Outcome::MoveElement { id, x: dx, y: dy })
            } else {
                (DragState::DraggingElement { id }, Outcome::Noop)
            }
        },
    }
}

/// The pointer shape the handler asks for: an open hand while panning
/// is possible, a closed hand while panning.
pub open spec fn drag_cursor(h: DragHandler) -> CursorStyle {
    match h.state {
        DragState::Idle => if h.translate_key {
            CursorStyle::Grab
        } else {
            CursorStyle::Default
        },
        DragState::Camera => CursorStyle::Grabbing,
        _ => CursorStyle::Default,
    }
}

/// The full handler after one event: inputs absorbed, state stepped,
/// cursor recomputed.
pub open spec fn drag_after(
    h: DragHandler,
    event: Event,
    elements: Seq<Element>,
    camera: Camera,
) -> DragHandler {
    let mid = drag_inputs(h, event);
    let stepped = DragHandler { state: drag_step(h, mid, elements, camera).0, ..mid };
    DragHandler { cursor: drag_cursor(stepped), ..stepped }
}

impl DragHandler {
    /// Tracks whether the pan key (space) is held.
    pub fn handle_keyboard_event(&mut self, event: &KeyboardEvent)
        ensures
            *final(self) == drag_inputs(*old(self), Event::Keyboard(*event)),
    {
        if !str_eq(event.key(), " ") {
            return ;
        }

        self.translate_key = match event {
            KeyboardEvent::Down { .. } => true,
            KeyboardEvent::Up { .. } => false,
        };
    }

    /// Tracks the left button and the latest cursor position.
    pub fn handle_mouse_event(&mut self, event: &MouseEvent)
        ensures
            *final(self) == drag_inputs(*old(self), Event::Mouse(*event)),
    {
        let is_left = match event.button() {
            Some(b) => b == MouseButton::Left,
            None => false,
        };
        if is_left {
            self.left_button = match event {
                MouseEvent::Down { .. } => true,
                MouseEvent::Up { .. } => false,
                _ => false,
            };
        }

        self.x = event.x();
        self.y = event.y();
    }

    /// The transition table of the machine, one step.
    fn update(&mut self, pre: DragHandler, elements: &Vec<Element>, camera: Camera) -> (r:
        Outcome)
        ensures
            final(self).state == drag_step(pre, *old(self), elements@, camera).0,
            r == drag_step(pre, *old(self), elements@, camera).1,
            *final(self) == (DragHandler { state: final(self).state, ..*old(self) }),
    {
        let dx = sub_clamped(self.x, pre.x);
        let dy = sub_clamped(self.y, pre.y);

        match self.state {
            DragState::Idle => {
                if self.translate_key {
                    if self.left_button {
                        self.state = DragState::Camera;
                    }
                    return Outcome::Noop;
                }

                if !self.left_button {
                    return Outcome::Noop;
                }

                let wx = add_clamped(self.x, camera.x);
                let wy = add_clamped(self.y, camera.y);

                match crate::element::find_topmost(elements, wx, wy) {
                    Some(id) => {
                        self.state = DragState::PressingElement { id };
                    },
                    None => {
                    },
                }
                Outcome::Noop
            },
            DragState::Camera => {
                if !self.left_button || !self.translate_key {
                    self.state = DragState::Idle;
                    return Outcome::Noop;
                }

                Outcome::Translate { x: sub_clamped(pre.x, self.x), y: sub_clamped(pre.y, self.y) }
            },
            DragState::PressingElement { id } => {
                if self.x != pre.x || self.y != pre.y {
                    self.state = DragState::DraggingElement { id };
                    Outcome::MoveElement { id, x: dx, y: dy }
                } else if !self.left_button {
                    self.state = DragState::Idle;
                    Outcome::ClickElement {
                        id,
                        x: add_clamped(self.x, camera.x),
                        y: add_clamped(self.y, camera.y),
                    }
                } else {
                    Outcome::Noop
                }
            },
            DragState::DraggingElement { id } => {
                if !self.left_button {
                    self.state = DragState::Idle;
                    Outcome::Noop
                } else if dx != 0 || dy != 0 {
                    Outcome::MoveElement { id, x: dx, y: dy }
                } else {
                    Outcome::Noop
                }
            },
        }
    }

    /// The pointer shape for the current state.
    pub fn get_cursor(&self) -> (r: CursorStyle)
        ensures
            r == drag_cursor(*self),
    {
        match self.state {
            DragState::Idle => if self.translate_key {
                CursorStyle::Grab
            } else {
                CursorStyle::Default
            },
            DragState::Camera => CursorStyle::Grabbing,
            _ => CursorStyle::Default,
        }
    }

    /// Runs one event through the machine. The first outcome is the
    /// primary one from the transition table; an `UpdateInfo` follows
    /// whenever the state changed or the camera is being panned, and a
    /// `CursorStyle` whenever the pointer shape changed.
    pub fn handle(&mut self, event: &Event, elements: &Vec<Element>, camera: Camera) -> (r: Vec<
        Outcome,
    >)
        ensures
            (match event {
                Event::Mouse(_) | Event::Keyboard(_) => {
                    let mid = drag_inputs(*old(self), *event);
                    let stepped = drag_step(*old(self), mid, elements@, camera);
                    let after = drag_after(*old(self), *event, elements@, camera);
                    let info_needed = stepped.0 != old(self).state || stepped.0 is Camera;
                    let cursor_changed = after.cursor != drag_cursor(*old(self));
                    &&& *final(self) == after
                    &&& r@ == seq![stepped.1] + (if info_needed {
                        seq![Outcome::UpdateInfo { visible: stepped.0 is Camera }]
                    } else {
                        Seq::empty()
                    }) + (if cursor_changed {
                        seq![Outcome::CursorStyle(after.cursor)]
                    } else {
                        Seq::empty()
                    })
                },
                _ => r@ == seq![Outcome::Noop] && *final(self) == *old(self),
            }),
            (event matches Event::Mouse(MouseEvent::Up {
                button: MouseButton::Left,
                x,
                y,
            }) && x == old(self).x && y == old(self).y) ==> final(self).state is Idle,
    {
        let pre = *self;

        match event {
            Event::Mouse(ev) => self.handle_mouse_event(ev),
            Event::Keyboard(ev) => self.handle_keyboard_event(ev),
            _ => {
                let mut out: Vec<Outcome> = Vec::new();
                out.push(Outcome::Noop);
                proof {
                    assert(out@ =~= seq![Outcome::Noop]);
                }
                return out;
            },
        }

        let primary_outcome = self.update(pre, elements, camera);
        let mut outcomes: Vec<Outcome> = Vec::new();
        outcomes.push(primary_outcome);

        let is_translating = match self.state {
            DragState::Camera => true,
            _ => false,
        };
        if self.state != pre.state || is_translating {
            outcomes.push(Outcome::UpdateInfo { visible: is_translating });
        }

        self.cursor = self.get_cursor();

        if self.cursor != pre.get_cursor() {
            outcomes.push(Outcome::CursorStyle(self.cursor));
        }

        proof {
            let mid = drag_inputs(pre, *event);
            let stepped = drag_step(pre, mid, elements@, camera);
            let info_needed = stepped.0 != pre.state || stepped.0 is Camera;
            let cursor_changed = drag_cursor(
                DragHandler { state: stepped.0, ..mid },
            ) != drag_cursor(pre);
            assert(outcomes@ =~= seq![stepped.1] + (if info_needed {
                seq![Outcome::UpdateInfo { visible: stepped.0 is Camera }]
            } else {
                Seq::<Outcome>::empty()
            }) + (if cursor_changed {
                seq![Outcome::CursorStyle(drag_cursor(DragHandler { state: stepped.0, ..mid }))]
            } else {
                Seq::<Outcome>::empty()
            }));
        }
        outcomes
    }
}

/// A drag sequence that ends with the left button released at the
/// position the machine already tracks leaves the machine idle,
/// whatever state it was in.
pub proof fn lemma_release_returns_to_idle(
    h: DragHandler,
    event: Event,
    elements: Seq<Element>,
    camera: Camera,
)
    requires
        event matches Event::Mouse(MouseEvent::Up { button: MouseButton::Left, x, y }) && x == h.x
            && y == h.y,
    ensures
        drag_after(h, event, elements, camera).state is Idle,
{
}

/// Clamped difference of two screen coordinates.
fn sub_clamped(a: i32, b: i32) -> (r: i32)
    ensures
        r == clamp_i32(a - b),
{
    let wide: i64 = a as i64 - b as i64;
    if wide > i32::MAX as i64 {
        i32::MAX
    } else if wide < i32::MIN as i64 {
        i32::MIN
    } else {
        wide as i32
    }
}

/// Clamped sum of a screen coordinate and a camera offset.
fn add_clamped(a: i32, b: i32) -> (r: i32)
    ensures
        r == clamp_i32(a + b),
{
    let wide: i64 = a as i64 + b as i64;
    if wide > i32::MAX as i64 {
        i32::MAX
    } else if wide < i32::MIN as i64 {
        i32::MIN
    } else {
        wide as i32
    }
}


} // verus!
