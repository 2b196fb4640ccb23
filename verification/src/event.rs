use vstd::prelude::*;

use crate::id::Id;
use crate::prompt::PromptResponse;

verus! {

use vstd::utf8::{decode_utf8, encode_utf8, encode_utf8_decode_utf8, valid_utf8};

/// The mouse buttons the host reports.
#[derive(Debug, Clone, Copy, Eq, Hash, PartialEq, Structural)]
pub enum MouseButton {
    Left,
    Middle,
    Right,
    Back,
    Forward,
}

impl MouseButton {
    /// Maps the host's numeric button code; codes beyond the known
    /// five are rejected.
    pub fn try_from(value: i16) -> (r: Result<MouseButton, ()>)
        ensures
            r == (match value {
                0i16 => Ok::<MouseButton, ()>(MouseButton::Left),
                1i16 => Ok::<MouseButton, ()>(MouseButton::Middle),
                2i16 => Ok::<MouseButton, ()>(MouseButton::Right),
                3i16 => Ok::<MouseButton, ()>(MouseButton::Back),
                4i16 => Ok::<MouseButton, ()>(MouseButton::Forward),
                _ => Err::<MouseButton, ()>(()),
            }),
    {
        match value {
            0 => Ok(MouseButton::Left),
            1 => Ok(MouseButton::Middle),
            2 => Ok(MouseButton::Right),
            3 => Ok(MouseButton::Back),
            4 => Ok(MouseButton::Forward),
            _ => Err(()),
        }
    }
}

/// A pointer event in screen coordinates.
#[derive(Debug, Clone, Copy, PartialEq, Eq, Structural)]
pub enum MouseEvent {
    Down { button: MouseButton, x: i32, y: i32 },
    Up { button: MouseButton, x: i32, y: i32 },
    Move { x: i32, y: i32 },
    Out { x: i32, y: i32 },
    Enter { x: i32, y: i32 },
}

impl MouseEvent {
    pub open spec fn x_spec(self) -> i32 {
        match self {
            MouseEvent::Down { x, .. } => x,
            MouseEvent::Up { x, .. } => x,
            MouseEvent::Move { x, .. } => x,
            MouseEvent::Out { x, .. } => x,
            MouseEvent::Enter { x, .. } => x,
        }
    }

    pub open spec fn y_spec(self) -> i32 {
        match self {
            MouseEvent::Down { y, .. } => y,
            MouseEvent::Up { y, .. } => y,
            MouseEvent::Move { y, .. } => y,
            MouseEvent::Out { y, .. } => y,
            MouseEvent::Enter { y, .. } => y,
        }
    }

    pub open spec fn button_spec(self) -> Option<MouseButton> {
        match self {
            MouseEvent::Down { button, .. } => Some(button),
            MouseEvent::Up { button, .. } => Some(button),
            _ => None,
        }
    }

    pub fn x(&self) -> (r: i32)
        ensures
            r == self.x_spec(),
    {
        match *self {
            MouseEvent::Down { x, .. } => x,
            MouseEvent::Up { x, .. } => x,
            MouseEvent::Move { x, .. } => x,
            MouseEvent::Out { x, .. } => x,
            MouseEvent::Enter { x, .. } => x,
        }
    }

    pub fn y(&self) -> (r: i32)
        ensures
            r == self.y_spec(),
    {
        match *self {
            MouseEvent::Down { y, .. } => y,
            MouseEvent::Up { y, .. } => y,
            MouseEvent::Move { y, .. } => y,
            MouseEvent::Out { y, .. } => y,
            MouseEvent::Enter { y, .. } => y,
        }
    }

    /// The button a press or release concerns; motion has none.
    pub fn button(&self) -> (r: Option<MouseButton>)
        ensures
            r == self.button_spec(),
    {
        match *self {
            MouseEvent::Down { button, .. } => Some(button),
            MouseEvent::Up { button, .. } => Some(button),
            _ => None,
        }
    }
}

/// A key event; `key` is the host's key name (a space is " ").
#[derive(Debug, Clone, PartialEq)]
pub enum KeyboardEvent {
    Down { key: String },
    Up { key: String },
}

impl KeyboardEvent {
    pub open spec fn key_spec(self) -> Seq<char> {
        match self {
            KeyboardEvent::Down { key } => key@,
            KeyboardEvent::Up { key } => key@,
        }
    }

    pub fn key(&self) -> (r: &str)
        ensures
            r@ == self.key_spec(),
    {
        match self {
            KeyboardEvent::Down { key } => key.as_str(),
            KeyboardEvent::Up { key } => key.as_str(),
        }
    }
}

/// A frame of the socket: text or binary.
#[derive(Debug, Clone, PartialEq)]
pub enum SocketMessage {
    Text(String),
    Bytes(Vec<u8>),
}

/// What the socket reader or writer reported.
#[derive(Debug, Clone, PartialEq)]
pub enum WsEvent {
    Received(SocketMessage),
    ReceiveError(String),
    SendError(String),
}

/// Everything the client core reacts to.
#[derive(Debug, Clone)]
pub enum Event {
    Resize,
    Initialize,
    Redraw,
    Mouse(MouseEvent),
    Keyboard(KeyboardEvent),
    WebSocket(WsEvent),
    PromptResponse { element_id: Id, response: PromptResponse },
}

/// Compares two strings by their bytes; equal bytes mean equal texts
/// because UTF-8 decoding is a function of the bytes.
pub fn str_eq(a: &str, b: &str) -> (r: bool)
    ensures
        r == (a@ == b@),
{
    broadcast use encode_utf8_decode_utf8;

    let ab = a.as_bytes();
    let bb = b.as_bytes();
    if ab.len() != bb.len() {
        proof {
            assert(a@ != b@);
        }
        return false;
    }
    let n = ab.len();
    let mut i: usize = 0;
    while i < n
        invariant
            i <= n,
            n == ab@.len() == bb@.len(),
            ab@ == encode_utf8(a@),
            bb@ == encode_utf8(b@),
            forall|k: int| 0 <= k < i ==> ab@[k] == bb@[k],
        decreases n - i,
    {
        if ab[i] != bb[i] {
            proof {
                assert(encode_utf8(a@) != encode_utf8(b@));
            }
            return false;
        }
        i = i + 1;
    }
    proof {
        assert(ab@ =~= bb@);
        assert(decode_utf8(encode_utf8(a@)) == decode_utf8(encode_utf8(b@)));
    }
    true
}

} // verus!
