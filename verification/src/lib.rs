//! Core of a collaborative diagram editor: a document of drawable,
//! hit-testable elements on a pannable canvas, the event/outcome algebra
//! that edits it, the JSON wire codec that carries it between peers, and
//! the relay that keeps every peer on the latest document.

pub mod camera;
pub mod canvas;
pub mod class;
pub mod client;
pub mod color;
pub mod document;
pub mod drag;
pub mod element;
pub mod event;
pub mod hover;
pub mod id;
pub mod info;
pub mod interaction;
pub mod keypress;
pub mod label;
pub mod outcome;
pub mod parse;
pub mod prompt;
pub mod rectangle;
pub mod relay;
pub mod roundtrip;
pub mod ser;
pub mod size;
pub mod stroke;
pub mod text;
pub mod websocket;
pub mod wire;
