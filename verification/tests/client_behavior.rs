use uml_core::camera::Camera;
use uml_core::canvas::Canvas;
use uml_core::class::Class;
use uml_core::client::State;
use uml_core::color::Color;
use uml_core::drag::DragState;
use uml_core::element::{Element, ElementType};
use uml_core::event::{Event, KeyboardEvent, MouseButton, MouseEvent, SocketMessage, WsEvent};
use uml_core::id::Id;
use uml_core::label::Label;
use uml_core::outcome::CursorStyle;
use uml_core::prompt::PromptResponse;
use uml_core::rectangle::Rectangle;
use uml_core::size::Size;
use uml_core::text::TextProperties;

/// A canvas that measures ten pixels per character, twenty high.
struct TestCanvas;

impl Canvas for TestCanvas {
    fn draw_rectangle(&self, _rect: Rectangle, _camera: &Camera) {
    }

    fn draw_text(&self, _label: &Label, _camera: &Camera) {
    }

    fn measure_text(&self, text: &str, _props: &TextProperties) -> Option<Size<u32>> {
        Some(Size::new(text.len() as u32 * 10, 20))
    }
}

fn new_state() -> State<TestCanvas> {
    State::new(TestCanvas)
}

fn key_down(k: &str) -> Event {
    Event::Keyboard(KeyboardEvent::Down { key: k.to_owned() })
}

fn key_up(k: &str) -> Event {
    Event::Keyboard(KeyboardEvent::Up { key: k.to_owned() })
}

fn mouse_down(x: i32, y: i32) -> Event {
    Event::Mouse(MouseEvent::Down { button: MouseButton::Left, x, y })
}

fn mouse_up(x: i32, y: i32) -> Event {
    Event::Mouse(MouseEvent::Up { button: MouseButton::Left, x, y })
}

fn mouse_move(x: i32, y: i32) -> Event {
    Event::Mouse(MouseEvent::Move { x, y })
}

#[test]
fn camera_pan_scenario() {
    // Space+LMB, then a (100, -50) cursor move: the camera translates
    // by (-100, 50), the document is untouched, the cursor grabs.
    let mut s = new_state();
    s.handle_event(key_down(" "), false);
    let fx = s.handle_event(mouse_down(0, 0), false);
    assert_eq!(fx.cursor, Some(CursorStyle::Grabbing));
    let before = s.document.to_json();
    let fx = s.handle_event(mouse_move(100, -50), false);
    assert_eq!(s.camera, Camera { x: -100, y: 50 });
    assert_eq!(s.document.to_json(), before);
    assert!(fx.sync_payload.is_none());
    assert!(s.document.local.show_info);
    // releasing key and button ends the pan and the grab cursor
    s.handle_event(mouse_up(100, -50), false);
    let fx = s.handle_event(key_up(" "), false);
    assert!(matches!(s.drag_handler.state, DragState::Idle));
    assert_eq!(fx.cursor, Some(CursorStyle::Default));
}

#[test]
fn click_vs_drag_disambiguation() {
    // Press on an element at world (200, 200) and release without
    // moving: one click, no move.
    let mut s = new_state();
    let class = Class::new(200, 200, "Point".to_owned(), None, None, None);
    let id = s.ids.fresh();
    s.document.elements.push(Element::from_class(class, id));

    s.handle_event(mouse_move(200, 200), false);
    s.handle_event(mouse_down(200, 200), false);
    assert!(matches!(s.drag_handler.state, DragState::PressingElement { .. }));
    let fx = s.handle_event(mouse_up(200, 200), false);
    assert!(matches!(s.drag_handler.state, DragState::Idle));
    let (pid, prompt) = fx.open_prompt.expect("a click on a class opens its prompt");
    assert_eq!(pid.0, id.0);
    match prompt {
        uml_core::prompt::Prompt::Text { value, .. } => assert_eq!(value, "Point"),
    }
    // the element did not move
    match &s.document.elements[0].inner {
        ElementType::Class(c) => {
            assert_eq!((c.x, c.y), (200, 200));
        },
        _ => panic!("class variant expected"),
    }
    assert!(fx.sync_payload.is_none());
}

#[test]
fn drag_moves_element_and_syncs() {
    let mut s = new_state();
    s.set_connected(true);
    let id = s.ids.fresh();
    s.document.elements.push(Element::from_rectangle(
        Rectangle::new(10, 10, 50, 50, Color::Rgb { red: 0, green: 0, blue: 0 }, None, None),
        id,
    ));
    s.handle_event(mouse_move(20, 20), false);
    s.handle_event(mouse_down(20, 20), false);
    let fx = s.handle_event(mouse_move(30, 45), false);
    match &s.document.elements[0].inner {
        ElementType::Rectangle(r) => assert_eq!((r.x, r.y), (20, 35)),
        _ => panic!("rectangle variant expected"),
    }
    assert!(matches!(s.drag_handler.state, DragState::DraggingElement { .. }));
    assert!(fx.document_mutated);
    let payload = fx.sync_payload.expect("a move pushes the document");
    assert_eq!(payload, s.document.to_json());
    assert!(s.document.synchronized);
    let fx = s.handle_event(mouse_up(30, 45), false);
    assert!(matches!(s.drag_handler.state, DragState::Idle));
    assert!(fx.sync_payload.is_none());
}

#[test]
fn unsynced_while_disconnected() {
    let mut s = new_state();
    let id = s.ids.fresh();
    s.document.elements.push(Element::from_rectangle(
        Rectangle::new(10, 10, 50, 50, Color::Rgb { red: 0, green: 0, blue: 0 }, None, None),
        id,
    ));
    s.handle_event(mouse_move(20, 20), false);
    s.handle_event(mouse_down(20, 20), false);
    let fx = s.handle_event(mouse_move(25, 25), false);
    assert!(fx.document_mutated);
    assert!(fx.sync_payload.is_none());
    assert!(!s.document.synchronized);
}

#[test]
fn hover_follows_topmost_element() {
    let mut s = new_state();
    let bottom = s.ids.fresh();
    let top = s.ids.fresh();
    let black = Color::Rgb { red: 0, green: 0, blue: 0 };
    s.document.elements.push(Element::from_rectangle(
        Rectangle::new(0, 0, 100, 100, black, None, None),
        bottom,
    ));
    s.document.elements.push(Element::from_rectangle(
        Rectangle::new(50, 50, 100, 100, black, None, None),
        top,
    ));

    // inside both: the later-drawn element wins
    s.handle_event(mouse_move(60, 60), false);
    let hovered: Vec<Id> = s
        .document
        .elements
        .iter()
        .filter(|e| e.is_hovered())
        .map(|e| e.id())
        .collect();
    assert_eq!(hovered.len(), 1);
    assert_eq!(hovered[0].0, top.0);

    // only inside the bottom one
    s.handle_event(mouse_move(10, 10), false);
    let hovered: Vec<Id> = s
        .document
        .elements
        .iter()
        .filter(|e| e.is_hovered())
        .map(|e| e.id())
        .collect();
    assert_eq!(hovered.len(), 1);
    assert_eq!(hovered[0].0, bottom.0);

    // outside both
    s.handle_event(mouse_move(500, 500), false);
    assert!(s.document.elements.iter().all(|e| !e.is_hovered()));
}

#[test]
fn keypress_adds_class_and_prompt_renames_it() {
    let mut s = new_state();
    s.camera.translate(7, -3);
    s.handle_event(mouse_move(40, 50), false);
    s.handle_event(key_down("a"), false);
    let fx = s.handle_event(key_up("a"), false);
    assert!(fx.document_mutated);
    assert_eq!(s.document.elements.len(), 1);
    let id = s.document.elements[0].id();
    // the new class immediately asks for its title
    let (pid, prompt) = fx.open_prompt.expect("an added class opens its title prompt");
    assert_eq!(pid.0, id.0);
    match prompt {
        uml_core::prompt::Prompt::Text { value, .. } => assert_eq!(value, "Test class"),
    }
    match &s.document.elements[0].inner {
        ElementType::Class(c) => {
            // spawned at the cursor in world coordinates
            assert_eq!((c.x, c.y), (47, 47));
            assert_eq!(c.title.text, "Test class");
        },
        _ => panic!("class variant expected"),
    }

    // a non-empty prompt answer renames the class
    s.handle_event(
        Event::PromptResponse {
            element_id: id,
            response: PromptResponse::Text { response: "Point".to_owned(), metadata: String::new() },
        },
        false,
    );
    match &s.document.elements[0].inner {
        ElementType::Class(c) => assert_eq!(c.title.text, "Point"),
        _ => panic!("class variant expected"),
    }

    // an empty answer changes nothing
    s.handle_event(
        Event::PromptResponse {
            element_id: id,
            response: PromptResponse::Text { response: String::new(), metadata: String::new() },
        },
        false,
    );
    match &s.document.elements[0].inner {
        ElementType::Class(c) => assert_eq!(c.title.text, "Point"),
        _ => panic!("class variant expected"),
    }
}

#[test]
fn keypress_suppressed_while_dialog_open() {
    let mut s = new_state();
    s.handle_event(key_down("a"), true);
    let fx = s.handle_event(key_up("a"), true);
    assert_eq!(s.document.elements.len(), 0);
    assert!(!fx.close_dialog);
    s.handle_event(key_down("Escape"), true);
    let fx = s.handle_event(key_up("Escape"), true);
    assert!(fx.close_dialog);
}

#[test]
fn key_repeat_is_debounced() {
    // A release that was never seen going down does nothing.
    let mut s = new_state();
    let fx = s.handle_event(key_up("a"), false);
    assert_eq!(s.document.elements.len(), 0);
    assert!(!fx.document_mutated);
    assert!(fx.sync_payload.is_none());
}

#[test]
fn added_elements_have_unique_ids() {
    let mut s = new_state();
    s.handle_event(key_down("a"), false);
    s.handle_event(key_up("a"), false);
    s.handle_event(key_down("a"), false);
    s.handle_event(key_up("a"), false);
    assert_eq!(s.document.elements.len(), 2);
    assert_ne!(s.document.elements[0].id().0, s.document.elements[1].id().0);
}

#[test]
fn initialize_asks_for_connection_and_received_replaces_state() {
    // The reconnect loop: Initialize asks the host to connect; an
    // authoritative document later replaces local state wholesale.
    let mut s = new_state();
    let fx = s.handle_event(Event::Initialize, false);
    assert!(fx.connect);
    s.set_connected(false);
    let fx = s.handle_event(Event::Initialize, false);
    assert!(fx.connect);
    s.set_connected(true);

    let mut other = new_state();
    let id = other.ids.fresh();
    other.document.elements.push(Element::from_rectangle(
        Rectangle::new(1, 2, 3, 4, Color::Rgb { red: 9, green: 9, blue: 9 }, None, None),
        id,
    ));
    let json = String::from_utf8(other.document.to_json()).unwrap();

    let fx = s.handle_event(
        Event::WebSocket(WsEvent::Received(SocketMessage::Text(json.clone()))),
        false,
    );
    assert!(fx.document_replaced);
    assert_eq!(s.document.to_json(), other.document.to_json());
    assert!(s.document.synchronized);
}

#[test]
fn bad_frame_is_ignored_by_client() {
    let mut s = new_state();
    let before = s.document.to_json();
    let fx = s.handle_event(
        Event::WebSocket(WsEvent::Received(SocketMessage::Text("not-json".to_owned()))),
        false,
    );
    assert!(!fx.document_replaced);
    assert_eq!(s.document.to_json(), before);
    let fx = s.handle_event(
        Event::WebSocket(WsEvent::ReceiveError("boom".to_owned())),
        false,
    );
    assert!(!fx.document_replaced && !fx.document_mutated);
}

#[test]
fn drag_release_returns_to_idle_from_every_state() {
    let mut s = new_state();
    let id = s.ids.fresh();
    s.document.elements.push(Element::from_rectangle(
        Rectangle::new(0, 0, 10, 10, Color::Rgb { red: 0, green: 0, blue: 0 }, None, None),
        id,
    ));
    // pressing, then release
    s.handle_event(mouse_down(5, 5), false);
    s.handle_event(mouse_up(5, 5), false);
    assert!(matches!(s.drag_handler.state, DragState::Idle));
    // dragging, then release
    s.handle_event(mouse_down(5, 5), false);
    s.handle_event(mouse_move(8, 8), false);
    s.handle_event(mouse_up(8, 8), false);
    assert!(matches!(s.drag_handler.state, DragState::Idle));
    // camera, then release
    s.handle_event(key_down(" "), false);
    s.handle_event(mouse_down(8, 8), false);
    s.handle_event(mouse_up(8, 8), false);
    assert!(matches!(s.drag_handler.state, DragState::Idle));
}

#[test]
fn mouse_button_codes() {
    assert_eq!(MouseButton::try_from(0), Ok(MouseButton::Left));
    assert_eq!(MouseButton::try_from(1), Ok(MouseButton::Middle));
    assert_eq!(MouseButton::try_from(2), Ok(MouseButton::Right));
    assert_eq!(MouseButton::try_from(3), Ok(MouseButton::Back));
    assert_eq!(MouseButton::try_from(4), Ok(MouseButton::Forward));
    assert_eq!(MouseButton::try_from(5), Err(()));
    assert_eq!(MouseButton::try_from(-1), Err(()));
}

#[test]
fn camera_translation_accumulates_and_saturates() {
    let mut c = Camera::default();
    c.translate(10, -20);
    assert_eq!((c.x(), c.y()), (10, -20));
    c.translate(i32::MAX, i32::MIN);
    assert_eq!((c.x(), c.y()), (i32::MAX, i32::MIN));
}

#[test]
fn class_measures_against_canvas() {
    let canvas = TestCanvas;
    let mut class = Class::new(0, 0, "Ab".to_owned(), None, None, None);
    assert_eq!(class.width(), None);
    assert_eq!(class.height(), None);
    let mut el = Element::from_class(class.clone(), Id::new(1));
    el.initalize(&canvas);
    match el.inner {
        ElementType::Class(c) => class = c,
        _ => panic!("class variant expected"),
    }
    // widest label: "Attribute 1" (11 chars * 10px) + 2 * 20 margin
    assert_eq!(class.width(), Some(150));
    // title 20 + 2*20 margin, then two attributes at 16 spacing + 20
    assert_eq!(class.height(), Some(60 + 36 + 36));
}
