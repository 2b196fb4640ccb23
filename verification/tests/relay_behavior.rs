use uml_core::color::Color;
use uml_core::element::Element;
use uml_core::event::SocketMessage;
use uml_core::id::IdGenerator;
use uml_core::rectangle::Rectangle;
use uml_core::relay::{State, WsMessage};

fn sample_json() -> String {
    let mut doc = uml_core::document::Document::default();
    let mut gen = IdGenerator::new();
    doc.add_element(Element::from_rectangle(
        Rectangle::new(0, 0, 10, 10, Color::Rgb { red: 0, green: 0, blue: 0 }, None, None),
        gen.fresh(),
    ));
    String::from_utf8(doc.to_json()).unwrap()
}

#[test]
fn new_client_gets_current_document() {
    let mut relay = State::new();
    let (id, greeting) = relay.connect_client().expect("well has room");
    assert_eq!(greeting, relay.latest_document.to_json());
    assert!(!relay.has_client(id));
    relay.confirm_client(id);
    assert!(relay.has_client(id));
}

#[test]
fn two_client_sync_echoes_bytes_to_other_peer_only() {
    let mut relay = State::new();
    let (a, _) = relay.connect_client().unwrap();
    relay.confirm_client(a);
    let (b, _) = relay.connect_client().unwrap();
    relay.confirm_client(b);

    let json = sample_json();
    let m = relay.read_message(a, Some(SocketMessage::Text(json.clone())));
    let (payload, targets) = match m {
        WsMessage::Document { .. } => relay.client_received(m).expect("a document fans out"),
        _ => panic!("the frame parses"),
    };
    // byte-for-byte echo, to the other peer exactly once, sender zero
    assert_eq!(payload, json);
    assert_eq!(targets.len(), 1);
    assert_eq!(targets[0].0, b.0);
    // the authoritative copy was replaced
    assert_eq!(String::from_utf8(relay.latest_document.to_json()).unwrap(), json);

    // a late joiner is greeted with the replaced document, re-serialised
    let (_, greeting) = relay.connect_client().unwrap();
    assert_eq!(String::from_utf8(greeting).unwrap(), json);
}

#[test]
fn relay_drops_peer_on_bad_frame() {
    let mut relay = State::new();
    let (a, _) = relay.connect_client().unwrap();
    relay.confirm_client(a);
    let (b, _) = relay.connect_client().unwrap();
    relay.confirm_client(b);

    let m = relay.read_message(a, Some(SocketMessage::Text("not-json".to_owned())));
    assert!(matches!(m, WsMessage::DeserializeError { .. }));
    let r = relay.client_received(m);
    assert!(r.is_none());
    assert!(!relay.has_client(a));
    assert!(relay.has_client(b));
}

#[test]
fn relay_drops_peer_on_binary_or_close() {
    let mut relay = State::new();
    let (a, _) = relay.connect_client().unwrap();
    relay.confirm_client(a);

    let m = relay.read_message(a, Some(SocketMessage::Bytes(vec![1, 2, 3])));
    assert!(matches!(m, WsMessage::Closed { .. }));
    relay.client_received(m);
    assert!(!relay.has_client(a));

    let (c, _) = relay.connect_client().unwrap();
    relay.confirm_client(c);
    let m = relay.read_message(c, None);
    assert!(matches!(m, WsMessage::Closed { .. }));
    relay.client_received(m);
    assert!(!relay.has_client(c));
}

#[test]
fn relay_client_ids_are_unique() {
    let mut relay = State::new();
    let (a, _) = relay.connect_client().unwrap();
    relay.confirm_client(a);
    let (b, _) = relay.connect_client().unwrap();
    relay.confirm_client(b);
    let (c, _) = relay.connect_client().unwrap();
    relay.confirm_client(c);
    assert_ne!(a.0, b.0);
    assert_ne!(b.0, c.0);
    assert_ne!(a.0, c.0);
}

#[test]
fn stop_drains_every_peer() {
    let mut relay = State::new();
    let (a, _) = relay.connect_client().unwrap();
    relay.confirm_client(a);
    let (b, _) = relay.connect_client().unwrap();
    relay.confirm_client(b);
    let to_close = relay.stop();
    assert_eq!(to_close.len(), 2);
    assert!(!relay.has_client(a));
    assert!(!relay.has_client(b));
}
