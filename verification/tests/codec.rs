use uml_core::color::Color;
use uml_core::document::Document;
use uml_core::element::{Element, ElementType};
use uml_core::id::{Id, IdGenerator};
use uml_core::interaction::InteractionState;
use uml_core::label::Label;
use uml_core::rectangle::Rectangle;
use uml_core::stroke::Stroke;
use uml_core::text::TextProperties;

fn black() -> Color {
    Color::Rgb { red: 0, green: 0, blue: 0 }
}

fn rect(x: i32, y: i32, w: u32, h: u32) -> Rectangle {
    Rectangle::new(x, y, w, h, black(), None, None)
}

fn fresh_doc() -> Document {
    Document::default()
}

#[test]
fn serializes_one_rectangle_exactly() {
    let mut doc = fresh_doc();
    doc.add_element(Element::from_rectangle(rect(0, 0, 10, 10), Id::new(1)));
    let json = String::from_utf8(doc.to_json()).expect("serialisation is UTF-8");
    assert_eq!(
        json,
        "{\"elements\":[{\"inner\":{\"Rectangle\":{\"x\":0,\"y\":0,\"width\":10,\"height\":10,\
         \"color\":{\"Rgb\":{\"red\":0,\"green\":0,\"blue\":0}},\"radius\":null,\"stroke\":null}}}],\
         \"color\":{\"Rgb\":{\"red\":240,\"green\":240,\"blue\":240}}}"
    );
}

#[test]
fn serializes_empty_document() {
    let doc = fresh_doc();
    let json = String::from_utf8(doc.to_json()).unwrap();
    assert_eq!(
        json,
        "{\"elements\":[],\"color\":{\"Rgb\":{\"red\":240,\"green\":240,\"blue\":240}}}"
    );
}

#[test]
fn convert_to_and_from_json() {
    // A document with every element kind survives the round trip
    // (modulo transient fields).
    let mut doc = fresh_doc();
    let mut gen = IdGenerator::new();
    doc.add_element(Element::from_rectangle(
        Rectangle::new(50, 50, 20, 20, black(), Some(2), Some(Stroke::new(1, black()))),
        gen.fresh(),
    ));
    doc.add_element(Element::from_label(
        Label::new(-7, 12, "hello".to_owned(), TextProperties::new(20, "Arial".to_owned()), black()),
        gen.fresh(),
    ));
    doc.add_element(Element::from_class(
        uml_core::class::Class::new(50, 20, "MyClassTitle".to_owned(), None, None, Some(3)),
        gen.fresh(),
    ));

    let json = doc.to_json();
    let parsed = Document::from_json(&json, &mut gen).expect("own serialisation parses");
    assert_eq!(parsed.to_json(), json);
    assert_eq!(parsed.elements.len(), 3);
    assert_eq!(parsed.color, doc.color);
    match (&parsed.elements[2].inner, &doc.elements[2].inner) {
        (ElementType::Class(a), ElementType::Class(b)) => {
            assert_eq!(a.title.text, b.title.text);
            assert_eq!(a.attributes.len(), b.attributes.len());
            assert_eq!(a.radius, b.radius);
        },
        _ => panic!("class variant expected"),
    }
}

#[test]
fn round_trip_negative_coordinates_and_extremes() {
    let mut doc = fresh_doc();
    let mut gen = IdGenerator::new();
    doc.add_element(Element::from_rectangle(
        Rectangle::new(i32::MIN, i32::MAX, u32::MAX, 0, black(), Some(u32::MAX), None),
        gen.fresh(),
    ));
    let json = doc.to_json();
    let parsed = Document::from_json(&json, &mut gen).unwrap();
    match &parsed.elements[0].inner {
        ElementType::Rectangle(r) => {
            assert_eq!(r.x, i32::MIN);
            assert_eq!(r.y, i32::MAX);
            assert_eq!(r.width, u32::MAX);
            assert_eq!(r.height, 0);
            assert_eq!(r.radius, Some(u32::MAX));
        },
        _ => panic!("rectangle variant expected"),
    }
}

#[test]
fn round_trip_escaped_text() {
    let mut doc = fresh_doc();
    let mut gen = IdGenerator::new();
    doc.add_element(Element::from_label(
        Label::new(
            0,
            0,
            "a \"quoted\" back\\slash \u{00e9}\u{1F600}".to_owned(),
            TextProperties::default(),
            black(),
        ),
        gen.fresh(),
    ));
    let json = doc.to_json();
    let parsed = Document::from_json(&json, &mut gen).unwrap();
    match &parsed.elements[0].inner {
        ElementType::Label(l) => {
            assert_eq!(l.text, "a \"quoted\" back\\slash \u{00e9}\u{1F600}");
            // measured sizes are transient and come back unmeasured
            assert_eq!(l.width, None);
            assert_eq!(l.height, None);
        },
        _ => panic!("label variant expected"),
    }
}

#[test]
fn rejects_garbage() {
    let mut gen = IdGenerator::new();
    assert!(Document::from_json(b"not-json", &mut gen).is_none());
    assert!(Document::from_json(b"", &mut gen).is_none());
    assert!(Document::from_json(b"{\"elements\":[", &mut gen).is_none());
    // trailing bytes after a valid document are refused
    let mut good = fresh_doc().to_json();
    good.push(b' ');
    assert!(Document::from_json(&good, &mut gen).is_none());
}

#[test]
fn parsed_elements_get_fresh_distinct_ids() {
    let mut doc = fresh_doc();
    let mut gen = IdGenerator::new();
    doc.add_element(Element::from_rectangle(rect(0, 0, 1, 1), gen.fresh()));
    doc.add_element(Element::from_rectangle(rect(5, 5, 1, 1), gen.fresh()));
    let json = doc.to_json();
    let parsed = Document::from_json(&json, &mut gen).unwrap();
    let a = parsed.elements[0].id;
    let b = parsed.elements[1].id;
    assert_ne!(a.0, b.0);
    assert!(a.0 >= 3 && b.0 >= 3);
    assert!(parsed.synchronized);
}

#[test]
fn font_string_formats_weight_size_family() {
    let props = TextProperties::default();
    assert_eq!(props.get_font_string(), "400 20px Arial,sans-serif");
    let bold = TextProperties::default().weight(700);
    assert_eq!(bold.get_font_string(), "700 20px Arial,sans-serif");
}

#[test]
fn interaction_state_flags() {
    let mut s = InteractionState::new();
    assert!(!s.is_hovered());
    s.set_hover(true);
    assert!(s.is_hovered());
    s.set_hover(false);
    assert!(!s.is_hovered());
}

#[test]
fn round_trip_control_characters() {
    // control characters are escaped as \u sequences and survive the
    // round trip
    let mut doc = fresh_doc();
    let mut gen = IdGenerator::new();
    doc.add_element(Element::from_label(
        Label::new(
            0,
            0,
            "line\nbreak\ttab\u{0} end".to_owned(),
            TextProperties::default(),
            black(),
        ),
        gen.fresh(),
    ));
    let json = doc.to_json();
    let text = String::from_utf8(json.clone()).unwrap();
    assert!(text.contains("\\u000a"));
    assert!(text.contains("\\u0009"));
    assert!(text.contains("\\u0000"));
    assert!(!text.contains('\n'));
    let parsed = Document::from_json(&json, &mut gen).unwrap();
    match &parsed.elements[0].inner {
        ElementType::Label(l) => {
            assert_eq!(l.text, "line\nbreak\ttab\u{0} end");
        },
        _ => panic!("label variant expected"),
    }
}

#[test]
fn measurement_failure_keeps_previous_size() {
    // a label measured once keeps its size when a later measure fails
    let mut l = Label::new(0, 0, "t".to_owned(), TextProperties::default(), black());
    l.apply_measurement(Some(uml_core::size::Size::new(30, 12)));
    assert_eq!((l.width, l.height), (Some(30), Some(12)));
    l.apply_measurement(None);
    assert_eq!((l.width, l.height), (Some(30), Some(12)));
}
