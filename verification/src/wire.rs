use vstd::prelude::*;

use crate::class::Class;
use crate::color::Color;
use crate::document::Document;
use crate::element::{Element, ElementType};
use crate::label::Label;
use crate::rectangle::Rectangle;
use crate::stroke::Stroke;
use crate::text::TextProperties;

verus! {

use vstd::string::StringSliceAdditionalSpecFns;
use vstd::utf8::{decode_utf8, encode_utf8, valid_utf8};

// The wire view of a value is exactly what the JSON codec carries:
// the persistent fields, with text as character sequences. Transient
// fields (identifiers, hover flags, measured sizes, the info overlay,
// the synchronised flag) have no wire counterpart.

pub ghost struct WireText {
    pub size: u32,
    pub font: Seq<char>,
    pub weight: Option<u32>,
}

pub ghost struct WireLabel {
    pub x: i32,
    pub y: i32,
    pub text: Seq<char>,
    pub props: WireText,
    pub color: Color,
}

pub ghost struct WireRect {
    pub x: i32,
    pub y: i32,
    pub width: u32,
    pub height: u32,
    pub color: Color,
    pub radius: Option<u32>,
    pub stroke: Option<Stroke>,
}

pub ghost struct WireClass {
    pub x: i32,
    pub y: i32,
    pub color: Color,
    pub radius: Option<u32>,
    pub stroke: Option<Stroke>,
    pub title: WireLabel,
    pub attributes: Seq<WireLabel>,
}

pub ghost enum WireElement {
    Rectangle(WireRect),
    Label(WireLabel),
    Class(WireClass),
}

pub ghost struct WireDocument {
    pub elements: Seq<WireElement>,
    pub color: Color,
}

impl TextProperties {
    pub open spec fn wire(self) -> WireText {
        WireText { size: self.size, font: self.font@, weight: self.weight }
    }
}

impl Label {
    pub open spec fn wire(self) -> WireLabel {
        WireLabel {
            x: self.x,
            y: self.y,
            text: self.text@,
            props: self.properties.wire(),
            color: self.color,
        }
    }
}

impl Rectangle {
    pub open spec fn wire(self) -> WireRect {
        WireRect {
            x: self.x,
            y: self.y,
            width: self.width,
            height: self.height,
            color: self.color,
            radius: self.radius,
            stroke: self.stroke,
        }
    }
}

impl Class {
    pub open spec fn wire(self) -> WireClass {
        WireClass {
            x: self.x,
            y: self.y,
            color: self.color,
            radius: self.radius,
            stroke: self.stroke,
            title: self.title.wire(),
            attributes: self.attributes@.map_values(|l: Label| l.wire()),
        }
    }
}

impl Element {
    pub open spec fn wire(self) -> WireElement {
        match self.inner {
            ElementType::Rectangle(r) => WireElement::Rectangle(r.wire()),
            ElementType::Label(l) => WireElement::Label(l.wire()),
            ElementType::Class(c) => WireElement::Class(c.wire()),
        }
    }
}

impl Document {
    pub open spec fn wire(self) -> WireDocument {
        WireDocument {
            elements: self.elements@.map_values(|e: Element| e.wire()),
            color: self.color,
        }
    }
}

/// The bytes of an ASCII literal of the grammar.
pub open spec fn lit(s: &str) -> Seq<u8> {
    s.spec_bytes()
}

pub open spec fn is_digit_byte(b: u8) -> bool {
    48 <= b <= 57
}

/// The decimal digits of `n`, most significant first.
pub open spec fn dec_digits(n: int) -> Seq<u8>
    recommends
        n >= 0,
    decreases n,
{
    if n < 10 {
        seq![(48 + if n >= 0 {
            n
        } else {
            0
        }) as u8]
    } else {
        dec_digits(n / 10).push((48 + n % 10) as u8)
    }
}

pub open spec fn ser_u32(n: u32) -> Seq<u8> {
    dec_digits(n as int)
}

pub open spec fn ser_u8(n: u8) -> Seq<u8> {
    dec_digits(n as int)
}

pub open spec fn ser_i32(n: i32) -> Seq<u8> {
    if n < 0 {
        seq![45u8] + dec_digits(-(n as int))
    } else {
        dec_digits(n as int)
    }
}

/// The lower-case hexadecimal digit for a value below sixteen.
pub open spec fn hex_digit(n: int) -> u8
    recommends
        0 <= n < 16,
{
    if n < 10 {
        (48 + n) as u8
    } else {
        (87 + n) as u8
    }
}

pub open spec fn is_hex_byte(b: u8) -> bool {
    (48 <= b <= 57) || (97 <= b <= 102)
}

/// The value of a lower-case hexadecimal digit.
pub open spec fn hex_val(b: u8) -> int
    recommends
        is_hex_byte(b),
{
    if 48 <= b <= 57 {
        b - 48
    } else {
        b - 87
    }
}

/// One byte of string content, escaped: quote and backslash get a
/// backslash prefix, a control byte becomes its six-byte `\u00..`
/// escape so the output stays valid JSON, everything else passes
/// through (bytes of multi-byte characters are all above the
/// control range).
pub open spec fn esc_byte(b: u8) -> Seq<u8> {
    if b == 34 || b == 92 {
        seq![92u8, b]
    } else if b < 32 {
        seq![92u8, 117u8, 48u8, 48u8, hex_digit(b as int / 16), hex_digit(b as int % 16)]
    } else {
        seq![b]
    }
}

/// The escaped form of a byte sequence.
pub open spec fn esc(b: Seq<u8>) -> Seq<u8>
    decreases b.len(),
{
    if b.len() == 0 {
        Seq::empty()
    } else {
        esc_byte(b[0]) + esc(b.drop_first())
    }
}

/// A JSON string: the UTF-8 bytes of the text, escaped, in quotes.
pub open spec fn ser_string(t: Seq<char>) -> Seq<u8> {
    seq![34u8] + esc(encode_utf8(t)) + seq![34u8]
}

pub open spec fn ser_color(c: Color) -> Seq<u8> {
    match c {
        Color::Rgb { red, green, blue } => lit("{\"Rgb\":{\"red\":") + ser_u8(red) + lit(
            ",\"green\":",
        ) + ser_u8(green) + lit(",\"blue\":") + ser_u8(blue) + lit("}}"),
    }
}

pub open spec fn ser_opt_u32(o: Option<u32>) -> Seq<u8> {
    match o {
        None => lit("null"),
        Some(v) => ser_u32(v),
    }
}

pub open spec fn ser_stroke(s: Stroke) -> Seq<u8> {
    lit("{\"width\":") + ser_u32(s.width) + lit(",\"color\":") + ser_color(s.color) + lit("}")
}

pub open spec fn ser_opt_stroke(o: Option<Stroke>) -> Seq<u8> {
    match o {
        None => lit("null"),
        Some(s) => ser_stroke(s),
    }
}

pub open spec fn ser_text(t: WireText) -> Seq<u8> {
    lit("{\"size\":") + ser_u32(t.size) + lit(",\"font\":") + ser_string(t.font) + lit(
        ",\"weight\":",
    ) + ser_opt_u32(t.weight) + lit("}")
}

pub open spec fn ser_label(l: WireLabel) -> Seq<u8> {
    lit("{\"x\":") + ser_i32(l.x) + lit(",\"y\":") + ser_i32(l.y) + lit(",\"text\":") + ser_string(
        l.text,
    ) + lit(",\"properties\":") + ser_text(l.props) + lit(",\"color\":") + ser_color(l.color)
        + lit("}")
}

/// One or more labels, comma separated.
pub open spec fn ser_labels(ls: Seq<WireLabel>) -> Seq<u8>
    decreases ls.len(),
{
    if ls.len() == 0 {
        Seq::empty()
    } else if ls.len() == 1 {
        ser_label(ls[0])
    } else {
        ser_label(ls[0]) + lit(",") + ser_labels(ls.drop_first())
    }
}

pub open spec fn ser_rect(r: WireRect) -> Seq<u8> {
    lit("{\"x\":") + ser_i32(r.x) + lit(",\"y\":") + ser_i32(r.y) + lit(",\"width\":") + ser_u32(
        r.width,
    ) + lit(",\"height\":") + ser_u32(r.height) + lit(",\"color\":") + ser_color(r.color) + lit(
        ",\"radius\":",
    ) + ser_opt_u32(r.radius) + lit(",\"stroke\":") + ser_opt_stroke(r.stroke) + lit("}")
}

/// The attribute list of a class together with its delimiters and the
/// closing brace.
pub open spec fn ser_labels_block(ls: Seq<WireLabel>) -> Seq<u8> {
    lit(",\"attributes\":[") + ser_labels(ls) + lit("]}")
}

pub open spec fn ser_class(c: WireClass) -> Seq<u8> {
    lit("{\"x\":") + ser_i32(c.x) + lit(",\"y\":") + ser_i32(c.y) + lit(",\"color\":") + ser_color(
        c.color,
    ) + lit(",\"radius\":") + ser_opt_u32(c.radius) + lit(",\"stroke\":") + ser_opt_stroke(
        c.stroke,
    ) + lit(",\"title\":") + ser_label(c.title) + ser_labels_block(c.attributes)
}

pub open spec fn ser_element(e: WireElement) -> Seq<u8> {
    lit("{\"inner\":") + (match e {
        WireElement::Rectangle(r) => lit("{\"Rectangle\":") + ser_rect(r) + lit("}"),
        WireElement::Label(l) => lit("{\"Label\":") + ser_label(l) + lit("}"),
        WireElement::Class(c) => lit("{\"Class\":") + ser_class(c) + lit("}"),
    }) + lit("}")
}

/// One or more elements, comma separated.
pub open spec fn ser_elements(es: Seq<WireElement>) -> Seq<u8>
    decreases es.len(),
{
    if es.len() == 0 {
        Seq::empty()
    } else if es.len() == 1 {
        ser_element(es[0])
    } else {
        ser_element(es[0]) + lit(",") + ser_elements(es.drop_first())
    }
}

/// The canonical JSON serialisation of a document.
pub open spec fn ser_document(d: WireDocument) -> Seq<u8> {
    lit("{\"elements\":[") + ser_elements(d.elements) + lit("],\"color\":") + ser_color(d.color)
        + lit("}")
}

// ---------------------------------------------------------------------
// The parser: strict recursive descent over the canonical form above.
// Every function consumes from the front and returns the value and the
// unconsumed rest, or `None` when the input does not start with the
// expected production.

/// Consumes an expected literal.
pub open spec fn parse_lit(s: Seq<u8>, l: Seq<u8>) -> Option<Seq<u8>> {
    if l.len() <= s.len() && s.take(l.len() as int) == l {
        Some(s.skip(l.len() as int))
    } else {
        None
    }
}

/// Consumes the maximal digit run, accumulating onto `acc`.
pub open spec fn parse_nat_rec(s: Seq<u8>, acc: int) -> (int, Seq<u8>)
    decreases s.len(),
{
    if s.len() > 0 && is_digit_byte(s[0]) {
        parse_nat_rec(s.drop_first(), acc * 10 + (s[0] - 48))
    } else {
        (acc, s)
    }
}

pub open spec fn parse_u32(s: Seq<u8>) -> Option<(u32, Seq<u8>)> {
    if s.len() > 0 && is_digit_byte(s[0]) {
        let (v, r) = parse_nat_rec(s, 0);
        if v <= u32::MAX {
            Some((v as u32, r))
        } else {
            None
        }
    } else {
        None
    }
}

pub open spec fn parse_u8(s: Seq<u8>) -> Option<(u8, Seq<u8>)> {
    if s.len() > 0 && is_digit_byte(s[0]) {
        let (v, r) = parse_nat_rec(s, 0);
        if v <= u8::MAX {
            Some((v as u8, r))
        } else {
            None
        }
    } else {
        None
    }
}

pub open spec fn parse_i32(s: Seq<u8>) -> Option<(i32, Seq<u8>)> {
    if s.len() > 0 && s[0] == 45 {
        let neg = s.drop_first();
        if neg.len() > 0 && is_digit_byte(neg[0]) {
            let (v, r) = parse_nat_rec(neg, 0);
            if v <= 0x8000_0000 {
                Some(((-v) as i32, r))
            } else {
                None
            }
        } else {
            None
        }
    } else if s.len() > 0 && is_digit_byte(s[0]) {
        let (v, r) = parse_nat_rec(s, 0);
        if v <= i32::MAX {
            Some((v as i32, r))
        } else {
            None
        }
    } else {
        None
    }
}

/// Consumes escaped string content up to the closing quote, returning
/// the raw (unescaped) bytes.
pub open spec fn parse_str_bytes(s: Seq<u8>) -> Option<(Seq<u8>, Seq<u8>)>
    decreases s.len(),
{
    if s.len() == 0 {
        None
    } else if s[0] == 34 {
        Some((Seq::empty(), s.drop_first()))
    } else if s[0] == 92 {
        if s.len() >= 2 && s[1] == 117 {
            if s.len() >= 6 && s[2] == 48 && s[3] == 48 && is_hex_byte(s[4]) && is_hex_byte(
                s[5],
            ) {
                match parse_str_bytes(s.skip(6)) {
                    Some((b, r)) => Some(
                        (seq![(hex_val(s[4]) * 16 + hex_val(s[5])) as u8] + b, r),
                    ),
                    None => None,
                }
            } else {
                None
            }
        } else if s.len() >= 2 {
            match parse_str_bytes(s.skip(2)) {
                Some((b, r)) => Some((seq![s[1]] + b, r)),
                None => None,
            }
        } else {
            None
        }
    } else {
        match parse_str_bytes(s.drop_first()) {
            Some((b, r)) => Some((seq![s[0]] + b, r)),
            None => None,
        }
    }
}

/// Consumes a quoted string and decodes it as UTF-8.
pub open spec fn parse_string(s: Seq<u8>) -> Option<(Seq<char>, Seq<u8>)> {
    if s.len() > 0 && s[0] == 34 {
        match parse_str_bytes(s.drop_first()) {
            Some((b, r)) => if valid_utf8(b) {
                Some((decode_utf8(b), r))
            } else {
                None
            },
            None => None,
        }
    } else {
        None
    }
}

pub open spec fn parse_color(s: Seq<u8>) -> Option<(Color, Seq<u8>)> {
    match parse_lit(s, lit("{\"Rgb\":{\"red\":")) {
        None => None,
        Some(s1) => match parse_u8(s1) {
            None => None,
            Some((red, s2)) => match parse_lit(s2, lit(",\"green\":")) {
                None => None,
                Some(s3) => match parse_u8(s3) {
                    None => None,
                    Some((green, s4)) => match parse_lit(s4, lit(",\"blue\":")) {
                        None => None,
                        Some(s5) => match parse_u8(s5) {
                            None => None,
                            Some((blue, s6)) => match parse_lit(s6, lit("}}")) {
                                None => None,
                                Some(s7) => Some((Color::Rgb { red, green, blue }, s7)),
                            },
                        },
                    },
                },
            },
        },
    }
}

pub open spec fn parse_opt_u32(s: Seq<u8>) -> Option<(Option<u32>, Seq<u8>)> {
    if s.len() > 0 && s[0] == 110 {
        match parse_lit(s, lit("null")) {
            None => None,
            Some(r) => Some((None, r)),
        }
    } else {
        match parse_u32(s) {
            None => None,
            Some((v, r)) => Some((Some(v), r)),
        }
    }
}

pub open spec fn parse_stroke(s: Seq<u8>) -> Option<(Stroke, Seq<u8>)> {
    match parse_lit(s, lit("{\"width\":")) {
        None => None,
        Some(s1) => match parse_u32(s1) {
            None => None,
            Some((width, s2)) => match parse_lit(s2, lit(",\"color\":")) {
                None => None,
                Some(s3) => match parse_color(s3) {
                    None => None,
                    Some((color, s4)) => match parse_lit(s4, lit("}")) {
                        None => None,
                        Some(s5) => Some((Stroke { width, color }, s5)),
                    },
                },
            },
        },
    }
}

pub open spec fn parse_opt_stroke(s: Seq<u8>) -> Option<(Option<Stroke>, Seq<u8>)> {
    if s.len() > 0 && s[0] == 110 {
        match parse_lit(s, lit("null")) {
            None => None,
            Some(r) => Some((None, r)),
        }
    } else {
        match parse_stroke(s) {
            None => None,
            Some((v, r)) => Some((Some(v), r)),
        }
    }
}

pub open spec fn parse_text(s: Seq<u8>) -> Option<(WireText, Seq<u8>)> {
    match parse_lit(s, lit("{\"size\":")) {
        None => None,
        Some(s1) => match parse_u32(s1) {
            None => None,
            Some((size, s2)) => match parse_lit(s2, lit(",\"font\":")) {
                None => None,
                Some(s3) => match parse_string(s3) {
                    None => None,
                    Some((font, s4)) => match parse_lit(s4, lit(",\"weight\":")) {
                        None => None,
                        Some(s5) => match parse_opt_u32(s5) {
                            None => None,
                            Some((weight, s6)) => match parse_lit(s6, lit("}")) {
                                None => None,
                                Some(s7) => Some((WireText { size, font, weight }, s7)),
                            },
                        },
                    },
                },
            },
        },
    }
}

pub open spec fn parse_label(s: Seq<u8>) -> Option<(WireLabel, Seq<u8>)> {
    match parse_lit(s, lit("{\"x\":")) {
        None => None,
        Some(s1) => match parse_i32(s1) {
            None => None,
            Some((x, s2)) => match parse_lit(s2, lit(",\"y\":")) {
                None => None,
                Some(s3) => match parse_i32(s3) {
                    None => None,
                    Some((y, s4)) => match parse_lit(s4, lit(",\"text\":")) {
                        None => None,
                        Some(s5) => match parse_string(s5) {
                            None => None,
                            Some((text, s6)) => match parse_lit(s6, lit(",\"properties\":")) {
                                None => None,
                                Some(s7) => match parse_text(s7) {
                                    None => None,
                                    Some((props, s8)) => match parse_lit(s8, lit(",\"color\":")) {
                                        None => None,
                                        Some(s9) => match parse_color(s9) {
                                            None => None,
                                            Some((color, s10)) => match parse_lit(
                                                s10,
                                                lit("}"),
                                            ) {
                                                None => None,
                                                Some(s11) => Some(
                                                    (WireLabel { x, y, text, props, color }, s11),
                                                ),
                                            },
                                        },
                                    },
                                },
                            },
                        },
                    },
                },
            },
        },
    }
}

/// One or more comma-separated labels. The guard that the recursive
/// call sees a strictly shorter input can never fail, because a label
/// consumes at least its braces.
pub open spec fn parse_labels(s: Seq<u8>) -> Option<(Seq<WireLabel>, Seq<u8>)>
    decreases s.len(),
{
    match parse_label(s) {
        None => None,
        Some((l, r)) => if r.len() < s.len() {
            if r.len() > 0 && r[0] == 44 {
                match parse_labels(r.drop_first()) {
                    None => None,
                    Some((ls, r2)) => Some((seq![l] + ls, r2)),
                }
            } else {
                Some((seq![l], r))
            }
        } else {
            None
        },
    }
}

pub open spec fn parse_class(s: Seq<u8>) -> Option<(WireClass, Seq<u8>)> {
    match parse_lit(s, lit("{\"x\":")) {
        None => None,
        Some(s1) => match parse_i32(s1) {
            None => None,
            Some((x, s2)) => match parse_lit(s2, lit(",\"y\":")) {
                None => None,
                Some(s3) => match parse_i32(s3) {
                    None => None,
                    Some((y, s4)) => match parse_lit(s4, lit(",\"color\":")) {
                        None => None,
                        Some(s5) => match parse_color(s5) {
                            None => None,
                            Some((color, s6)) => parse_class_mid(s6, x, y, color),
                        },
                    },
                },
            },
        },
    }
}

/// The radius, stroke and title of a class, then its attribute list.
pub open spec fn parse_class_mid(s: Seq<u8>, x: i32, y: i32, color: Color) -> Option<
    (WireClass, Seq<u8>),
> {
    match parse_lit(s, lit(",\"radius\":")) {
        None => None,
        Some(s1) => match parse_opt_u32(s1) {
            None => None,
            Some((radius, s2)) => match parse_lit(s2, lit(",\"stroke\":")) {
                None => None,
                Some(s3) => match parse_opt_stroke(s3) {
                    None => None,
                    Some((stroke, s4)) => match parse_lit(s4, lit(",\"title\":")) {
                        None => None,
                        Some(s5) => match parse_label(s5) {
                            None => None,
                            Some((title, s6)) => parse_class_tail(
                                s6,
                                x,
                                y,
                                color,
                                radius,
                                stroke,
                                title,
                            ),
                        },
                    },
                },
            },
        },
    }
}

/// The attribute list and closing of a class.
pub open spec fn parse_class_tail(
    s: Seq<u8>,
    x: i32,
    y: i32,
    color: Color,
    radius: Option<u32>,
    stroke: Option<Stroke>,
    title: WireLabel,
) -> Option<(WireClass, Seq<u8>)> {
    match parse_lit(s, lit(",\"attributes\":[")) {
        None => None,
        Some(s1) => if s1.len() > 0 && s1[0] == 93 {
            match parse_lit(s1, lit("]}")) {
                None => None,
                Some(s2) => Some(
                    (
                        WireClass {
                            x,
                            y,
                            color,
                            radius,
                            stroke,
                            title,
                            attributes: Seq::empty(),
                        },
                        s2,
                    ),
                ),
            }
        } else {
            match parse_labels(s1) {
                None => None,
                Some((attrs, s2)) => match parse_lit(s2, lit("]}")) {
                    None => None,
                    Some(s3) => Some(
                        (WireClass { x, y, color, radius, stroke, title, attributes: attrs }, s3),
                    ),
                },
            }
        },
    }
}

pub open spec fn parse_element(s: Seq<u8>) -> Option<(WireElement, Seq<u8>)> {
    match parse_lit(s, lit("{\"inner\":")) {
        None => None,
        Some(s1) => match parse_element_body(s1) {
            None => None,
            Some((e, s2)) => match parse_lit(s2, lit("}")) {
                None => None,
                Some(s3) => Some((e, s3)),
            },
        },
    }
}

/// The tagged shape inside an element: the tag picks the variant.
pub open spec fn parse_element_body(s: Seq<u8>) -> Option<(WireElement, Seq<u8>)> {
    if parse_lit(s, lit("{\"Rectangle\":")) is Some {
        match parse_rect(parse_lit(s, lit("{\"Rectangle\":"))->Some_0) {
            None => None,
            Some((r, s2)) => match parse_lit(s2, lit("}")) {
                None => None,
                Some(s3) => Some((WireElement::Rectangle(r), s3)),
            },
        }
    } else if parse_lit(s, lit("{\"Label\":")) is Some {
        match parse_label(parse_lit(s, lit("{\"Label\":"))->Some_0) {
            None => None,
            Some((l, s2)) => match parse_lit(s2, lit("}")) {
                None => None,
                Some(s3) => Some((WireElement::Label(l), s3)),
            },
        }
    } else if parse_lit(s, lit("{\"Class\":")) is Some {
        match parse_class(parse_lit(s, lit("{\"Class\":"))->Some_0) {
            None => None,
            Some((c, s2)) => match parse_lit(s2, lit("}")) {
                None => None,
                Some(s3) => Some((WireElement::Class(c), s3)),
            },
        }
    } else {
        None
    }
}

pub open spec fn parse_rect(s: Seq<u8>) -> Option<(WireRect, Seq<u8>)> {
    match parse_lit(s, lit("{\"x\":")) {
        None => None,
        Some(s1) => match parse_i32(s1) {
            None => None,
            Some((x, s2)) => match parse_lit(s2, lit(",\"y\":")) {
                None => None,
                Some(s3) => match parse_i32(s3) {
                    None => None,
                    Some((y, s4)) => match parse_lit(s4, lit(",\"width\":")) {
                        None => None,
                        Some(s5) => match parse_u32(s5) {
                            None => None,
                            Some((width, s6)) => match parse_lit(s6, lit(",\"height\":")) {
                                None => None,
                                Some(s7) => match parse_u32(s7) {
                                    None => None,
                                    Some((height, s8)) => parse_rect_tail(s8, x, y, width, height),
                                },
                            },
                        },
                    },
                },
            },
        },
    }
}

/// The colour, radius, stroke and closing brace of a rectangle.
pub open spec fn parse_rect_tail(s: Seq<u8>, x: i32, y: i32, width: u32, height: u32) -> Option<
    (WireRect, Seq<u8>),
> {
    match parse_lit(s, lit(",\"color\":")) {
        None => None,
        Some(s1) => match parse_color(s1) {
            None => None,
            Some((color, s2)) => match parse_lit(s2, lit(",\"radius\":")) {
                None => None,
                Some(s3) => match parse_opt_u32(s3) {
                    None => None,
                    Some((radius, s4)) => match parse_lit(s4, lit(",\"stroke\":")) {
                        None => None,
                        Some(s5) => match parse_opt_stroke(s5) {
                            None => None,
                            Some((stroke, s6)) => match parse_lit(s6, lit("}")) {
                                None => None,
                                Some(s7) => Some(
                                    (WireRect { x, y, width, height, color, radius, stroke }, s7),
                                ),
                            },
                        },
                    },
                },
            },
        },
    }
}

/// One or more comma-separated elements, guarded like `parse_labels`.
pub open spec fn parse_elements(s: Seq<u8>) -> Option<(Seq<WireElement>, Seq<u8>)>
    decreases s.len(),
{
    match parse_element(s) {
        None => None,
        Some((e, r)) => if r.len() < s.len() {
            if r.len() > 0 && r[0] == 44 {
                match parse_elements(r.drop_first()) {
                    None => None,
                    Some((es, r2)) => Some((seq![e] + es, r2)),
                }
            } else {
                Some((seq![e], r))
            }
        } else {
            None
        },
    }
}

/// Parses the canonical JSON serialisation of a document. The whole
/// input must be consumed.
#[verifier::opaque]
pub open spec fn parse_document(s: Seq<u8>) -> Option<WireDocument> {
    match parse_lit(s, lit("{\"elements\":[")) {
        None => None,
        Some(s1) => {
            let after: Option<(Seq<WireElement>, Seq<u8>)> = if s1.len() > 0 && s1[0] == 93 {
                Some((Seq::empty(), s1))
            } else {
                parse_elements(s1)
            };
            match after {
                None => None,
                Some((es, s2)) => match parse_lit(s2, lit("],\"color\":")) {
                    None => None,
                    Some(s3) => match parse_color(s3) {
                        None => None,
                        Some((color, s4)) => match parse_lit(s4, lit("}")) {
                            None => None,
                            Some(s5) => if s5.len() == 0 {
                                Some(WireDocument { elements: es, color })
                            } else {
                                None
                            },
                        },
                    },
                },
            }
        },
    }
}

} // verus!
