use vstd::prelude::*;

use crate::class::Class;
use crate::color::Color;
use crate::document::{Document, LocalData};
use crate::element::{Element, ElementType};
use crate::id::{Id, IdGenerator};
use crate::info::Info;
use crate::interaction::InteractionState;
use crate::label::Label;
use crate::rectangle::Rectangle;
use crate::stroke::Stroke;
use crate::text::TextProperties;
use crate::wire::{
    is_digit_byte, lit, parse_class, parse_class_mid, parse_class_tail, parse_color,
    parse_document, parse_element, parse_element_body, parse_elements, parse_i32, parse_label,
    parse_labels, parse_lit, parse_nat_rec, parse_opt_stroke, parse_opt_u32, parse_rect,
    parse_rect_tail, parse_str_bytes, parse_string, parse_stroke, parse_u32, parse_u8, WireClass, WireDocument,
    WireElement, WireLabel, WireRect, WireText,
};

verus! {

use vstd::string::{StrSliceExecFns, StringSliceAdditionalSpecFns};
use vstd::utf8::{encode_utf8_decode_utf8, valid_utf8};

// The executable parser: a strict recursive descent over the canonical
// serialisation, each function proven to agree with its spec
// counterpart in `wire`. Parsed values carry default transient fields;
// identifiers are assigned afterwards from the caller's generator.

/// A label fresh off the wire: unmeasured, unhovered.
pub open spec fn label_from_wire(l: Label, w: WireLabel) -> bool {
    &&& l.wire() == w
    &&& l.width is None
    &&& l.height is None
    &&& l.interaction_state.hover == false
}

/// Relies on `String::from_utf8`: it succeeds exactly on valid UTF-8
/// and the returned string holds exactly the given bytes.
#[verifier::external_body]
pub(crate) fn bytes_to_string(v: Vec<u8>) -> (r: Option<String>)
    ensures
        r is Some <==> valid_utf8(v@),
        r matches Some(s) ==> vstd::utf8::encode_utf8(s@) == v@,
{
    match String::from_utf8(v) {
        Ok(s) => Some(s),
        Err(_) => None,
    }
}

/// Consumes an expected literal at `pos`.
fn p_lit(s: &[u8], pos: usize, l: &str) -> (r: Option<usize>)
    requires
        pos <= s@.len(),
    ensures
        (match r {
            Some(p2) => pos <= p2 <= s@.len() && parse_lit(s@.skip(pos as int), lit(l)) == Some(
                s@.skip(p2 as int),
            ),
            None => parse_lit(s@.skip(pos as int), lit(l)) is None,
        }),
{
    let lb = l.as_bytes();
    let n = s.len();
    if n - pos < lb.len() {
        return None;
    }
    let mut j: usize = 0;
    while j < lb.len()
        invariant
            0 <= j <= lb@.len(),
            n == s@.len(),
            pos + lb@.len() <= s@.len(),
            lb@ == lit(l),
            forall|k: int| 0 <= k < j ==> s@.skip(pos as int)[k] == lb@[k],
        decreases lb@.len() - j,
    {
        assert(pos + j < n);
        if s[pos + j] != lb[j] {
            proof {
                assert(s@.skip(pos as int).take(lb@.len() as int)[j as int] != lb@[j as int]);
            }
            return None;
        }
        j = j + 1;
    }
    proof {
        assert(s@.skip(pos as int).take(lb@.len() as int) =~= lb@);
        assert(s@.skip(pos as int).skip(lb@.len() as int) =~= s@.skip(pos as int + lb@.len()));
    }
    Some(pos + lb.len())
}

/// The folded value of a digit run never sinks below its accumulator.
proof fn lemma_nat_rec_ge(s: Seq<u8>, acc: int)
    requires
        acc >= 0,
    ensures
        parse_nat_rec(s, acc).0 >= acc,
    decreases s.len(),
{
    if s.len() > 0 && is_digit_byte(s[0]) {
        assert(acc * 10 + (s[0] - 48) >= acc);
        lemma_nat_rec_ge(s.drop_first(), acc * 10 + (s[0] - 48));
    }
}

/// Consumes the maximal digit run onto `acc`, refusing values beyond
/// `u32::MAX` exactly as the spec does.
fn p_digits(s: &[u8], pos: usize, acc: u64) -> (r: Option<(u64, usize)>)
    requires
        pos <= s@.len(),
        acc <= u32::MAX as u64,
    ensures
        ({
            let folded = parse_nat_rec(s@.skip(pos as int), acc as int);
            match r {
                Some((rv, p2)) => rv as int == folded.0 && folded.0 <= u32::MAX && pos <= p2
                    <= s@.len() && s@.skip(p2 as int) == folded.1,
                None => folded.0 > u32::MAX,
            }
        }),
    decreases s@.len() - pos,
{
    if pos < s.len() && 48 <= s[pos] && s[pos] <= 57 {
        proof {
            assert(s@.skip(pos as int).drop_first() =~= s@.skip(pos as int + 1));
        }
        let d: u64 = (s[pos] - 48) as u64;
        let acc2: u64 = acc * 10 + d;
        if acc2 > u32::MAX as u64 {
            proof {
                lemma_nat_rec_ge(s@.skip(pos as int + 1), acc2 as int);
            }
            None
        } else {
            p_digits(s, pos + 1, acc2)
        }
    } else {
        Some((acc, pos))
    }
}

fn p_u32(s: &[u8], pos: usize) -> (r: Option<(u32, usize)>)
    requires
        pos <= s@.len(),
    ensures
        (match parse_u32(s@.skip(pos as int)) {
            Some((v, rest)) => r matches Some((rv, p2)) && rv == v && pos <= p2 <= s@.len()
                && s@.skip(p2 as int) == rest,
            None => r is None,
        }),
{
    if pos < s.len() && 48 <= s[pos] && s[pos] <= 57 {
        match p_digits(s, pos, 0) {
            Some((v, p2)) => Some((v as u32, p2)),
            None => None,
        }
    } else {
        None
    }
}

fn p_u8(s: &[u8], pos: usize) -> (r: Option<(u8, usize)>)
    requires
        pos <= s@.len(),
    ensures
        (match parse_u8(s@.skip(pos as int)) {
            Some((v, rest)) => r matches Some((rv, p2)) && rv == v && pos <= p2 <= s@.len()
                && s@.skip(p2 as int) == rest,
            None => r is None,
        }),
{
    if pos < s.len() && 48 <= s[pos] && s[pos] <= 57 {
        match p_digits(s, pos, 0) {
            Some((v, p2)) => if v <= u8::MAX as u64 {
                Some((v as u8, p2))
            } else {
                None
            },
            None => None,
        }
    } else {
        None
    }
}

fn p_i32(s: &[u8], pos: usize) -> (r: Option<(i32, usize)>)
    requires
        pos <= s@.len(),
    ensures
        (match parse_i32(s@.skip(pos as int)) {
            Some((v, rest)) => r matches Some((rv, p2)) && rv == v && pos <= p2 <= s@.len()
                && s@.skip(p2 as int) == rest,
            None => r is None,
        }),
{
    if pos < s.len() && s[pos] == 45 {
        proof {
            assert(s@.skip(pos as int).drop_first() =~= s@.skip(pos as int + 1));
        }
        if pos + 1 < s.len() && 48 <= s[pos + 1] && 57 >= s[pos + 1] {
            match p_digits(s, pos + 1, 0) {
                Some((v, p2)) => if v <= 0x8000_0000u64 {
                    Some((-(v as i64) as i32, p2))
                } else {
                    None
                },
                None => None,
            }
        } else {
            None
        }
    } else if pos < s.len() && 48 <= s[pos] && 57 >= s[pos] {
        match p_digits(s, pos, 0) {
            Some((v, p2)) => if v <= i32::MAX as u64 {
                Some((v as i32, p2))
            } else {
                None
            },
            None => None,
        }
    } else {
        None
    }
}

/// Whether a byte is a lower-case hexadecimal digit.
fn is_hex(b: u8) -> (r: bool)
    ensures
        r == crate::wire::is_hex_byte(b),
{
    (48 <= b && b <= 57) || (97 <= b && b <= 102)
}

/// The value of a lower-case hexadecimal digit.
fn hex_value(b: u8) -> (r: u8)
    requires
        crate::wire::is_hex_byte(b),
    ensures
        r as int == crate::wire::hex_val(b),
        r < 16,
{
    if b <= 57 {
        b - 48
    } else {
        b - 87
    }
}

/// Collects escaped string content into `buf` until the closing quote.
fn p_str_bytes(s: &[u8], pos: usize, buf: &mut Vec<u8>) -> (r: Option<usize>)
    requires
        pos <= s@.len(),
    ensures
        (match parse_str_bytes(s@.skip(pos as int)) {
            Some((b, rest)) => r matches Some(p2) && final(buf)@ == old(buf)@ + b && pos <= p2
                <= s@.len() && s@.skip(p2 as int) == rest,
            None => r is None,
        }),
    decreases s@.len() - pos,
{
    if pos >= s.len() {
        return None;
    }
    let c = s[pos];
    if c == 34 {
        proof {
            assert(s@.skip(pos as int).drop_first() =~= s@.skip(pos as int + 1));
            assert(old(buf)@ + Seq::<u8>::empty() =~= old(buf)@);
        }
        Some(pos + 1)
    } else if c == 92 {
        if pos + 1 < s.len() && s[pos + 1] == 117 {
            if s.len() - pos >= 6 && s[pos + 2] == 48 && s[pos + 3] == 48 && is_hex(s[pos + 4])
                && is_hex(s[pos + 5]) {
                proof {
                    assert(s@.skip(pos as int).skip(6) =~= s@.skip(pos as int + 6));
                }
                let x: u8 = hex_value(s[pos + 4]) * 16 + hex_value(s[pos + 5]);
                buf.push(x);
                let r = p_str_bytes(s, pos + 6, buf);
                proof {
                    if parse_str_bytes(s@.skip(pos as int + 6)) is Some {
                        let b2 = parse_str_bytes(s@.skip(pos as int + 6))->Some_0.0;
                        assert(buf@ =~= old(buf)@ + (seq![x] + b2));
                    }
                }
                r
            } else {
                None
            }
        } else if pos + 1 < s.len() {
            proof {
                assert(s@.skip(pos as int).skip(2) =~= s@.skip(pos as int + 2));
            }
            let x = s[pos + 1];
            buf.push(x);
            let r = p_str_bytes(s, pos + 2, buf);
            proof {
                if parse_str_bytes(s@.skip(pos as int + 2)) is Some {
                    let b2 = parse_str_bytes(s@.skip(pos as int + 2))->Some_0.0;
                    assert(buf@ =~= old(buf)@ + (seq![x] + b2));
                }
            }
            r
        } else {
            None
        }
    } else {
        proof {
            assert(s@.skip(pos as int).drop_first() =~= s@.skip(pos as int + 1));
        }
        buf.push(c);
        let r = p_str_bytes(s, pos + 1, buf);
        proof {
            if parse_str_bytes(s@.skip(pos as int + 1)) is Some {
                let b2 = parse_str_bytes(s@.skip(pos as int + 1))->Some_0.0;
                assert(buf@ =~= old(buf)@ + (seq![c] + b2));
            }
        }
        r
    }
}

/// Consumes a quoted string and decodes it.
fn p_string(s: &[u8], pos: usize) -> (r: Option<(String, usize)>)
    requires
        pos <= s@.len(),
    ensures
        (match parse_string(s@.skip(pos as int)) {
            Some((t, rest)) => r matches Some((st, p2)) && st@ == t && pos <= p2 <= s@.len()
                && s@.skip(p2 as int) == rest,
            None => r is None,
        }),
{
    broadcast use encode_utf8_decode_utf8;

    if pos < s.len() && s[pos] == 34 {
        proof {
            assert(s@.skip(pos as int).drop_first() =~= s@.skip(pos as int + 1));
        }
        let mut buf: Vec<u8> = Vec::new();
        match p_str_bytes(s, pos + 1, &mut buf) {
            Some(p2) => {
                let ghost b = buf@;
                match bytes_to_string(buf) {
                    Some(st) => {
                        proof {
                            assert(vstd::utf8::encode_utf8(st@) == b);
                        }
                        Some((st, p2))
                    },
                    None => None,
                }
            },
            None => None,
        }
    } else {
        None
    }
}

fn p_color(s: &[u8], pos: usize) -> (r: Option<(Color, usize)>)
    requires
        pos <= s@.len(),
    ensures
        (match parse_color(s@.skip(pos as int)) {
            Some((c, rest)) => r matches Some((rc, p2)) && rc == c && pos <= p2 <= s@.len()
                && s@.skip(p2 as int) == rest,
            None => r is None,
        }),
{
    let p1 = match p_lit(s, pos, "{\"Rgb\":{\"red\":") {
        Some(p) => p,
        None => {
            return None;
        },
    };
    let (red, p2) = match p_u8(s, p1) {
        Some(v) => v,
        None => {
            return None;
        },
    };
    let p3 = match p_lit(s, p2, ",\"green\":") {
        Some(p) => p,
        None => {
            return None;
        },
    };
    let (green, p4) = match p_u8(s, p3) {
        Some(v) => v,
        None => {
            return None;
        },
    };
    let p5 = match p_lit(s, p4, ",\"blue\":") {
        Some(p) => p,
        None => {
            return None;
        },
    };
    let (blue, p6) = match p_u8(s, p5) {
        Some(v) => v,
        None => {
            return None;
        },
    };
    let p7 = match p_lit(s, p6, "}}") {
        Some(p) => p,
        None => {
            return None;
        },
    };
    Some((Color::Rgb { red, green, blue }, p7))
}

fn p_opt_u32(s: &[u8], pos: usize) -> (r: Option<(Option<u32>, usize)>)
    requires
        pos <= s@.len(),
    ensures
        (match parse_opt_u32(s@.skip(pos as int)) {
            Some((o, rest)) => r matches Some((ro, p2)) && ro == o && pos <= p2 <= s@.len()
                && s@.skip(p2 as int) == rest,
            None => r is None,
        }),
{
    if pos < s.len() && s[pos] == 110 {
        match p_lit(s, pos, "null") {
            Some(p2) => Some((None, p2)),
            None => None,
        }
    } else {
        match p_u32(s, pos) {
            Some((v, p2)) => Some((Some(v), p2)),
            None => None,
        }
    }
}

fn p_stroke(s: &[u8], pos: usize) -> (r: Option<(Stroke, usize)>)
    requires
        pos <= s@.len(),
    ensures
        (match parse_stroke(s@.skip(pos as int)) {
            Some((st, rest)) => r matches Some((rs, p2)) && rs == st && pos <= p2 <= s@.len()
                && s@.skip(p2 as int) == rest,
            None => r is None,
        }),
{
    let p1 = match p_lit(s, pos, "{\"width\":") {
        Some(p) => p,
        None => {
            return None;
        },
    };
    let (width, p2) = match p_u32(s, p1) {
        Some(v) => v,
        None => {
            return None;
        },
    };
    let p3 = match p_lit(s, p2, ",\"color\":") {
        Some(p) => p,
        None => {
            return None;
        },
    };
    let (color, p4) = match p_color(s, p3) {
        Some(v) => v,
        None => {
            return None;
        },
    };
    let p5 = match p_lit(s, p4, "}") {
        Some(p) => p,
        None => {
            return None;
        },
    };
    Some((Stroke { width, color }, p5))
}

fn p_opt_stroke(s: &[u8], pos: usize) -> (r: Option<(Option<Stroke>, usize)>)
    requires
        pos <= s@.len(),
    ensures
        (match parse_opt_stroke(s@.skip(pos as int)) {
            Some((o, rest)) => r matches Some((ro, p2)) && ro == o && pos <= p2 <= s@.len()
                && s@.skip(p2 as int) == rest,
            None => r is None,
        }),
{
    if pos < s.len() && s[pos] == 110 {
        match p_lit(s, pos, "null") {
            Some(p2) => Some((None, p2)),
            None => None,
        }
    } else {
        match p_stroke(s, pos) {
            Some((v, p2)) => Some((Some(v), p2)),
            None => None,
        }
    }
}

fn p_props(s: &[u8], pos: usize) -> (r: Option<(TextProperties, usize)>)
    requires
        pos <= s@.len(),
    ensures
        (match crate::wire::parse_text(s@.skip(pos as int)) {
            Some((w, rest)) => r matches Some((tp, p2)) && tp.wire() == w && pos <= p2 <= s@.len()
                && s@.skip(p2 as int) == rest,
            None => r is None,
        }),
{
    let p1 = match p_lit(s, pos, "{\"size\":") {
        Some(p) => p,
        None => {
            return None;
        },
    };
    let (size, p2) = match p_u32(s, p1) {
        Some(v) => v,
        None => {
            return None;
        },
    };
    let p3 = match p_lit(s, p2, ",\"font\":") {
        Some(p) => p,
        None => {
            return None;
        },
    };
    let (font, p4) = match p_string(s, p3) {
        Some(v) => v,
        None => {
            return None;
        },
    };
    let p5 = match p_lit(s, p4, ",\"weight\":") {
        Some(p) => p,
        None => {
            return None;
        },
    };
    let (weight, p6) = match p_opt_u32(s, p5) {
        Some(v) => v,
        None => {
            return None;
        },
    };
    let p7 = match p_lit(s, p6, "}") {
        Some(p) => p,
        None => {
            return None;
        },
    };
    Some((TextProperties { size, font, weight }, p7))
}

fn p_label(s: &[u8], pos: usize) -> (r: Option<(Label, usize)>)
    requires
        pos <= s@.len(),
    ensures
        (match parse_label(s@.skip(pos as int)) {
            Some((w, rest)) => r matches Some((l, p2)) && label_from_wire(l, w) && pos <= p2
                <= s@.len() && s@.skip(p2 as int) == rest,
            None => r is None,
        }),
{
    let p1 = match p_lit(s, pos, "{\"x\":") {
        Some(p) => p,
        None => {
            return None;
        },
    };
    let (x, p2) = match p_i32(s, p1) {
        Some(v) => v,
        None => {
            return None;
        },
    };
    let p3 = match p_lit(s, p2, ",\"y\":") {
        Some(p) => p,
        None => {
            return None;
        },
    };
    let (y, p4) = match p_i32(s, p3) {
        Some(v) => v,
        None => {
            return None;
        },
    };
    let p5 = match p_lit(s, p4, ",\"text\":") {
        Some(p) => p,
        None => {
            return None;
        },
    };
    let (text, p6) = match p_string(s, p5) {
        Some(v) => v,
        None => {
            return None;
        },
    };
    let p7 = match p_lit(s, p6, ",\"properties\":") {
        Some(p) => p,
        None => {
            return None;
        },
    };
    let (properties, p8) = match p_props(s, p7) {
        Some(v) => v,
        None => {
            return None;
        },
    };
    let p9 = match p_lit(s, p8, ",\"color\":") {
        Some(p) => p,
        None => {
            return None;
        },
    };
    let (color, p10) = match p_color(s, p9) {
        Some(v) => v,
        None => {
            return None;
        },
    };
    let p11 = match p_lit(s, p10, "}") {
        Some(p) => p,
        None => {
            return None;
        },
    };
    let label = Label {
        x,
        y,
        width: None,
        height: None,
        text,
        properties,
        color,
        interaction_state: InteractionState { hover: false },
    };
    Some((label, p11))
}

/// One or more comma-separated labels.
fn p_labels(s: &[u8], pos: usize) -> (r: Option<(Vec<Label>, usize)>)
    requires
        pos <= s@.len(),
    ensures
        (match parse_labels(s@.skip(pos as int)) {
            Some((ws, rest)) => r matches Some((ls, p2)) && ls@.len() == ws.len() && (forall|
                i: int,
            |
                0 <= i < ws.len() ==> label_from_wire(#[trigger] ls@[i], ws[i])) && pos <= p2
                <= s@.len() && s@.skip(p2 as int) == rest,
            None => r is None,
        }),
    decreases s@.len() - pos,
{
    let (first, p1) = match p_label(s, pos) {
        Some(v) => v,
        None => {
            return None;
        },
    };
    if p1 <= pos {
        return None;
    }
    if p1 < s.len() && s[p1] == 44 {
        proof {
            assert(s@.skip(p1 as int).drop_first() =~= s@.skip(p1 as int + 1));
        }
        match p_labels(s, p1 + 1) {
            Some((mut ls, p2)) => {
                ls.insert(0, first);
                Some((ls, p2))
            },
            None => None,
        }
    } else {
        let mut ls: Vec<Label> = Vec::new();
        ls.push(first);
        Some((ls, p1))
    }
}

fn p_rect(s: &[u8], pos: usize) -> (r: Option<(Rectangle, usize)>)
    requires
        pos <= s@.len(),
    ensures
        (match parse_rect(s@.skip(pos as int)) {
            Some((w, rest)) => r matches Some((rc, p2)) && rc.wire() == w
                && rc.interaction_state.hover == false && pos <= p2 <= s@.len() && s@.skip(
                p2 as int,
            ) == rest,
            None => r is None,
        }),
{
    let p1 = match p_lit(s, pos, "{\"x\":") {
        Some(p) => p,
        None => {
            return None;
        },
    };
    let (x, p2) = match p_i32(s, p1) {
        Some(v) => v,
        None => {
            return None;
        },
    };
    let p3 = match p_lit(s, p2, ",\"y\":") {
        Some(p) => p,
        None => {
            return None;
        },
    };
    let (y, p4) = match p_i32(s, p3) {
        Some(v) => v,
        None => {
            return None;
        },
    };
    let p5 = match p_lit(s, p4, ",\"width\":") {
        Some(p) => p,
        None => {
            return None;
        },
    };
    let (width, p6) = match p_u32(s, p5) {
        Some(v) => v,
        None => {
            return None;
        },
    };
    let p7 = match p_lit(s, p6, ",\"height\":") {
        Some(p) => p,
        None => {
            return None;
        },
    };
    let (height, p8) = match p_u32(s, p7) {
        Some(v) => v,
        None => {
            return None;
        },
    };
    let p9 = match p_lit(s, p8, ",\"color\":") {
        Some(p) => p,
        None => {
            return None;
        },
    };
    let (color, p10) = match p_color(s, p9) {
        Some(v) => v,
        None => {
            return None;
        },
    };
    let p11 = match p_lit(s, p10, ",\"radius\":") {
        Some(p) => p,
        None => {
            return None;
        },
    };
    let (radius, p12) = match p_opt_u32(s, p11) {
        Some(v) => v,
        None => {
            return None;
        },
    };
    let p13 = match p_lit(s, p12, ",\"stroke\":") {
        Some(p) => p,
        None => {
            return None;
        },
    };
    let (stroke, p14) = match p_opt_stroke(s, p13) {
        Some(v) => v,
        None => {
            return None;
        },
    };
    let p15 = match p_lit(s, p14, "}") {
        Some(p) => p,
        None => {
            return None;
        },
    };
    let rect = Rectangle {
        x,
        y,
        width,
        height,
        color,
        radius,
        stroke,
        interaction_state: InteractionState { hover: false },
    };
    Some((rect, p15))
}

/// A class fresh off the wire: every label unmeasured and unhovered.
pub open spec fn class_from_wire(c: Class, w: WireClass) -> bool {
    &&& c.wire() == w
    &&& c.interaction_state.hover == false
    &&& label_from_wire(c.title, w.title)
    &&& forall|i: int|
        0 <= i < c.attributes@.len() ==> label_from_wire(#[trigger] c.attributes@[i], w.attributes[i])
}

#[verifier::rlimit(100)]
#[verifier::spinoff_prover]
fn p_class(s: &[u8], pos: usize) -> (r: Option<(Class, usize)>)
    requires
        pos <= s@.len(),
    ensures
        (match parse_class(s@.skip(pos as int)) {
            Some((w, rest)) => r matches Some((c, p2)) && class_from_wire(c, w) && pos <= p2
                <= s@.len() && s@.skip(p2 as int) == rest,
            None => r is None,
        }),
{
    let p1 = match p_lit(s, pos, "{\"x\":") {
        Some(p) => p,
        None => {
            return None;
        },
    };
    let (x, p2) = match p_i32(s, p1) {
        Some(v) => v,
        None => {
            return None;
        },
    };
    let p3 = match p_lit(s, p2, ",\"y\":") {
        Some(p) => p,
        None => {
            return None;
        },
    };
    let (y, p4) = match p_i32(s, p3) {
        Some(v) => v,
        None => {
            return None;
        },
    };
    let p5 = match p_lit(s, p4, ",\"color\":") {
        Some(p) => p,
        None => {
            return None;
        },
    };
    let (color, p6) = match p_color(s, p5) {
        Some(v) => v,
        None => {
            return None;
        },
    };
    let p7 = match p_lit(s, p6, ",\"radius\":") {
        Some(p) => p,
        None => {
            return None;
        },
    };
    let (radius, p8) = match p_opt_u32(s, p7) {
        Some(v) => v,
        None => {
            return None;
        },
    };
    let p9 = match p_lit(s, p8, ",\"stroke\":") {
        Some(p) => p,
        None => {
            return None;
        },
    };
    let (stroke, p10) = match p_opt_stroke(s, p9) {
        Some(v) => v,
        None => {
            return None;
        },
    };
    let p11 = match p_lit(s, p10, ",\"title\":") {
        Some(p) => p,
        None => {
            return None;
        },
    };
    let (title, p12) = match p_label(s, p11) {
        Some(v) => v,
        None => {
            return None;
        },
    };
    let p13 = match p_lit(s, p12, ",\"attributes\":[") {
        Some(p) => p,
        None => {
            return None;
        },
    };
    let empty_list = p13 < s.len() && s[p13] == 93;
    if empty_list {
        let p14 = match p_lit(s, p13, "]}") {
            Some(p) => p,
            None => {
                return None;
            },
        };
        let class = Class {
            x,
            y,
            color,
            radius,
            stroke,
            title,
            attributes: Vec::new(),
            interaction_state: InteractionState { hover: false },
        };
        proof {
            assert(class.attributes@.map_values(|l: Label| l.wire()) =~= Seq::<
                WireLabel,
            >::empty());
        }
        Some((class, p14))
    } else {
        let (attributes, p14) = match p_labels(s, p13) {
            Some(v) => v,
            None => {
                return None;
            },
        };
        let p15 = match p_lit(s, p14, "]}") {
            Some(p) => p,
            None => {
                return None;
            },
        };
        let class = Class {
            x,
            y,
            color,
            radius,
            stroke,
            title,
            attributes,
            interaction_state: InteractionState { hover: false },
        };
        proof {
            let ws = parse_labels(s@.skip(p13 as int))->Some_0.0;
            assert(class.attributes@.map_values(|l: Label| l.wire()) =~= ws);
        }
        Some((class, p15))
    }
}

/// An element fresh off the wire, before an identifier is assigned.
pub open spec fn element_from_wire(e: Element, w: WireElement) -> bool {
    &&& e.wire() == w
    &&& e.hovered() == false
    &&& (match (e.inner, w) {
        (ElementType::Rectangle(_), WireElement::Rectangle(_)) => true,
        (ElementType::Label(l), WireElement::Label(wl)) => label_from_wire(l, wl),
        (ElementType::Class(c), WireElement::Class(wc)) => class_from_wire(c, wc),
        _ => false,
    })
}

fn p_element(s: &[u8], pos: usize) -> (r: Option<(Element, usize)>)
    requires
        pos <= s@.len(),
    ensures
        (match parse_element(s@.skip(pos as int)) {
            Some((w, rest)) => r matches Some((e, p2)) && element_from_wire(e, w) && e.id == Id(0)
                && pos <= p2 <= s@.len() && s@.skip(p2 as int) == rest,
            None => r is None,
        }),
{
    let p1 = match p_lit(s, pos, "{\"inner\":") {
        Some(p) => p,
        None => {
            return None;
        },
    };
    let inner: ElementType;
    let p2: usize;
    if let Some(q1) = p_lit(s, p1, "{\"Rectangle\":") {
        let (rect, q2) = match p_rect(s, q1) {
            Some(v) => v,
            None => {
                return None;
            },
        };
        let q3 = match p_lit(s, q2, "}") {
            Some(p) => p,
            None => {
                return None;
            },
        };
        inner = ElementType::Rectangle(rect);
        p2 = q3;
    } else if let Some(q1) = p_lit(s, p1, "{\"Label\":") {
        let (label, q2) = match p_label(s, q1) {
            Some(v) => v,
            None => {
                return None;
            },
        };
        let q3 = match p_lit(s, q2, "}") {
            Some(p) => p,
            None => {
                return None;
            },
        };
        inner = ElementType::Label(label);
        p2 = q3;
    } else if let Some(q1) = p_lit(s, p1, "{\"Class\":") {
        let (class, q2) = match p_class(s, q1) {
            Some(v) => v,
            None => {
                return None;
            },
        };
        let q3 = match p_lit(s, q2, "}") {
            Some(p) => p,
            None => {
                return None;
            },
        };
        inner = ElementType::Class(class);
        p2 = q3;
    } else {
        return None;
    }
    let p3 = match p_lit(s, p2, "}") {
        Some(p) => p,
        None => {
            return None;
        },
    };
    Some((Element { id: Id(0), inner }, p3))
}

/// One or more comma-separated elements.
#[verifier::rlimit(100)]
#[verifier::spinoff_prover]
fn p_elements(s: &[u8], pos: usize) -> (r: Option<(Vec<Element>, usize)>)
    requires
        pos <= s@.len(),
    ensures
        (match parse_elements(s@.skip(pos as int)) {
            Some((ws, rest)) => r matches Some((es, p2)) && es@.len() == ws.len() && (forall|
                i: int,
            |
                0 <= i < ws.len() ==> element_from_wire(#[trigger] es@[i], ws[i]) && es@[i].id
                    == Id(0)) && pos <= p2 <= s@.len() && s@.skip(p2 as int) == rest,
            None => r is None,
        }),
    decreases s@.len() - pos,
{
    let (first, p1) = match p_element(s, pos) {
        Some(v) => v,
        None => {
            return None;
        },
    };
    if p1 <= pos {
        return None;
    }
    if p1 < s.len() && s[p1] == 44 {
        proof {
            assert(s@.skip(p1 as int).drop_first() =~= s@.skip(p1 as int + 1));
        }
        match p_elements(s, p1 + 1) {
            Some((mut es, p2)) => {
                es.insert(0, first);
                Some((es, p2))
            },
            None => None,
        }
    } else {
        let mut es: Vec<Element> = Vec::new();
        es.push(first);
        Some((es, p1))
    }
}

impl Document {
    /// Parses the canonical JSON serialisation of a document,
    /// numbering each parsed element freshly from `gen`. Succeeds
    /// exactly when the bytes are a canonical document and the
    /// generator can still issue one identifier per element; the
    /// result's wire view is exactly the parsed value, its elements
    /// carry fresh pairwise-distinct identifiers, no element is
    /// hovered or measured, and the document counts as synchronised.
    #[verifier::rlimit(100)]
    pub fn from_json(s: &[u8], gen: &mut IdGenerator) -> (r: Option<Document>)
        ensures
            (match parse_document(s@) {
                Some(w) => {
                    if old(gen).next + w.elements.len() <= u64::MAX {
                        &&& r matches Some(d)
                        &&& d.wire() == w
                        &&& d.synchronized == true
                        &&& d.local.show_info == false
                        &&& d.elements@.len() == w.elements.len()
                        &&& forall|i: int|
                            0 <= i < d.elements@.len() ==> element_from_wire(
                                #[trigger] d.elements@[i],
                                w.elements[i],
                            )
                        &&& forall|i: int|
                            0 <= i < d.elements@.len() ==> (#[trigger] d.elements@[i]).id.0 == old(
                                gen,
                            ).next + i
                        &&& final(gen).next == old(gen).next + w.elements.len()
                    } else {
                        r is None && *final(gen) == *old(gen)
                    }
                },
                None => r is None && *final(gen) == *old(gen),
            }),
    {
        proof {
            reveal(crate::wire::parse_document);
            assert(s@.skip(0) =~= s@);
        }
        let p1 = match p_lit(s, 0, "{\"elements\":[") {
            Some(p) => p,
            None => {
                return None;
            },
        };
        let mut elements: Vec<Element>;
        let p2: usize;
        if p1 < s.len() && s[p1] == 93 {
            elements = Vec::new();
            p2 = p1;
        } else {
            let (es, q) = match p_elements(s, p1) {
                Some(v) => v,
                None => {
                    return None;
                },
            };
            elements = es;
            p2 = q;
        }
        let p3 = match p_lit(s, p2, "],\"color\":") {
            Some(p) => p,
            None => {
                return None;
            },
        };
        let (color, p4) = match p_color(s, p3) {
            Some(v) => v,
            None => {
                return None;
            },
        };
        let p5 = match p_lit(s, p4, "}") {
            Some(p) => p,
            None => {
                return None;
            },
        };
        if p5 != s.len() {
            proof {
                assert(s@.skip(p5 as int).len() > 0);
            }
            return None;
        }
        let ghost w = parse_document(s@)->Some_0;
        proof {
            assert(parse_document(s@) == Some(w));
            assert(elements@.len() == w.elements.len());
        }
        if u64::MAX - (gen.next) < elements.len() as u64 {
            return None;
        }
        let ghost start = gen.next;
        let mut i: usize = 0;
        while i < elements.len()
            invariant
                0 <= i <= elements@.len(),
                gen.next == start + i,
                start + elements@.len() <= u64::MAX,
                elements@.len() == w.elements.len(),
                forall|j: int|
                    0 <= j < elements@.len() ==> element_from_wire(
                        #[trigger] elements@[j],
                        w.elements[j],
                    ),
                forall|j: int| 0 <= j < i ==> (#[trigger] elements@[j]).id.0 == start + j,
            decreases elements@.len() - i,
        {
            let ghost pre = elements@;
            let id = gen.fresh();
            let mut el = elements.remove(i);
            el.id = id;
            elements.insert(i, el);
            proof {
                assert(elements@ =~= pre.update(i as int, elements@[i as int]));
            }
            i = i + 1;
        }
        proof {
            assert(elements@.map_values(|e: Element| e.wire()) =~= w.elements);
        }
        Some(
            Document {
                elements,
                color,
                local: LocalData { show_info: false, info_element: Info::default() },
                synchronized: true,
            },
        )
    }
}

} // verus!
