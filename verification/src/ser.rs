use vstd::prelude::*;

use crate::class::Class;
use crate::color::Color;
use crate::document::Document;
use crate::element::{Element, ElementType};
use crate::label::Label;
use crate::rectangle::Rectangle;
use crate::stroke::Stroke;
use crate::text::TextProperties;
use crate::wire::{
    dec_digits, esc, esc_byte, lit, ser_class, ser_color, ser_document, ser_element,
    ser_elements, ser_i32, ser_label, ser_labels, ser_labels_block, ser_opt_stroke, ser_opt_u32,
    ser_rect, ser_string, ser_stroke, ser_text, ser_u32, ser_u8, WireElement, WireLabel,
};

verus! {

use vstd::string::{StrSliceExecFns, StringSliceAdditionalSpecFns};

// The executable serialiser: every function appends exactly the bytes
// its spec counterpart in `wire` describes.

/// Appends the bytes of a literal of the grammar.
pub(crate) fn push_lit(out: &mut Vec<u8>, l: &str)
    ensures
        final(out)@ == old(out)@ + l.spec_bytes(),
{
    let bytes = l.as_bytes();
    let mut i: usize = 0;
    while i < bytes.len()
        invariant
            i <= bytes.len(),
            bytes@ == l.spec_bytes(),
            out@ == old(out)@ + bytes@.take(i as int),
        decreases bytes.len() - i,
    {
        out.push(bytes[i]);
        i = i + 1;
        assert(out@ == old(out)@ + bytes@.take(i as int));
    }
    assert(bytes@.take(bytes@.len() as int) =~= bytes@);
}

/// Appends the decimal digits of `n`.
pub(crate) fn push_u32(out: &mut Vec<u8>, n: u32)
    ensures
        final(out)@ == old(out)@ + ser_u32(n),
    decreases n,
{
    if n < 10 {
        out.push(48 + n as u8);
        assert(dec_digits(n as int) =~= seq![(48 + n as int) as u8]);
        assert(out@ =~= old(out)@ + dec_digits(n as int));
    } else {
        push_u32(out, n / 10);
        out.push(48 + (n % 10) as u8);
        assert(dec_digits(n as int) == dec_digits(n as int / 10).push((48 + n as int % 10) as u8));
        assert(out@ =~= old(out)@ + dec_digits(n as int));
    }
}

fn push_u8(out: &mut Vec<u8>, n: u8)
    ensures
        final(out)@ == old(out)@ + ser_u8(n),
{
    push_u32(out, n as u32);
    assert(ser_u8(n) == ser_u32(n as u32));
}

pub(crate) fn push_i32(out: &mut Vec<u8>, n: i32)
    ensures
        final(out)@ == old(out)@ + ser_i32(n),
{
    if n < 0 {
        out.push(45);
        let mag: u32 = (-(n as i64)) as u32;
        push_u32(out, mag);
        assert(mag as int == -(n as int));
        assert(out@ =~= old(out)@ + (seq![45u8] + dec_digits(-(n as int))));
    } else {
        push_u32(out, n as u32);
    }
}

/// Escaping distributes over appending one byte.
proof fn lemma_esc_snoc(b: Seq<u8>, x: u8)
    ensures
        esc(b.push(x)) == esc(b) + esc_byte(x),
    decreases b.len(),
{
    if b.len() == 0 {
        assert(b.push(x) =~= seq![x]);
        assert(b.push(x).drop_first() =~= Seq::<u8>::empty());
        assert(esc(b.push(x)) == esc_byte(x) + esc(Seq::<u8>::empty()));
        assert(esc_byte(x) + esc(Seq::<u8>::empty()) =~= esc_byte(x));
        assert(esc(b) =~= Seq::<u8>::empty());
        assert(esc(b) + esc_byte(x) =~= esc_byte(x));
    } else {
        assert(b.push(x)[0] == b[0]);
        assert(b.push(x).drop_first() =~= b.drop_first().push(x));
        lemma_esc_snoc(b.drop_first(), x);
        assert(esc(b.push(x)) == esc_byte(b[0]) + (esc(b.drop_first()) + esc_byte(x)));
        assert(esc_byte(b[0]) + (esc(b.drop_first()) + esc_byte(x)) =~= (esc_byte(b[0]) + esc(
            b.drop_first(),
        )) + esc_byte(x));
    }
}

/// The lower-case hexadecimal digit of a value below sixteen.
fn hex_digit_of(n: u8) -> (r: u8)
    requires
        n < 16,
    ensures
        r == crate::wire::hex_digit(n as int),
{
    if n < 10 {
        48 + n
    } else {
        87 + n
    }
}

/// Appends a quoted, escaped string.
#[verifier::rlimit(100)]
#[verifier::spinoff_prover]
fn push_str(out: &mut Vec<u8>, t: &str)
    ensures
        final(out)@ == old(out)@ + ser_string(t@),
{
    out.push(34);
    let bytes = t.as_bytes();
    let mut i: usize = 0;
    while i < bytes.len()
        invariant
            i <= bytes.len(),
            bytes@ == t.spec_bytes(),
            out@ == old(out)@ + seq![34u8] + esc(bytes@.take(i as int)),
        decreases bytes.len() - i,
    {
        let b = bytes[i];
        if b == 34 || b == 92 {
            out.push(92);
            out.push(b);
        } else if b < 32 {
            out.push(92);
            out.push(117);
            out.push(48);
            out.push(48);
            out.push(hex_digit_of(b / 16));
            out.push(hex_digit_of(b % 16));
        } else {
            out.push(b);
        }
        proof {
            lemma_esc_snoc(bytes@.take(i as int), bytes@[i as int]);
            assert(bytes@.take(i as int).push(bytes@[i as int]) =~= bytes@.take(i as int + 1));
            assert(out@ =~= old(out)@ + seq![34u8] + esc(bytes@.take(i as int + 1)));
        }
        i = i + 1;
    }
    out.push(34);
    proof {
        assert(bytes@.take(bytes@.len() as int) =~= bytes@);
        assert(out@ =~= old(out)@ + (seq![34u8] + esc(t.spec_bytes()) + seq![34u8]));
    }
}

fn push_color(out: &mut Vec<u8>, c: &Color)
    ensures
        final(out)@ == old(out)@ + ser_color(*c),
{
    match c {
        Color::Rgb { red, green, blue } => {
            push_lit(out, "{\"Rgb\":{\"red\":");
            push_u8(out, *red);
            push_lit(out, ",\"green\":");
            push_u8(out, *green);
            push_lit(out, ",\"blue\":");
            push_u8(out, *blue);
            push_lit(out, "}}");
            assert(out@ =~= old(out)@ + ser_color(*c));
        },
    }
}

fn push_opt_u32(out: &mut Vec<u8>, o: &Option<u32>)
    ensures
        final(out)@ == old(out)@ + ser_opt_u32(*o),
{
    match o {
        None => push_lit(out, "null"),
        Some(v) => push_u32(out, *v),
    }
}

fn push_stroke(out: &mut Vec<u8>, s: &Stroke)
    ensures
        final(out)@ == old(out)@ + ser_stroke(*s),
{
    push_lit(out, "{\"width\":");
    push_u32(out, s.width);
    push_lit(out, ",\"color\":");
    push_color(out, &s.color);
    push_lit(out, "}");
    assert(out@ =~= old(out)@ + ser_stroke(*s));
}

fn push_opt_stroke(out: &mut Vec<u8>, o: &Option<Stroke>)
    ensures
        final(out)@ == old(out)@ + ser_opt_stroke(*o),
{
    match o {
        None => push_lit(out, "null"),
        Some(s) => push_stroke(out, s),
    }
}

#[verifier::rlimit(100)]
#[verifier::spinoff_prover]
fn push_props(out: &mut Vec<u8>, t: &TextProperties)
    ensures
        final(out)@ == old(out)@ + ser_text(t.wire()),
{
    push_lit(out, "{\"size\":");
    push_u32(out, t.size);
    push_lit(out, ",\"font\":");
    push_str(out, t.font.as_str());
    push_lit(out, ",\"weight\":");
    push_opt_u32(out, &t.weight);
    push_lit(out, "}");
    assert(out@ =~= old(out)@ + ser_text(t.wire()));
}

#[verifier::rlimit(100)]
#[verifier::spinoff_prover]
fn push_label(out: &mut Vec<u8>, l: &Label)
    ensures
        final(out)@ == old(out)@ + ser_label(l.wire()),
{
    push_lit(out, "{\"x\":");
    push_i32(out, l.x);
    push_lit(out, ",\"y\":");
    push_i32(out, l.y);
    push_lit(out, ",\"text\":");
    push_str(out, l.text.as_str());
    push_lit(out, ",\"properties\":");
    push_props(out, &l.properties);
    push_lit(out, ",\"color\":");
    push_color(out, &l.color);
    push_lit(out, "}");
    assert(out@ =~= old(out)@ + ser_label(l.wire()));
}

/// A list of one or more labels grows on the right by a comma and the
/// new label.
proof fn lemma_ser_labels_snoc(ls: Seq<WireLabel>, x: WireLabel)
    requires
        ls.len() >= 1,
    ensures
        ser_labels(ls.push(x)) == ser_labels(ls) + lit(",") + ser_label(x),
    decreases ls.len(),
{
    if ls.len() == 1 {
        assert(ls.push(x)[0] == ls[0]);
        assert(ls.push(x).drop_first() =~= seq![x]);
        assert(ser_labels(seq![x]) == ser_label(x));
        vstd::seq_lib::lemma_concat_associative(ser_label(ls[0]), lit(","), ser_label(x));
    } else {
        assert(ls.push(x)[0] == ls[0]);
        assert(ls.push(x).drop_first() =~= ls.drop_first().push(x));
        lemma_ser_labels_snoc(ls.drop_first(), x);
        vstd::seq_lib::lemma_concat_associative(
            ser_label(ls[0]) + lit(","),
            ser_labels(ls.drop_first()) + lit(","),
            ser_label(x),
        );
        vstd::seq_lib::lemma_concat_associative(
            ser_label(ls[0]) + lit(","),
            ser_labels(ls.drop_first()),
            lit(","),
        );
    }
}

/// Appends the attribute block of a class.
fn push_labels_block(out: &mut Vec<u8>, ls: &Vec<Label>)
    ensures
        final(out)@ == old(out)@ + ser_labels_block(ls@.map_values(|l: Label| l.wire())),
{
    let ghost w = ls@.map_values(|l: Label| l.wire());
    push_lit(out, ",\"attributes\":[");
    let mut i: usize = 0;
    while i < ls.len()
        invariant
            i <= ls@.len(),
            w == ls@.map_values(|l: Label| l.wire()),
            out@ == old(out)@ + lit(",\"attributes\":[") + ser_labels(w.take(i as int)),
        decreases ls@.len() - i,
    {
        if i > 0 {
            push_lit(out, ",");
        }
        push_label(out, &ls[i]);
        proof {
            assert(w.take(i as int).push(w[i as int]) =~= w.take(i as int + 1));
            let pre = old(out)@ + lit(",\"attributes\":[");
            if i == 0 {
                assert(ser_labels(w.take(0)) =~= Seq::<u8>::empty());
                assert(pre + ser_labels(w.take(0)) =~= pre);
                assert(ser_labels(w.take(1)) == ser_label(w[0]));
                assert(out@ == pre + ser_labels(w.take(1)));
            } else {
                lemma_ser_labels_snoc(w.take(i as int), w[i as int]);
                vstd::seq_lib::lemma_concat_associative(pre, ser_labels(w.take(i as int)), lit(","));
                vstd::seq_lib::lemma_concat_associative(
                    pre,
                    ser_labels(w.take(i as int)) + lit(","),
                    ser_label(w[i as int]),
                );
                assert(out@ == pre + ser_labels(w.take(i as int + 1)));
            }
        }
        i = i + 1;
    }
    push_lit(out, "]}");
    proof {
        assert(w.take(w.len() as int) =~= w);
        let pre = old(out)@ + lit(",\"attributes\":[");
        vstd::seq_lib::lemma_concat_associative(old(out)@, lit(",\"attributes\":["), ser_labels(w));
        vstd::seq_lib::lemma_concat_associative(old(out)@, lit(",\"attributes\":[") + ser_labels(w), lit("]}"));
        assert(out@ == old(out)@ + ser_labels_block(w));
    }
}

#[verifier::rlimit(100)]
#[verifier::spinoff_prover]
fn push_rect(out: &mut Vec<u8>, r: &Rectangle)
    ensures
        final(out)@ == old(out)@ + ser_rect(r.wire()),
{
    push_lit(out, "{\"x\":");
    push_i32(out, r.x);
    push_lit(out, ",\"y\":");
    push_i32(out, r.y);
    push_lit(out, ",\"width\":");
    push_u32(out, r.width);
    push_lit(out, ",\"height\":");
    push_u32(out, r.height);
    push_lit(out, ",\"color\":");
    push_color(out, &r.color);
    push_lit(out, ",\"radius\":");
    push_opt_u32(out, &r.radius);
    push_lit(out, ",\"stroke\":");
    push_opt_stroke(out, &r.stroke);
    push_lit(out, "}");
    assert(out@ =~= old(out)@ + ser_rect(r.wire()));
}

#[verifier::rlimit(100)]
#[verifier::spinoff_prover]
fn push_class(out: &mut Vec<u8>, c: &Class)
    ensures
        final(out)@ == old(out)@ + ser_class(c.wire()),
{
    push_lit(out, "{\"x\":");
    push_i32(out, c.x);
    push_lit(out, ",\"y\":");
    push_i32(out, c.y);
    push_lit(out, ",\"color\":");
    push_color(out, &c.color);
    push_lit(out, ",\"radius\":");
    push_opt_u32(out, &c.radius);
    push_lit(out, ",\"stroke\":");
    push_opt_stroke(out, &c.stroke);
    push_lit(out, ",\"title\":");
    push_label(out, &c.title);
    push_labels_block(out, &c.attributes);
    proof {
        vstd::seq_lib::lemma_concat_associative(old(out)@, lit("{\"x\":"), ser_i32(c.x));
        vstd::seq_lib::lemma_concat_associative(old(out)@, lit("{\"x\":") + ser_i32(c.x), lit(",\"y\":"));
        vstd::seq_lib::lemma_concat_associative(old(out)@, lit("{\"x\":") + ser_i32(c.x) + lit(",\"y\":"), ser_i32(c.y));
        vstd::seq_lib::lemma_concat_associative(old(out)@, lit("{\"x\":") + ser_i32(c.x) + lit(",\"y\":") + ser_i32(c.y), lit(",\"color\":"));
        vstd::seq_lib::lemma_concat_associative(old(out)@, lit("{\"x\":") + ser_i32(c.x) + lit(",\"y\":") + ser_i32(c.y) + lit(",\"color\":"), ser_color(c.color));
        vstd::seq_lib::lemma_concat_associative(old(out)@, lit("{\"x\":") + ser_i32(c.x) + lit(",\"y\":") + ser_i32(c.y) + lit(",\"color\":") + ser_color(c.color), lit(",\"radius\":"));
        vstd::seq_lib::lemma_concat_associative(old(out)@, lit("{\"x\":") + ser_i32(c.x) + lit(",\"y\":") + ser_i32(c.y) + lit(",\"color\":") + ser_color(c.color) + lit(",\"radius\":"), ser_opt_u32(c.radius));
        vstd::seq_lib::lemma_concat_associative(old(out)@, lit("{\"x\":") + ser_i32(c.x) + lit(",\"y\":") + ser_i32(c.y) + lit(",\"color\":") + ser_color(c.color) + lit(",\"radius\":") + ser_opt_u32(c.radius), lit(",\"stroke\":"));
        vstd::seq_lib::lemma_concat_associative(old(out)@, lit("{\"x\":") + ser_i32(c.x) + lit(",\"y\":") + ser_i32(c.y) + lit(",\"color\":") + ser_color(c.color) + lit(",\"radius\":") + ser_opt_u32(c.radius) + lit(",\"stroke\":"), ser_opt_stroke(c.stroke));
        vstd::seq_lib::lemma_concat_associative(old(out)@, lit("{\"x\":") + ser_i32(c.x) + lit(",\"y\":") + ser_i32(c.y) + lit(",\"color\":") + ser_color(c.color) + lit(",\"radius\":") + ser_opt_u32(c.radius) + lit(",\"stroke\":") + ser_opt_stroke(c.stroke), lit(",\"title\":"));
        vstd::seq_lib::lemma_concat_associative(old(out)@, lit("{\"x\":") + ser_i32(c.x) + lit(",\"y\":") + ser_i32(c.y) + lit(",\"color\":") + ser_color(c.color) + lit(",\"radius\":") + ser_opt_u32(c.radius) + lit(",\"stroke\":") + ser_opt_stroke(c.stroke) + lit(",\"title\":"), ser_label(c.title.wire()));
        vstd::seq_lib::lemma_concat_associative(old(out)@, lit("{\"x\":") + ser_i32(c.x) + lit(",\"y\":") + ser_i32(c.y) + lit(",\"color\":") + ser_color(c.color) + lit(",\"radius\":") + ser_opt_u32(c.radius) + lit(",\"stroke\":") + ser_opt_stroke(c.stroke) + lit(",\"title\":") + ser_label(c.title.wire()), ser_labels_block(c.attributes@.map_values(|l: Label| l.wire())));
        assert(out@ == old(out)@ + ser_class(c.wire()));
    }
}

#[verifier::rlimit(100)]
#[verifier::spinoff_prover]
fn push_element(out: &mut Vec<u8>, e: &Element)
    ensures
        final(out)@ == old(out)@ + ser_element(e.wire()),
{
    push_lit(out, "{\"inner\":");
    match &e.inner {
        ElementType::Rectangle(r) => {
            push_lit(out, "{\"Rectangle\":");
            push_rect(out, r);
            push_lit(out, "}");
        },
        ElementType::Label(l) => {
            push_lit(out, "{\"Label\":");
            push_label(out, l);
            push_lit(out, "}");
        },
        ElementType::Class(c) => {
            push_lit(out, "{\"Class\":");
            push_class(out, c);
            push_lit(out, "}");
        },
    }
    push_lit(out, "}");
    proof {
        let body = (match e.wire() {
            WireElement::Rectangle(r) => lit("{\"Rectangle\":") + ser_rect(r) + lit("}"),
            WireElement::Label(l) => lit("{\"Label\":") + ser_label(l) + lit("}"),
            WireElement::Class(c) => lit("{\"Class\":") + ser_class(c) + lit("}"),
        });
        let tag = (match e.wire() {
            WireElement::Rectangle(_) => lit("{\"Rectangle\":"),
            WireElement::Label(_) => lit("{\"Label\":"),
            WireElement::Class(_) => lit("{\"Class\":"),
        });
        let val = (match e.wire() {
            WireElement::Rectangle(r) => ser_rect(r),
            WireElement::Label(l) => ser_label(l),
            WireElement::Class(c) => ser_class(c),
        });
        let pre = old(out)@ + lit("{\"inner\":");
        vstd::seq_lib::lemma_concat_associative(pre, tag, val);
        vstd::seq_lib::lemma_concat_associative(pre, tag + val, lit("}"));
        assert(pre + body == old(out)@ + lit("{\"inner\":") + body);
        vstd::seq_lib::lemma_concat_associative(old(out)@, lit("{\"inner\":"), body);
        vstd::seq_lib::lemma_concat_associative(old(out)@, lit("{\"inner\":") + body, lit("}"));
        assert(out@ == old(out)@ + ser_element(e.wire()));
    }
}

/// A list of one or more elements grows on the right by a comma and
/// the new element.
proof fn lemma_ser_elements_snoc(es: Seq<WireElement>, x: WireElement)
    requires
        es.len() >= 1,
    ensures
        ser_elements(es.push(x)) == ser_elements(es) + lit(",") + ser_element(x),
    decreases es.len(),
{
    if es.len() == 1 {
        assert(es.push(x)[0] == es[0]);
        assert(es.push(x).drop_first() =~= seq![x]);
        assert(ser_elements(seq![x]) == ser_element(x));
        vstd::seq_lib::lemma_concat_associative(ser_element(es[0]), lit(","), ser_element(x));
    } else {
        assert(es.push(x)[0] == es[0]);
        assert(es.push(x).drop_first() =~= es.drop_first().push(x));
        lemma_ser_elements_snoc(es.drop_first(), x);
        vstd::seq_lib::lemma_concat_associative(
            ser_element(es[0]) + lit(","),
            ser_elements(es.drop_first()) + lit(","),
            ser_element(x),
        );
        vstd::seq_lib::lemma_concat_associative(
            ser_element(es[0]) + lit(","),
            ser_elements(es.drop_first()),
            lit(","),
        );
    }
}

impl Document {
    /// The canonical JSON serialisation of the document, as UTF-8
    /// bytes: exactly `ser_document` of the document's wire view.
    pub fn to_json(&self) -> (out: Vec<u8>)
        ensures
            out@ == ser_document(self.wire()),
    {
        let ghost w = self.elements@.map_values(|e: Element| e.wire());
        let mut out: Vec<u8> = Vec::new();
        push_lit(&mut out, "{\"elements\":[");
        let ghost base = out@;
        let mut i: usize = 0;
        while i < self.elements.len()
            invariant
                i <= self.elements@.len(),
                w == self.elements@.map_values(|e: Element| e.wire()),
                base == lit("{\"elements\":["),
                out@ == base + ser_elements(w.take(i as int)),
            decreases self.elements@.len() - i,
        {
            if i > 0 {
                push_lit(&mut out, ",");
            }
            push_element(&mut out, &self.elements[i]);
            proof {
                assert(w.take(i as int).push(w[i as int]) =~= w.take(i as int + 1));
                if i == 0 {
                    assert(ser_elements(w.take(0)) =~= Seq::<u8>::empty());
                    assert(base + ser_elements(w.take(0)) =~= base);
                    assert(ser_elements(w.take(1)) == ser_element(w[0]));
                    assert(out@ == base + ser_elements(w.take(1)));
                } else {
                    lemma_ser_elements_snoc(w.take(i as int), w[i as int]);
                    vstd::seq_lib::lemma_concat_associative(base, ser_elements(w.take(i as int)), lit(","));
                    vstd::seq_lib::lemma_concat_associative(
                        base,
                        ser_elements(w.take(i as int)) + lit(","),
                        ser_element(w[i as int]),
                    );
                    assert(out@ == base + ser_elements(w.take(i as int + 1)));
                }
            }
            i = i + 1;
        }
        push_lit(&mut out, "],\"color\":");
        push_color(&mut out, &self.color);
        push_lit(&mut out, "}");
        proof {
            assert(w.take(w.len() as int) =~= w);
            vstd::seq_lib::lemma_concat_associative(base, ser_elements(w), lit("],\"color\":"));
            vstd::seq_lib::lemma_concat_associative(base, ser_elements(w) + lit("],\"color\":"), ser_color(self.color));
            vstd::seq_lib::lemma_concat_associative(
                base,
                ser_elements(w) + lit("],\"color\":") + ser_color(self.color),
                lit("}"),
            );
            assert(out@ == ser_document(self.wire()));
        }
        out
    }
}

} // verus!
