use vstd::prelude::*;

use crate::color::Color;
use crate::stroke::Stroke;

use crate::wire::{
    dec_digits, esc, esc_byte, is_digit_byte, lit, parse_class, parse_class_tail, parse_color,
    parse_document, parse_element, parse_elements, parse_i32, parse_label, parse_labels,
    parse_lit, parse_nat_rec, parse_rect_tail, parse_class_mid, parse_element_body, parse_opt_stroke, parse_opt_u32, parse_rect, parse_str_bytes,
    parse_string, parse_stroke, parse_text, parse_u32, parse_u8, ser_class, ser_color,
    ser_document, ser_element, ser_elements, ser_i32, ser_label, ser_labels, ser_opt_stroke,
    ser_labels_block, ser_opt_u32, ser_rect, ser_string, ser_stroke, ser_text, ser_u32, ser_u8,
    WireClass,
    WireDocument, WireElement, WireLabel, WireRect, WireText,
};

verus! {

use vstd::string::is_ascii_spec_bytes;
use vstd::utf8::{encode_utf8, encode_utf8_decode_utf8, encode_utf8_valid_utf8};

// Serialising and then parsing gives back exactly the value that was
// serialised: the statement is built production by production, ending
// in `lemma_document_round_trip`.

pub open spec fn pow10(k: nat) -> int
    decreases k,
{
    if k == 0 {
        1
    } else {
        10 * pow10((k - 1) as nat)
    }
}

/// The decimal digits of a non-negative number are a non-empty run of
/// digit bytes.
pub proof fn lemma_dec_digits_bounds(n: int)
    requires
        n >= 0,
    ensures
        dec_digits(n).len() >= 1,
        forall|i: int| 0 <= i < dec_digits(n).len() ==> is_digit_byte(#[trigger] dec_digits(n)[i]),
    decreases n,
{
    if n >= 10 {
        lemma_dec_digits_bounds(n / 10);
    }
}

/// Parsing a digit run continues through the digits of `n` and folds
/// them onto the accumulator.
proof fn lemma_parse_nat_append(n: int, rest: Seq<u8>, acc: int)
    requires
        n >= 0,
    ensures
        parse_nat_rec(dec_digits(n) + rest, acc) == parse_nat_rec(
            rest,
            acc * pow10(dec_digits(n).len() as nat) + n,
        ),
    decreases n,
{
    let s = dec_digits(n) + rest;
    assert(pow10(0) == 1);
    assert(pow10(1) == 10);
    if n < 10 {
        assert(dec_digits(n) =~= seq![(48 + n) as u8]);
        assert(s[0] == (48 + n) as u8);
        assert(s.drop_first() =~= rest);
        assert(s[0] - 48 == n);
    } else {
        let hd = dec_digits(n / 10);
        let last = (48 + n % 10) as u8;
        assert(dec_digits(n) =~= hd + seq![last]);
        assert(s =~= hd + (seq![last] + rest));
        lemma_parse_nat_append(n / 10, seq![last] + rest, acc);
        let acc2 = acc * pow10(hd.len() as nat) + n / 10;
        let t = seq![last] + rest;
        assert(t[0] == last);
        assert(is_digit_byte(last));
        assert(t.drop_first() =~= rest);
        assert(parse_nat_rec(t, acc2) == parse_nat_rec(rest, acc2 * 10 + (last - 48)));
        assert(last - 48 == n % 10);
        assert(dec_digits(n).len() == hd.len() + 1);
        assert(pow10(dec_digits(n).len() as nat) == 10 * pow10(hd.len() as nat));
        assert((acc * pow10(hd.len() as nat) + n / 10) * 10 + n % 10 == acc * (10 * pow10(
            hd.len() as nat,
        )) + (n / 10 * 10 + n % 10)) by (nonlinear_arith);
        assert(n / 10 * 10 + n % 10 == n) by (nonlinear_arith);
    }
}

/// A serialised `u32` followed by anything that does not begin with a
/// digit parses back to the same value.
pub proof fn lemma_rt_u32(n: u32, rest: Seq<u8>)
    requires
        rest.len() == 0 || !is_digit_byte(rest[0]),
    ensures
        parse_u32(ser_u32(n) + rest) == Some((n, rest)),
{
    lemma_dec_digits_bounds(n as int);
    lemma_parse_nat_append(n as int, rest, 0);
    let s = ser_u32(n) + rest;
    assert(s[0] == dec_digits(n as int)[0]);
    assert(is_digit_byte(s[0]));
    assert(0 * pow10(dec_digits(n as int).len() as nat) == 0);
    assert(parse_nat_rec(rest, n as int) == (n as int, rest));
}

/// As `lemma_rt_u32`, for a colour channel.
pub proof fn lemma_rt_u8(n: u8, rest: Seq<u8>)
    requires
        rest.len() == 0 || !is_digit_byte(rest[0]),
    ensures
        parse_u8(ser_u8(n) + rest) == Some((n, rest)),
{
    lemma_dec_digits_bounds(n as int);
    lemma_parse_nat_append(n as int, rest, 0);
    let s = ser_u8(n) + rest;
    assert(s[0] == dec_digits(n as int)[0]);
    assert(is_digit_byte(s[0]));
    assert(0 * pow10(dec_digits(n as int).len() as nat) == 0);
    assert(parse_nat_rec(rest, n as int) == (n as int, rest));
}

/// As `lemma_rt_u32`, for a signed coordinate.
pub proof fn lemma_rt_i32(n: i32, rest: Seq<u8>)
    requires
        rest.len() == 0 || !is_digit_byte(rest[0]),
    ensures
        parse_i32(ser_i32(n) + rest) == Some((n, rest)),
{
    let s = ser_i32(n) + rest;
    if n < 0 {
        let m = -(n as int);
        lemma_dec_digits_bounds(m);
        assert(s =~= seq![45u8] + (dec_digits(m) + rest));
        assert(s[0] == 45);
        assert(!is_digit_byte(45u8));
        assert(s.drop_first() =~= dec_digits(m) + rest);
        lemma_parse_nat_append(m, rest, 0);
        let neg = s.drop_first();
        assert(neg[0] == dec_digits(m)[0]);
        assert(is_digit_byte(neg[0]));
        assert(0 * pow10(dec_digits(m).len() as nat) == 0);
        assert(parse_nat_rec(rest, m) == (m, rest));
        assert(m <= 0x8000_0000);
        assert((-m) as i32 == n);
    } else {
        lemma_dec_digits_bounds(n as int);
        lemma_parse_nat_append(n as int, rest, 0);
        assert(s[0] == dec_digits(n as int)[0]);
        assert(is_digit_byte(s[0]));
        assert(s[0] != 45);
        assert(0 * pow10(dec_digits(n as int).len() as nat) == 0);
        assert(parse_nat_rec(rest, n as int) == (n as int, rest));
    }
}

/// Consuming an expected literal from input that starts with it
/// leaves exactly the rest.
pub proof fn lemma_parse_lit(l: Seq<u8>, rest: Seq<u8>)
    ensures
        parse_lit(l + rest, l) == Some(rest),
{
    let s = l + rest;
    assert(s.take(l.len() as int) =~= l);
    assert(s.skip(l.len() as int) =~= rest);
}

/// Escaped string content followed by the closing quote parses back to
/// the unescaped bytes.
proof fn lemma_rt_str_bytes(b: Seq<u8>, rest: Seq<u8>)
    ensures
        parse_str_bytes(esc(b) + seq![34u8] + rest) == Some((b, rest)),
    decreases b.len(),
{
    let s = esc(b) + seq![34u8] + rest;
    if b.len() == 0 {
        assert(esc(b) =~= Seq::<u8>::empty());
        assert(s =~= seq![34u8] + rest);
        assert(s[0] == 34);
        assert(s.drop_first() =~= rest);
    } else {
        let b0 = b[0];
        let bt = b.drop_first();
        assert(esc(b) == esc_byte(b0) + esc(bt));
        lemma_rt_str_bytes(bt, rest);
        if b0 == 34 || b0 == 92 {
            assert(s =~= seq![92u8, b0] + (esc(bt) + seq![34u8] + rest));
            assert(s[0] == 92);
            assert(s.len() >= 2);
            assert(s[1] == b0);
            assert(s[1] != 117);
            assert(s.skip(2) =~= esc(bt) + seq![34u8] + rest);
            assert(seq![s[1]] + bt =~= b);
        } else if b0 < 32 {
            let h1 = crate::wire::hex_digit(b0 as int / 16);
            let h2 = crate::wire::hex_digit(b0 as int % 16);
            assert(s =~= seq![92u8, 117u8, 48u8, 48u8, h1, h2] + (esc(bt) + seq![34u8] + rest));
            assert(s.len() >= 6);
            assert(s[0] == 92 && s[1] == 117 && s[2] == 48 && s[3] == 48);
            assert(s[4] == h1 && s[5] == h2);
            assert(crate::wire::is_hex_byte(h1) && crate::wire::is_hex_byte(h2));
            assert(crate::wire::hex_val(h1) == b0 as int / 16);
            assert(crate::wire::hex_val(h2) == b0 as int % 16);
            assert(b0 as int / 16 * 16 + b0 as int % 16 == b0 as int) by (nonlinear_arith);
            assert((crate::wire::hex_val(s[4]) * 16 + crate::wire::hex_val(s[5])) as u8 == b0);
            assert(s.skip(6) =~= esc(bt) + seq![34u8] + rest);
            assert(seq![b0] + bt =~= b);
        } else {
            assert(s =~= seq![b0] + (esc(bt) + seq![34u8] + rest));
            assert(s[0] == b0);
            assert(s[0] != 34 && s[0] != 92);
            assert(s.drop_first() =~= esc(bt) + seq![34u8] + rest);
            assert(seq![s[0]] + bt =~= b);
        }
    }
}

/// A serialised string parses back to the same character sequence.
#[verifier::rlimit(100)]
#[verifier::spinoff_prover]
pub proof fn lemma_rt_string(t: Seq<char>, rest: Seq<u8>)
    ensures
        parse_string(ser_string(t) + rest) == Some((t, rest)),
{
    broadcast use encode_utf8_valid_utf8, encode_utf8_decode_utf8;

    let s = ser_string(t) + rest;
    assert(s[0] == 34);
    assert(s.drop_first() =~= esc(encode_utf8(t)) + seq![34u8] + rest);
    lemma_rt_str_bytes(encode_utf8(t), rest);
}

/// The lengths and the decisive bytes of the grammar's literals.
#[verifier::rlimit(100)]
#[verifier::spinoff_prover]
pub(crate) proof fn lemma_lit_facts()
    ensures
        lit(",\"y\":").len() == 5,
        lit(",\"y\":")[0] == 44u8,
        lit(",\"width\":").len() == 9,
        lit(",\"width\":")[0] == 44u8,
        lit(",\"height\":").len() == 10,
        lit(",\"height\":")[0] == 44u8,
        lit(",\"color\":").len() == 9,
        lit(",\"color\":")[0] == 44u8,
        lit(",\"green\":").len() == 9,
        lit(",\"green\":")[0] == 44u8,
        lit(",\"blue\":").len() == 8,
        lit(",\"blue\":")[0] == 44u8,
        lit("}}").len() == 2,
        lit("}}")[0] == 125u8,
        lit("}").len() == 1,
        lit("}")[0] == 125u8,
        lit(",\"radius\":").len() == 10,
        lit(",\"radius\":")[0] == 44u8,
        lit(",\"stroke\":").len() == 10,
        lit(",\"stroke\":")[0] == 44u8,
        lit(",\"weight\":").len() == 10,
        lit(",\"weight\":")[0] == 44u8,
        lit(",\"font\":").len() == 8,
        lit(",\"font\":")[0] == 44u8,
        lit(",\"text\":").len() == 8,
        lit(",\"text\":")[0] == 44u8,
        lit(",\"properties\":").len() == 14,
        lit(",\"properties\":")[0] == 44u8,
        lit(",\"title\":").len() == 9,
        lit(",\"title\":")[0] == 44u8,
        lit(",\"attributes\":[").len() == 15,
        lit(",\"attributes\":[")[0] == 44u8,
        lit("]}").len() == 2,
        lit("]}")[0] == 93u8,
        lit("],\"color\":").len() == 10,
        lit("],\"color\":")[0] == 93u8,
        lit(",").len() == 1,
        lit(",")[0] == 44u8,
        lit("null").len() == 4,
        lit("null")[0] == 110u8,
        lit("{\"width\":").len() == 9,
        lit("{\"width\":")[0] == 123u8,
        lit("{\"Rectangle\":").len() == 13,
        lit("{\"Rectangle\":")[0] == 123u8,
        lit("{\"Rectangle\":")[2] == 82u8,
        lit("{\"Label\":").len() == 9,
        lit("{\"Label\":")[0] == 123u8,
        lit("{\"Label\":")[2] == 76u8,
        lit("{\"Class\":").len() == 9,
        lit("{\"Class\":")[0] == 123u8,
        lit("{\"Class\":")[2] == 67u8,
        lit("{\"inner\":").len() == 9,
        lit("{\"inner\":")[0] == 123u8,
        lit("{\"Rgb\":{\"red\":").len() == 14,
        lit("{\"Rgb\":{\"red\":")[0] == 123u8,
        lit("{\"size\":").len() == 8,
        lit("{\"size\":")[0] == 123u8,
        lit("{\"x\":").len() == 5,
        lit("{\"x\":")[0] == 123u8,
        lit("{\"elements\":[").len() == 13,
        lit("{\"elements\":[")[0] == 123u8,
{
    broadcast use is_ascii_spec_bytes;

    reveal_strlit(",\"y\":");
    assert(vstd::string::is_ascii(",\"y\":"));
    reveal_strlit(",\"width\":");
    assert(vstd::string::is_ascii(",\"width\":"));
    reveal_strlit(",\"height\":");
    assert(vstd::string::is_ascii(",\"height\":"));
    reveal_strlit(",\"color\":");
    assert(vstd::string::is_ascii(",\"color\":"));
    reveal_strlit(",\"green\":");
    assert(vstd::string::is_ascii(",\"green\":"));
    reveal_strlit(",\"blue\":");
    assert(vstd::string::is_ascii(",\"blue\":"));
    reveal_strlit("}}");
    assert(vstd::string::is_ascii("}}"));
    reveal_strlit("}");
    assert(vstd::string::is_ascii("}"));
    reveal_strlit(",\"radius\":");
    assert(vstd::string::is_ascii(",\"radius\":"));
    reveal_strlit(",\"stroke\":");
    assert(vstd::string::is_ascii(",\"stroke\":"));
    reveal_strlit(",\"weight\":");
    assert(vstd::string::is_ascii(",\"weight\":"));
    reveal_strlit(",\"font\":");
    assert(vstd::string::is_ascii(",\"font\":"));
    reveal_strlit(",\"text\":");
    assert(vstd::string::is_ascii(",\"text\":"));
    reveal_strlit(",\"properties\":");
    assert(vstd::string::is_ascii(",\"properties\":"));
    reveal_strlit(",\"title\":");
    assert(vstd::string::is_ascii(",\"title\":"));
    reveal_strlit(",\"attributes\":[");
    assert(vstd::string::is_ascii(",\"attributes\":["));
    reveal_strlit("]}");
    assert(vstd::string::is_ascii("]}"));
    reveal_strlit("],\"color\":");
    assert(vstd::string::is_ascii("],\"color\":"));
    reveal_strlit(",");
    assert(vstd::string::is_ascii(","));
    reveal_strlit("null");
    assert(vstd::string::is_ascii("null"));
    reveal_strlit("{\"width\":");
    assert(vstd::string::is_ascii("{\"width\":"));
    reveal_strlit("{\"Rectangle\":");
    assert(vstd::string::is_ascii("{\"Rectangle\":"));
    reveal_strlit("{\"Label\":");
    assert(vstd::string::is_ascii("{\"Label\":"));
    reveal_strlit("{\"Class\":");
    assert(vstd::string::is_ascii("{\"Class\":"));
    reveal_strlit("{\"inner\":");
    assert(vstd::string::is_ascii("{\"inner\":"));
    reveal_strlit("{\"Rgb\":{\"red\":");
    assert(vstd::string::is_ascii("{\"Rgb\":{\"red\":"));
    reveal_strlit("{\"size\":");
    assert(vstd::string::is_ascii("{\"size\":"));
    reveal_strlit("{\"x\":");
    assert(vstd::string::is_ascii("{\"x\":"));
    reveal_strlit("{\"elements\":[");
    assert(vstd::string::is_ascii("{\"elements\":["));
}

#[verifier::rlimit(100)]
#[verifier::spinoff_prover]
pub(crate) proof fn lemma_rt_color(c: Color, rest: Seq<u8>)
    ensures
        parse_color(ser_color(c) + rest) == Some((c, rest)),
{
    lemma_lit_facts();
    match c { Color::Rgb { red, green, blue } => {
        let t7 = rest;
        let t6 = lit("}}") + t7;
        let t5 = ser_u8(blue) + t6;
        let t4 = lit(",\"blue\":") + t5;
        let t3 = ser_u8(green) + t4;
        let t2 = lit(",\"green\":") + t3;
        let t1 = ser_u8(red) + t2;
        let s = ser_color(c) + rest;
        assert(s =~= lit("{\"Rgb\":{\"red\":") + t1);
        lemma_parse_lit(lit("{\"Rgb\":{\"red\":"), t1);
        assert(!is_digit_byte(t2[0]));
        lemma_rt_u8(red, t2);
        lemma_parse_lit(lit(",\"green\":"), t3);
        assert(!is_digit_byte(t4[0]));
        lemma_rt_u8(green, t4);
        lemma_parse_lit(lit(",\"blue\":"), t5);
        assert(!is_digit_byte(t6[0]));
        lemma_rt_u8(blue, t6);
        lemma_parse_lit(lit("}}"), t7);
    }}
}

#[verifier::rlimit(100)]
#[verifier::spinoff_prover]
pub(crate) proof fn lemma_rt_stroke(st: Stroke, rest: Seq<u8>)
    ensures
        parse_stroke(ser_stroke(st) + rest) == Some((st, rest)),
{
    lemma_lit_facts();
    let t5 = rest;
    let t4 = lit("}") + t5;
    let t3 = ser_color(st.color) + t4;
    let t2 = lit(",\"color\":") + t3;
    let t1 = ser_u32(st.width) + t2;
    let s = ser_stroke(st) + rest;
    assert(s =~= lit("{\"width\":") + t1);
    lemma_parse_lit(lit("{\"width\":"), t1);
    assert(!is_digit_byte(t2[0]));
    lemma_rt_u32(st.width, t2);
    lemma_parse_lit(lit(",\"color\":"), t3);
    lemma_rt_color(st.color, t4);
    lemma_parse_lit(lit("}"), t5);
}

#[verifier::rlimit(100)]
#[verifier::spinoff_prover]
pub(crate) proof fn lemma_rt_text(t: WireText, rest: Seq<u8>)
    ensures
        parse_text(ser_text(t) + rest) == Some((t, rest)),
{
    lemma_lit_facts();
    let t7 = rest;
    let t6 = lit("}") + t7;
    let t5 = ser_opt_u32(t.weight) + t6;
    let t4 = lit(",\"weight\":") + t5;
    let t3 = ser_string(t.font) + t4;
    let t2 = lit(",\"font\":") + t3;
    let t1 = ser_u32(t.size) + t2;
    let s = ser_text(t) + rest;
    assert(s =~= lit("{\"size\":") + t1);
    lemma_parse_lit(lit("{\"size\":"), t1);
    assert(!is_digit_byte(t2[0]));
    lemma_rt_u32(t.size, t2);
    lemma_parse_lit(lit(",\"font\":"), t3);
    lemma_rt_string(t.font, t4);
    lemma_parse_lit(lit(",\"weight\":"), t5);
    assert(!is_digit_byte(t6[0]));
    lemma_rt_opt_u32(t.weight, t6);
    lemma_parse_lit(lit("}"), t7);
}

#[verifier::rlimit(100)]
#[verifier::spinoff_prover]
pub(crate) proof fn lemma_rt_label(l: WireLabel, rest: Seq<u8>)
    ensures
        parse_label(ser_label(l) + rest) == Some((l, rest)),
{
    lemma_lit_facts();
    let t11 = rest;
    let t10 = lit("}") + t11;
    let t9 = ser_color(l.color) + t10;
    let t8 = lit(",\"color\":") + t9;
    let t7 = ser_text(l.props) + t8;
    let t6 = lit(",\"properties\":") + t7;
    let t5 = ser_string(l.text) + t6;
    let t4 = lit(",\"text\":") + t5;
    let t3 = ser_i32(l.y) + t4;
    let t2 = lit(",\"y\":") + t3;
    let t1 = ser_i32(l.x) + t2;
    let s = ser_label(l) + rest;
    assert(s =~= lit("{\"x\":") + t1);
    lemma_parse_lit(lit("{\"x\":"), t1);
    assert(!is_digit_byte(t2[0]));
    lemma_rt_i32(l.x, t2);
    lemma_parse_lit(lit(",\"y\":"), t3);
    assert(!is_digit_byte(t4[0]));
    lemma_rt_i32(l.y, t4);
    lemma_parse_lit(lit(",\"text\":"), t5);
    lemma_rt_string(l.text, t6);
    lemma_parse_lit(lit(",\"properties\":"), t7);
    lemma_rt_text(l.props, t8);
    lemma_parse_lit(lit(",\"color\":"), t9);
    lemma_rt_color(l.color, t10);
    lemma_parse_lit(lit("}"), t11);
}

#[verifier::rlimit(100)]
#[verifier::spinoff_prover]
proof fn lemma_rt_rect_tail(r: WireRect, rest: Seq<u8>)
    ensures
        parse_rect_tail(
            lit(",\"color\":") + (ser_color(r.color) + (lit(",\"radius\":") + (ser_opt_u32(
                r.radius,
            ) + (lit(",\"stroke\":") + (ser_opt_stroke(r.stroke) + (lit("}") + rest)))))),
            r.x,
            r.y,
            r.width,
            r.height,
        ) == Some((r, rest)),
{
    lemma_lit_facts();
    let t7 = rest;
    let t6 = lit("}") + t7;
    let t5 = ser_opt_stroke(r.stroke) + t6;
    let t4 = lit(",\"stroke\":") + t5;
    let t3 = ser_opt_u32(r.radius) + t4;
    let t2 = lit(",\"radius\":") + t3;
    let t1 = ser_color(r.color) + t2;
    lemma_parse_lit(lit(",\"color\":"), t1);
    lemma_rt_color(r.color, t2);
    lemma_parse_lit(lit(",\"radius\":"), t3);
    assert(!is_digit_byte(t4[0]));
    lemma_rt_opt_u32(r.radius, t4);
    lemma_parse_lit(lit(",\"stroke\":"), t5);
    lemma_rt_opt_stroke(r.stroke, t6);
    lemma_parse_lit(lit("}"), t7);
}

/// A serialised rectangle round-trips.
#[verifier::rlimit(100)]
#[verifier::spinoff_prover]
pub(crate) proof fn lemma_rt_rect(r: WireRect, rest: Seq<u8>)
    ensures
        parse_rect(ser_rect(r) + rest) == Some((r, rest)),
{
    lemma_lit_facts();
    let t15 = rest;
    let t14 = lit("}") + t15;
    let t13 = ser_opt_stroke(r.stroke) + t14;
    let t12 = lit(",\"stroke\":") + t13;
    let t11 = ser_opt_u32(r.radius) + t12;
    let t10 = lit(",\"radius\":") + t11;
    let t9 = ser_color(r.color) + t10;
    let t8 = lit(",\"color\":") + t9;
    let t7 = ser_u32(r.height) + t8;
    let t6 = lit(",\"height\":") + t7;
    let t5 = ser_u32(r.width) + t6;
    let t4 = lit(",\"width\":") + t5;
    let t3 = ser_i32(r.y) + t4;
    let t2 = lit(",\"y\":") + t3;
    let t1 = ser_i32(r.x) + t2;
    let s = ser_rect(r) + rest;
    vstd::seq_lib::lemma_concat_associative(lit("{\"x\":") + ser_i32(r.x) + lit(",\"y\":") + ser_i32(r.y) + lit(",\"width\":") + ser_u32(r.width) + lit(",\"height\":") + ser_u32(r.height) + lit(",\"color\":") + ser_color(r.color) + lit(",\"radius\":") + ser_opt_u32(r.radius) + lit(",\"stroke\":") + ser_opt_stroke(r.stroke), lit("}"), t15);
    vstd::seq_lib::lemma_concat_associative(lit("{\"x\":") + ser_i32(r.x) + lit(",\"y\":") + ser_i32(r.y) + lit(",\"width\":") + ser_u32(r.width) + lit(",\"height\":") + ser_u32(r.height) + lit(",\"color\":") + ser_color(r.color) + lit(",\"radius\":") + ser_opt_u32(r.radius) + lit(",\"stroke\":"), ser_opt_stroke(r.stroke), t14);
    vstd::seq_lib::lemma_concat_associative(lit("{\"x\":") + ser_i32(r.x) + lit(",\"y\":") + ser_i32(r.y) + lit(",\"width\":") + ser_u32(r.width) + lit(",\"height\":") + ser_u32(r.height) + lit(",\"color\":") + ser_color(r.color) + lit(",\"radius\":") + ser_opt_u32(r.radius), lit(",\"stroke\":"), t13);
    vstd::seq_lib::lemma_concat_associative(lit("{\"x\":") + ser_i32(r.x) + lit(",\"y\":") + ser_i32(r.y) + lit(",\"width\":") + ser_u32(r.width) + lit(",\"height\":") + ser_u32(r.height) + lit(",\"color\":") + ser_color(r.color) + lit(",\"radius\":"), ser_opt_u32(r.radius), t12);
    vstd::seq_lib::lemma_concat_associative(lit("{\"x\":") + ser_i32(r.x) + lit(",\"y\":") + ser_i32(r.y) + lit(",\"width\":") + ser_u32(r.width) + lit(",\"height\":") + ser_u32(r.height) + lit(",\"color\":") + ser_color(r.color), lit(",\"radius\":"), t11);
    vstd::seq_lib::lemma_concat_associative(lit("{\"x\":") + ser_i32(r.x) + lit(",\"y\":") + ser_i32(r.y) + lit(",\"width\":") + ser_u32(r.width) + lit(",\"height\":") + ser_u32(r.height) + lit(",\"color\":"), ser_color(r.color), t10);
    vstd::seq_lib::lemma_concat_associative(lit("{\"x\":") + ser_i32(r.x) + lit(",\"y\":") + ser_i32(r.y) + lit(",\"width\":") + ser_u32(r.width) + lit(",\"height\":") + ser_u32(r.height), lit(",\"color\":"), t9);
    vstd::seq_lib::lemma_concat_associative(lit("{\"x\":") + ser_i32(r.x) + lit(",\"y\":") + ser_i32(r.y) + lit(",\"width\":") + ser_u32(r.width) + lit(",\"height\":"), ser_u32(r.height), t8);
    vstd::seq_lib::lemma_concat_associative(lit("{\"x\":") + ser_i32(r.x) + lit(",\"y\":") + ser_i32(r.y) + lit(",\"width\":") + ser_u32(r.width), lit(",\"height\":"), t7);
    vstd::seq_lib::lemma_concat_associative(lit("{\"x\":") + ser_i32(r.x) + lit(",\"y\":") + ser_i32(r.y) + lit(",\"width\":"), ser_u32(r.width), t6);
    vstd::seq_lib::lemma_concat_associative(lit("{\"x\":") + ser_i32(r.x) + lit(",\"y\":") + ser_i32(r.y), lit(",\"width\":"), t5);
    vstd::seq_lib::lemma_concat_associative(lit("{\"x\":") + ser_i32(r.x) + lit(",\"y\":"), ser_i32(r.y), t4);
    vstd::seq_lib::lemma_concat_associative(lit("{\"x\":") + ser_i32(r.x), lit(",\"y\":"), t3);
    vstd::seq_lib::lemma_concat_associative(lit("{\"x\":"), ser_i32(r.x), t2);
    assert(s == lit("{\"x\":") + t1);
    lemma_parse_lit(lit("{\"x\":"), t1);
    assert(!is_digit_byte(t2[0]));
    lemma_rt_i32(r.x, t2);
    lemma_parse_lit(lit(",\"y\":"), t3);
    assert(!is_digit_byte(t4[0]));
    lemma_rt_i32(r.y, t4);
    lemma_parse_lit(lit(",\"width\":"), t5);
    assert(!is_digit_byte(t6[0]));
    lemma_rt_u32(r.width, t6);
    lemma_parse_lit(lit(",\"height\":"), t7);
    assert(!is_digit_byte(t8[0]));
    lemma_rt_u32(r.height, t8);
    lemma_rt_rect_tail(r, rest);
}


/// An optional `u32` round-trips, whatever branch was taken.
#[verifier::rlimit(100)]
#[verifier::spinoff_prover]
pub(crate) proof fn lemma_rt_opt_u32(o: Option<u32>, rest: Seq<u8>)
    requires
        rest.len() == 0 || !is_digit_byte(rest[0]),
    ensures
        parse_opt_u32(ser_opt_u32(o) + rest) == Some((o, rest)),
{
    lemma_lit_facts();
    match o {
        None => {
            let s = ser_opt_u32(o) + rest;
            assert(s =~= lit("null") + rest);
            assert(s[0] == 110);
            lemma_parse_lit(lit("null"), rest);
        },
        Some(v) => {
            let s = ser_opt_u32(o) + rest;
            assert(s =~= ser_u32(v) + rest);
            lemma_dec_digits_bounds(v as int);
            assert(s[0] == dec_digits(v as int)[0]);
            assert(is_digit_byte(s[0]));
            assert(s[0] != 110);
            lemma_rt_u32(v, rest);
        },
    }
}

/// An optional stroke round-trips, whatever branch was taken.
#[verifier::rlimit(100)]
#[verifier::spinoff_prover]
pub(crate) proof fn lemma_rt_opt_stroke(o: Option<Stroke>, rest: Seq<u8>)
    ensures
        parse_opt_stroke(ser_opt_stroke(o) + rest) == Some((o, rest)),
{
    lemma_lit_facts();
    match o {
        None => {
            let s = ser_opt_stroke(o) + rest;
            assert(s =~= lit("null") + rest);
            assert(s[0] == 110);
            lemma_parse_lit(lit("null"), rest);
        },
        Some(st) => {
            let s = ser_opt_stroke(o) + rest;
            assert(s =~= ser_stroke(st) + rest);
            assert(s[0] == lit("{\"width\":")[0]);
            assert(s[0] != 110);
            lemma_rt_stroke(st, rest);
        },
    }
}

/// A serialised label spans at least its opening literal.
proof fn lemma_ser_label_len(l: WireLabel)
    ensures
        ser_label(l).len() >= 5,
{
    lemma_lit_facts();
}

/// The separator literal is the single comma byte.
proof fn lemma_comma_fact()
    ensures
        lit(",").len() == 1,
        lit(",")[0] == 44u8,
{
    broadcast use is_ascii_spec_bytes;

    reveal_strlit(",");
    assert(vstd::string::is_ascii(","));
}

/// One or more serialised labels round-trip as long as what follows
/// cannot be mistaken for another list entry.
#[verifier::rlimit(100)]
#[verifier::spinoff_prover]
pub(crate) proof fn lemma_rt_labels(ls: Seq<WireLabel>, rest: Seq<u8>)
    requires
        ls.len() >= 1,
        rest.len() == 0 || rest[0] != 44,
    ensures
        parse_labels(ser_labels(ls) + rest) == Some((ls, rest)),
    decreases ls.len(),
{
    lemma_comma_fact();
    lemma_ser_label_len(ls[0]);
    let s = ser_labels(ls) + rest;
    if ls.len() == 1 {
        lemma_rt_label(ls[0], rest);
        assert(rest.len() < s.len());
        assert(seq![ls[0]] =~= ls);
    } else {
        let tail = ls.drop_first();
        let t2 = ser_labels(tail) + rest;
        let t1 = lit(",") + t2;
        vstd::seq_lib::lemma_concat_associative(
            ser_label(ls[0]) + lit(","),
            ser_labels(tail),
            rest,
        );
        vstd::seq_lib::lemma_concat_associative(ser_label(ls[0]), lit(","), t2);
        assert(s == ser_label(ls[0]) + t1);
        lemma_rt_label(ls[0], t1);
        assert(t1.len() < s.len());
        assert(t1[0] == 44);
        assert(t1.drop_first() =~= t2);
        lemma_rt_labels(tail, rest);
        assert(seq![ls[0]] + tail =~= ls);
    }
}

/// The attribute list and closing brace of a class round-trip.
#[verifier::rlimit(100)]
#[verifier::spinoff_prover]
proof fn lemma_rt_class_tail(c: WireClass, rest: Seq<u8>)
    ensures
        parse_class_tail(
            ser_labels_block(c.attributes) + rest,
            c.x,
            c.y,
            c.color,
            c.radius,
            c.stroke,
            c.title,
        ) == Some((c, rest)),
{
    lemma_lit_facts();
    let s = ser_labels_block(c.attributes) + rest;
    if c.attributes.len() == 0 {
        let t1 = lit("]}") + rest;
        assert(s =~= lit(",\"attributes\":[") + t1);
        lemma_parse_lit(lit(",\"attributes\":["), t1);
        assert(t1[0] == 93);
        lemma_parse_lit(lit("]}"), rest);
        assert(c.attributes =~= Seq::<WireLabel>::empty());
    } else {
        let t2 = lit("]}") + rest;
        let t1 = ser_labels(c.attributes) + t2;
        assert(s =~= lit(",\"attributes\":[") + t1);
        lemma_parse_lit(lit(",\"attributes\":["), t1);
        lemma_ser_label_len(c.attributes[0]);
        assert(ser_labels(c.attributes)[0] == ser_label(c.attributes[0])[0]);
        assert(ser_label(c.attributes[0])[0] == lit("{\"x\":")[0]);
        assert(t1[0] == 123);
        assert(t2[0] == 93);
        lemma_rt_labels(c.attributes, t2);
        lemma_parse_lit(lit("]}"), rest);
    }
}

#[verifier::rlimit(100)]
#[verifier::spinoff_prover]
proof fn lemma_rt_class_mid(c: WireClass, rest: Seq<u8>)
    ensures
        parse_class_mid(
            lit(",\"radius\":") + (ser_opt_u32(c.radius) + (lit(",\"stroke\":") + (
            ser_opt_stroke(c.stroke) + (lit(",\"title\":") + (ser_label(c.title) + (
            ser_labels_block(c.attributes) + rest)))))),
            c.x,
            c.y,
            c.color,
        ) == Some((c, rest)),
{
    lemma_lit_facts();
    let t7 = ser_labels_block(c.attributes) + rest;
    let t6 = ser_label(c.title) + t7;
    let t5 = lit(",\"title\":") + t6;
    let t4 = ser_opt_stroke(c.stroke) + t5;
    let t3 = lit(",\"stroke\":") + t4;
    let t2 = ser_opt_u32(c.radius) + t3;
    let t1 = lit(",\"radius\":") + t2;
    lemma_parse_lit(lit(",\"radius\":"), t2);
    assert(!is_digit_byte(t3[0]));
    lemma_rt_opt_u32(c.radius, t3);
    lemma_parse_lit(lit(",\"stroke\":"), t4);
    lemma_rt_opt_stroke(c.stroke, t5);
    lemma_parse_lit(lit(",\"title\":"), t6);
    lemma_rt_label(c.title, t7);
    lemma_rt_class_tail(c, rest);
}

/// A serialised class round-trips.
#[verifier::rlimit(100)]
#[verifier::spinoff_prover]
pub(crate) proof fn lemma_rt_class(c: WireClass, rest: Seq<u8>)
    ensures
        parse_class(ser_class(c) + rest) == Some((c, rest)),
{
    lemma_lit_facts();
    let t13 = rest;
    let t12 = ser_labels_block(c.attributes) + t13;
    let t11 = ser_label(c.title) + t12;
    let t10 = lit(",\"title\":") + t11;
    let t9 = ser_opt_stroke(c.stroke) + t10;
    let t8 = lit(",\"stroke\":") + t9;
    let t7 = ser_opt_u32(c.radius) + t8;
    let t6 = lit(",\"radius\":") + t7;
    let t5 = ser_color(c.color) + t6;
    let t4 = lit(",\"color\":") + t5;
    let t3 = ser_i32(c.y) + t4;
    let t2 = lit(",\"y\":") + t3;
    let t1 = ser_i32(c.x) + t2;
    let s = ser_class(c) + rest;
    vstd::seq_lib::lemma_concat_associative(lit("{\"x\":") + ser_i32(c.x) + lit(",\"y\":") + ser_i32(c.y) + lit(",\"color\":") + ser_color(c.color) + lit(",\"radius\":") + ser_opt_u32(c.radius) + lit(",\"stroke\":") + ser_opt_stroke(c.stroke) + lit(",\"title\":") + ser_label(c.title), ser_labels_block(c.attributes), t13);
    vstd::seq_lib::lemma_concat_associative(lit("{\"x\":") + ser_i32(c.x) + lit(",\"y\":") + ser_i32(c.y) + lit(",\"color\":") + ser_color(c.color) + lit(",\"radius\":") + ser_opt_u32(c.radius) + lit(",\"stroke\":") + ser_opt_stroke(c.stroke) + lit(",\"title\":"), ser_label(c.title), t12);
    vstd::seq_lib::lemma_concat_associative(lit("{\"x\":") + ser_i32(c.x) + lit(",\"y\":") + ser_i32(c.y) + lit(",\"color\":") + ser_color(c.color) + lit(",\"radius\":") + ser_opt_u32(c.radius) + lit(",\"stroke\":") + ser_opt_stroke(c.stroke), lit(",\"title\":"), t11);
    vstd::seq_lib::lemma_concat_associative(lit("{\"x\":") + ser_i32(c.x) + lit(",\"y\":") + ser_i32(c.y) + lit(",\"color\":") + ser_color(c.color) + lit(",\"radius\":") + ser_opt_u32(c.radius) + lit(",\"stroke\":"), ser_opt_stroke(c.stroke), t10);
    vstd::seq_lib::lemma_concat_associative(lit("{\"x\":") + ser_i32(c.x) + lit(",\"y\":") + ser_i32(c.y) + lit(",\"color\":") + ser_color(c.color) + lit(",\"radius\":") + ser_opt_u32(c.radius), lit(",\"stroke\":"), t9);
    vstd::seq_lib::lemma_concat_associative(lit("{\"x\":") + ser_i32(c.x) + lit(",\"y\":") + ser_i32(c.y) + lit(",\"color\":") + ser_color(c.color) + lit(",\"radius\":"), ser_opt_u32(c.radius), t8);
    vstd::seq_lib::lemma_concat_associative(lit("{\"x\":") + ser_i32(c.x) + lit(",\"y\":") + ser_i32(c.y) + lit(",\"color\":") + ser_color(c.color), lit(",\"radius\":"), t7);
    vstd::seq_lib::lemma_concat_associative(lit("{\"x\":") + ser_i32(c.x) + lit(",\"y\":") + ser_i32(c.y) + lit(",\"color\":"), ser_color(c.color), t6);
    vstd::seq_lib::lemma_concat_associative(lit("{\"x\":") + ser_i32(c.x) + lit(",\"y\":") + ser_i32(c.y), lit(",\"color\":"), t5);
    vstd::seq_lib::lemma_concat_associative(lit("{\"x\":") + ser_i32(c.x) + lit(",\"y\":"), ser_i32(c.y), t4);
    vstd::seq_lib::lemma_concat_associative(lit("{\"x\":") + ser_i32(c.x), lit(",\"y\":"), t3);
    vstd::seq_lib::lemma_concat_associative(lit("{\"x\":"), ser_i32(c.x), t2);
    assert(s == lit("{\"x\":") + t1);
    lemma_parse_lit(lit("{\"x\":"), t1);
    assert(!is_digit_byte(t2[0]));
    lemma_rt_i32(c.x, t2);
    lemma_parse_lit(lit(",\"y\":"), t3);
    assert(!is_digit_byte(t4[0]));
    lemma_rt_i32(c.y, t4);
    lemma_parse_lit(lit(",\"color\":"), t5);
    lemma_rt_color(c.color, t6);
    lemma_rt_class_mid(c, rest);
}


/// A serialised element spans at least its opening literal.
proof fn lemma_ser_element_len(e: WireElement)
    ensures
        ser_element(e).len() >= 9,
{
    lemma_lit_facts();
}

/// A serialised element round-trips: the variant tag the serialiser
/// wrote is the one the parser recognises, and no other.
/// The serialised tagged body of an element parses back to the same
/// variant: the tags are mutually exclusive byte-wise.
#[verifier::rlimit(100)]
#[verifier::spinoff_prover]
proof fn lemma_rt_element_body(el: WireElement, rest: Seq<u8>)
    ensures
        parse_element_body((match el {
            WireElement::Rectangle(r) => lit("{\"Rectangle\":") + ser_rect(r) + lit("}"),
            WireElement::Label(l) => lit("{\"Label\":") + ser_label(l) + lit("}"),
            WireElement::Class(c) => lit("{\"Class\":") + ser_class(c) + lit("}"),
        }) + rest) == Some((el, rest)),
{
    lemma_lit_facts();
    match el {
        WireElement::Rectangle(r) => {
            let t2 = lit("}") + rest;
            let t1 = ser_rect(r) + t2;
            let s1 = (lit("{\"Rectangle\":") + ser_rect(r) + lit("}")) + rest;
            assert(s1 =~= lit("{\"Rectangle\":") + t1);
            lemma_parse_lit(lit("{\"Rectangle\":"), t1);
            lemma_rt_rect(r, t2);
            lemma_parse_lit(lit("}"), rest);
        },
        WireElement::Label(l) => {
            let t2 = lit("}") + rest;
            let t1 = ser_label(l) + t2;
            let s1 = (lit("{\"Label\":") + ser_label(l) + lit("}")) + rest;
            assert(s1 =~= lit("{\"Label\":") + t1);
            if s1.len() >= 13 {
                assert(s1.take(13)[2] == s1[2]);
                assert(s1[2] == lit("{\"Label\":")[2]);
                assert(s1.take(13) != lit("{\"Rectangle\":"));
            }
            assert(parse_lit(s1, lit("{\"Rectangle\":")) is None);
            lemma_parse_lit(lit("{\"Label\":"), t1);
            lemma_rt_label(l, t2);
            lemma_parse_lit(lit("}"), rest);
        },
        WireElement::Class(c) => {
            let t2 = lit("}") + rest;
            let t1 = ser_class(c) + t2;
            let s1 = (lit("{\"Class\":") + ser_class(c) + lit("}")) + rest;
            assert(s1 =~= lit("{\"Class\":") + t1);
            if s1.len() >= 13 {
                assert(s1.take(13)[2] == s1[2]);
                assert(s1[2] == lit("{\"Class\":")[2]);
                assert(s1.take(13) != lit("{\"Rectangle\":"));
            }
            assert(parse_lit(s1, lit("{\"Rectangle\":")) is None);
            if s1.len() >= 9 {
                assert(s1.take(9)[2] == s1[2]);
                assert(s1.take(9) != lit("{\"Label\":"));
            }
            assert(parse_lit(s1, lit("{\"Label\":")) is None);
            lemma_parse_lit(lit("{\"Class\":"), t1);
            lemma_rt_class(c, t2);
            lemma_parse_lit(lit("}"), rest);
        },
    }
}

/// A serialised element round-trips.
#[verifier::rlimit(100)]
#[verifier::spinoff_prover]
pub(crate) proof fn lemma_rt_element(el: WireElement, rest: Seq<u8>)
    ensures
        parse_element(ser_element(el) + rest) == Some((el, rest)),
{
    let body = (match el {
        WireElement::Rectangle(r) => lit("{\"Rectangle\":") + ser_rect(r) + lit("}"),
        WireElement::Label(l) => lit("{\"Label\":") + ser_label(l) + lit("}"),
        WireElement::Class(c) => lit("{\"Class\":") + ser_class(c) + lit("}"),
    });
    let t2 = lit("}") + rest;
    let t1 = body + t2;
    let s = ser_element(el) + rest;
    vstd::seq_lib::lemma_concat_associative(lit("{\"inner\":") + body, lit("}"), rest);
    vstd::seq_lib::lemma_concat_associative(lit("{\"inner\":"), body, t2);
    assert(s == lit("{\"inner\":") + t1);
    lemma_parse_lit(lit("{\"inner\":"), t1);
    lemma_rt_element_body(el, t2);
    lemma_parse_lit(lit("}"), rest);
}

/// One or more serialised elements round-trip, as `lemma_rt_labels`.
#[verifier::rlimit(100)]
#[verifier::spinoff_prover]
pub(crate) proof fn lemma_rt_elements(es: Seq<WireElement>, rest: Seq<u8>)
    requires
        es.len() >= 1,
        rest.len() == 0 || rest[0] != 44,
    ensures
        parse_elements(ser_elements(es) + rest) == Some((es, rest)),
    decreases es.len(),
{
    lemma_comma_fact();
    lemma_ser_element_len(es[0]);
    let s = ser_elements(es) + rest;
    if es.len() == 1 {
        lemma_rt_element(es[0], rest);
        assert(rest.len() < s.len());
        assert(seq![es[0]] =~= es);
    } else {
        let tail = es.drop_first();
        let t2 = ser_elements(tail) + rest;
        let t1 = lit(",") + t2;
        vstd::seq_lib::lemma_concat_associative(
            ser_element(es[0]) + lit(","),
            ser_elements(tail),
            rest,
        );
        vstd::seq_lib::lemma_concat_associative(ser_element(es[0]), lit(","), t2);
        assert(s == ser_element(es[0]) + t1);
        lemma_rt_element(es[0], t1);
        assert(t1.len() < s.len());
        assert(t1[0] == 44);
        assert(t1.drop_first() =~= t2);
        lemma_rt_elements(tail, rest);
        assert(seq![es[0]] + tail =~= es);
    }
}

/// Serialising a document and parsing the result gives back exactly
/// the document that was serialised: the codec loses nothing and
/// invents nothing.
#[verifier::rlimit(100)]
#[verifier::spinoff_prover]
pub proof fn lemma_document_round_trip(d: WireDocument)
    ensures
        parse_document(ser_document(d)) == Some(d),
{
    reveal(crate::wire::parse_document);
    lemma_lit_facts();
    let rest = Seq::<u8>::empty();
    let t4 = lit("}") + rest;
    let t3 = ser_color(d.color) + t4;
    let t2 = lit("],\"color\":") + t3;
    let t1 = ser_elements(d.elements) + t2;
    let s = ser_document(d);
    if d.elements.len() == 0 {
        assert(ser_elements(d.elements) =~= Seq::<u8>::empty());
        assert(s =~= lit("{\"elements\":[") + t2);
        lemma_parse_lit(lit("{\"elements\":["), t2);
        assert(t2[0] == 93);
        lemma_parse_lit(lit("],\"color\":"), t3);
        lemma_rt_color(d.color, t4);
        lemma_parse_lit(lit("}"), rest);
        assert(d.elements =~= Seq::<WireElement>::empty());
        assert(t4.drop_first() =~= rest);
    } else {
        assert(s =~= lit("{\"elements\":[") + t1);
        lemma_parse_lit(lit("{\"elements\":["), t1);
        lemma_ser_element_len(d.elements[0]);
        assert(ser_elements(d.elements)[0] == ser_element(d.elements[0])[0]);
        assert(ser_element(d.elements[0])[0] == lit("{\"inner\":")[0]);
        assert(t1[0] == 123);
        assert(t2[0] == 93);
        lemma_rt_elements(d.elements, t2);
        lemma_parse_lit(lit("],\"color\":"), t3);
        lemma_rt_color(d.color, t4);
        lemma_parse_lit(lit("}"), rest);
    }
}

} // verus!
