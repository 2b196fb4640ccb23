use vstd::prelude::*;

use crate::wire::{dec_digits, lit};

verus! {

use vstd::string::is_ascii_spec_bytes;
use vstd::utf8::{encode_utf8, valid_utf8, valid_utf8_concat};

/// The CSS font shorthand for these properties: weight, size in
/// pixels, family.
pub open spec fn font_string_bytes(t: crate::wire::WireText) -> Seq<u8> {
    dec_digits((match t.weight {
        Some(w) => w as int,
        None => 400,
    })) + lit(" ") + dec_digits(t.size as int) + lit("px ") + encode_utf8(t.font)
}

/// How a piece of text is rendered: point size, font family and an
/// optional weight (400 when absent).
#[derive(Debug, Clone, PartialEq)]
pub struct TextProperties {
    pub size: u32,
    pub font: String,
    pub weight: Option<u32>,
}

impl TextProperties {
    pub fn new(size: u32, font: String) -> (p: Self)
        ensures
            p.size == size,
            p.font@ == font@,
            p.weight is None,
    {
        Self { size, font, weight: None }
    }

    /// The CSS font string: weight (400 when unset), pixel size and
    /// family, space separated.
    pub fn get_font_string(&self) -> (r: String)
        ensures
            encode_utf8(r@) == font_string_bytes(self.wire()),
    {
        let weight = match self.weight {
            Some(w) => w,
            None => 400,
        };
        let mut bytes: Vec<u8> = Vec::new();
        crate::ser::push_u32(&mut bytes, weight);
        crate::ser::push_lit(&mut bytes, " ");
        crate::ser::push_u32(&mut bytes, self.size);
        crate::ser::push_lit(&mut bytes, "px ");
        let mut font_bytes = self.font.as_str().as_bytes_vec();
        bytes.append(&mut font_bytes);
        proof {
            broadcast use is_ascii_spec_bytes, vstd::utf8::encode_utf8_valid_utf8, valid_utf8_concat, vstd::utf8::encode_utf8_decode_utf8;

            reveal_strlit(" ");
            reveal_strlit("px ");
            assert(vstd::string::is_ascii(" "));
            assert(vstd::string::is_ascii("px "));
            crate::client::lemma_dec_digits_ascii(weight as int);
            crate::client::lemma_dec_digits_ascii(self.size as int);
            let ascii_part = dec_digits(weight as int) + lit(" ") + dec_digits(self.size as int)
                + lit("px ");
            assert(forall|i: int|
                0 <= i < ascii_part.len() ==> (#[trigger] ascii_part[i]) < 0x80);
            crate::client::lemma_ascii_valid_utf8(ascii_part);
            assert(bytes@ =~= ascii_part + encode_utf8(self.font@));
            assert(valid_utf8(bytes@));
        }
        match crate::parse::bytes_to_string(bytes) {
            Some(r) => r,
            None => String::new(),
        }
    }

    /// Builder step that sets the weight.
    pub fn weight(self, value: u32) -> (p: Self)
        ensures
            p.size == self.size,
            p.font@ == self.font@,
            p.weight == Some(value),
    {
        Self { weight: Some(value), ..self }
    }
}

impl Default for TextProperties {
    /// 20-point Arial with the default weight.
    fn default() -> (p: Self)
        ensures
            p.size == 20,
            p.font@ == "Arial,sans-serif"@,
            p.weight is None,
    {
        Self { size: 20, font: "Arial,sans-serif".to_owned(), weight: None }
    }
}

} // verus!
