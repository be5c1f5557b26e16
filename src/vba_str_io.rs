use vstd::prelude::*;
use crate::api::{ApiResponse, batch_view, document_text, err_text, error_text, opt_quoted, response_document};
use crate::error::{code_of, descr_of, tech_descr_of};
use crate::json::{escape_char, escaped, quoted};
use crate::utf16::units_of_char;
use crate::error::{Error, ErrorModel};
use crate::utf16::{decode_utf16, encode_utf16, lemma_decode_encode, utf16_decode, utf16_of};

verus! {

/// The largest byte length that the host's signed 32-bit length field holds.
pub const MAX_HOST_BYTES: usize = 0x7FFF_FFFF;

/// The text that a host buffer fails to decode with, as the standard library
/// words it.
pub open spec fn invalid_utf16_text() -> Seq<char> {
    "invalid utf-16: lone surrogate found"@
}

/// The byte length that the host stores in the two code units in front of its
/// text (a little-endian 32-bit integer).
pub open spec fn prefix_len(block: Seq<u16>) -> int {
    block[0] as int + block[1] as int * 0x10000
}

/// The code units of the text of a length-prefixed host string.
pub open spec fn prefixed_units(block: Seq<u16>) -> Seq<u16> {
    block.subrange(2, 2 + prefix_len(block) / 2)
}

/// A length-prefixed host string holding `s`: the byte length, then the text.
pub open spec fn prefixed_block(s: Seq<char>) -> Seq<u16> {
    let n = 2 * utf16_of(s).len();
    seq![(n % 0x10000) as u16, (n / 0x10000) as u16] + utf16_of(s)
}

/// Reads the text of a length-prefixed host string: `block` is the memory
/// from the 4-byte length prefix on.
pub fn get_string_from_vba(block: &[u16]) -> (r: Result<String, Error>)
    requires
        block@.len() >= 2,
        2 + prefix_len(block@) / 2 <= block@.len(),
    ensures
        match utf16_decode(prefixed_units(block@)) {
            Some(t) => r is Ok && r->Ok_0@ == t,
            None => r is Err && r->Err_0@ == ErrorModel::InvalidUtf16OnInput(invalid_utf16_text()),
        },
{
    let len_in_bytes: u32 = block[0] as u32 + block[1] as u32 * 0x10000;
    let end: usize = 2 + (len_in_bytes / 2) as usize;
    let units = vstd::slice::slice_subrange(block, 2, end);
    match decode_utf16(units) {
        Some(t) => Ok(t),
        None => Err(Error::InvalidUtf16OnInput(String::from_str("invalid utf-16: lone surrogate found"))),
    }
}

/// Any text survives being framed as a host string and read back.
pub proof fn lemma_prefixed_round_trip(s: Seq<char>)
    requires
        2 * utf16_of(s).len() < 0x1_0000_0000,
    ensures
        prefixed_block(s).len() >= 2,
        2 + prefix_len(prefixed_block(s)) / 2 <= prefixed_block(s).len(),
        utf16_decode(prefixed_units(prefixed_block(s))) == Some(s),
{
    let b = prefixed_block(s);
    let n = 2 * utf16_of(s).len();
    assert(prefix_len(b) == n);
    assert(prefixed_units(b) =~= utf16_of(s));
    lemma_decode_encode(s);
}

/// A text handed to the host: its UTF-16 code units, their byte length, and
/// whether the buffer holds a valid payload.
pub struct StringForVba {
    pub is_valid: bool,
    pub length_in_bytes: i32,
    pub data: Vec<u16>,
}

impl StringForVba {
    pub open spec fn wf(&self) -> bool {
        self.length_in_bytes as int == 2 * self.data@.len()
    }

    /// Encodes the text as UTF-16 for the host.
    pub fn from_string(text: String) -> (r: Self)
        requires
            2 * utf16_of(text@).len() <= MAX_HOST_BYTES,
        ensures
            r.wf(),
            r.is_valid,
            r.data@ == utf16_of(text@),
            utf16_decode(r.data@) == Some(text@),
    {
        let data = encode_utf16(text.as_str());
        proof {
            lemma_decode_encode(text@);
        }
        StringForVba { is_valid: true, length_in_bytes: (data.len() * 2) as i32, data }
    }

    pub fn validity_update(&mut self, is_valid: bool)
        ensures
            final(self).is_valid == is_valid,
            final(self).data@ == old(self).data@,
            final(self).length_in_bytes == old(self).length_in_bytes,
    {
        self.is_valid = is_valid;
    }

    /// Hands over the parts of the fixed-layout record that the host reads:
    /// the code units, their byte length and the validity flag.
    pub fn into_raw(self) -> (r: (Vec<u16>, i32, bool))
        ensures
            r.0@ == self.data@,
            r.1 == self.length_in_bytes,
            r.2 == self.is_valid,
    {
        (self.data, self.length_in_bytes, self.is_valid)
    }
}

/// The wire document of a batch's outcome, encoded for the host. Where the
/// document is too long for the host's length field, it is replaced by a
/// top-level serialization error.
pub fn payload_for_host(b: &Result<Vec<ApiResponse>, Error>) -> (r: StringForVba)
    ensures
        r.wf(),
        2 * utf16_of(document_text(batch_view(*b))).len() <= MAX_HOST_BYTES ==> r.is_valid
            && utf16_decode(r.data@) == Some(document_text(batch_view(*b))),
        r.is_valid,
        2 * utf16_of(document_text(batch_view(*b))).len() > MAX_HOST_BYTES ==> utf16_decode(r.data@)
            == Some(err_text(ErrorModel::Serialization(too_long_text()))),
{
    let doc = response_document(b);
    let units = encode_utf16(doc.as_str());
    if units.len() <= MAX_HOST_BYTES / 2 {
        proof {
            lemma_decode_encode(doc@);
        }
        return StringForVba { is_valid: true, length_in_bytes: (units.len() * 2) as i32, data: units };
    }
    let e = Error::Serialization(String::from_str("response is too long for the host"));
    let fallback: Result<Vec<ApiResponse>, Error> = Err(e);
    let fdoc = response_document(&fallback);
    let funits = encode_utf16(fdoc.as_str());
    proof {
        lemma_fallback_fits();
        lemma_decode_encode(fdoc@);
    }
    StringForVba { is_valid: true, length_in_bytes: (funits.len() * 2) as i32, data: funits }
}

pub open spec fn too_long_text() -> Seq<char> {
    "response is too long for the host"@
}

proof fn lemma_utf16_len(s: Seq<char>)
    ensures
        utf16_of(s).len() <= 2 * s.len(),
    decreases s.len(),
{
    if s.len() > 0 {
        lemma_utf16_len(s.drop_last());
        assert(units_of_char(s.last()).len() <= 2);
    }
}

proof fn lemma_escaped_len(s: Seq<char>)
    ensures
        escaped(s).len() <= 6 * s.len(),
    decreases s.len(),
{
    if s.len() > 0 {
        lemma_escaped_len(s.drop_last());
        assert(escape_char(s.last()).len() <= 6);
    }
}

/// The error document that stands in for a response too long for the host
/// fits the host's length field.
proof fn lemma_fallback_fits()
    ensures
        2 * utf16_of(err_text(ErrorModel::Serialization(too_long_text()))).len() <= MAX_HOST_BYTES,
{
    let e = ErrorModel::Serialization(too_long_text());
    reveal_strlit("response is too long for the host");
    reveal_strlit("0610");
    reveal_strlit("Не удалось сериализовать ответ БД в JSON-формат");
    reveal_strlit("{\"Err\":");
    reveal_strlit("{\"code\":");
    reveal_strlit(",\"descr\":");
    reveal_strlit(",\"tech_descr\":");
    lemma_escaped_len(code_of(e));
    lemma_escaped_len(descr_of(e));
    lemma_escaped_len(too_long_text());
    assert(tech_descr_of(e) == Some(too_long_text()));
    assert(error_text(e).len() < 1000);
    lemma_utf16_len(err_text(e));
}

/// The earlier layout of a text handed to the host: the byte length and the
/// boxed code units, with no validity flag.
pub struct StringWrapForVBA {
    pub length_in_bytes: i32,
    pub data: Box<Vec<u16>>,
}

/// Encodes the text as UTF-16 in the earlier layout.
pub fn get_string_ptr_for_vba(text: String) -> (r: Box<StringWrapForVBA>)
    requires
        2 * utf16_of(text@).len() <= MAX_HOST_BYTES,
    ensures
        r.data@ == utf16_of(text@),
        r.length_in_bytes as int == 2 * r.data@.len(),
        utf16_decode(r.data@) == Some(text@),
{
    let data = encode_utf16(text.as_str());
    proof {
        lemma_decode_encode(text@);
    }
    let length_in_bytes = (data.len() * 2) as i32;
    Box::new(StringWrapForVBA { length_in_bytes, data: Box::new(data) })
}

} // verus!
