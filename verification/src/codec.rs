//! Encodings: UTF-8, base64, raw deflate and form encoding.
use base64::engine::general_purpose::STANDARD;
use base64::Engine;
use flate2::read::DeflateDecoder;
use std::io::Read;
use vstd::prelude::*;

verus! {

/// The text that `String::from_utf8_lossy` of std reads from bytes.
pub uninterp spec fn lossy_text(bytes: Seq<u8>) -> Seq<char>;

/// `String::from_utf8_lossy` of std. Claimed: the text depends on the bytes
/// alone, and bytes that are valid UTF-8 are the encoding of it.
#[verifier::external_body]
fn text_from_utf8(bytes: &[u8]) -> (r: String)
    ensures
        r@ == lossy_text(bytes@),
        vstd::utf8::valid_utf8(bytes@) ==> vstd::utf8::encode_utf8(r@) == bytes@,
{
    String::from_utf8_lossy(bytes).into_owned()
}

/// The text of bytes: what they encode where they are valid UTF-8, and else
/// what std makes of them.
pub open spec fn utf8_text(bytes: Seq<u8>) -> Seq<char> {
    if vstd::utf8::valid_utf8(bytes) {
        vstd::utf8::decode_utf8(bytes)
    } else {
        lossy_text(bytes)
    }
}

/// The text of bytes.
pub fn text_of_utf8(bytes: &[u8]) -> (r: String)
    ensures
        r@ == utf8_text(bytes@),
{
    let r = text_from_utf8(bytes);
    proof {
        vstd::utf8::encode_utf8_decode_utf8(r@);
    }
    r
}

/// The text that valid UTF-8 encodes is read from it.
pub proof fn law_encoded_text_reads_back(s: Seq<char>)
    ensures
        utf8_text(vstd::utf8::encode_utf8(s)) == s,
{
    vstd::utf8::encode_utf8_valid_utf8(s);
    vstd::utf8::encode_utf8_decode_utf8(s);
}

/// The bytes that the standard alphabet of base64 decodes a text to, `None`
/// where the text is no base64.
pub uninterp spec fn base64_bytes(text: Seq<char>) -> Option<Seq<u8>>;

/// `Engine::decode` of base64 with the engine `STANDARD`. Claimed: the outcome
/// depends on the text alone.
#[verifier::external_body]
pub(crate) fn base64_decode(text: &str) -> (r: Option<Vec<u8>>)
    ensures
        r.deep_view() == base64_bytes(text@),
{
    STANDARD.decode(text).ok()
}

/// The base64 text, in the standard alphabet, of bytes.
pub uninterp spec fn base64_text(bytes: Seq<u8>) -> Seq<char>;

/// `Engine::encode` of base64 with the engine `STANDARD`. Claimed: the text
/// depends on the bytes alone, and decoding it gives them back.
#[verifier::external_body]
pub(crate) fn base64_encode(bytes: &[u8]) -> (r: String)
    ensures
        r@ == base64_text(bytes@),
        base64_bytes(r@) == Some(bytes@),
{
    STANDARD.encode(bytes)
}

/// The text that raw deflate data decompresses to, `None` where the data is
/// damaged or its content is no UTF-8.
pub uninterp spec fn inflated_text(bytes: Seq<u8>) -> Option<Seq<char>>;

/// `DeflateDecoder` of flate2, read to its end as text. Claimed: the outcome
/// depends on the bytes alone.
#[verifier::external_body]
pub(crate) fn inflate(bytes: &[u8]) -> (r: Option<String>)
    ensures
        r.deep_view() == inflated_text(bytes@),
{
    let mut text = String::new();
    DeflateDecoder::new(bytes).read_to_string(&mut text).ok().map(|_n| text)
}

/// The upper-case hexadecimal digit with the value `d`.
pub open spec fn hex_digit(d: int) -> char {
    if d < 10 {
        (d + '0' as int) as char
    } else {
        (d - 10 + 'A' as int) as char
    }
}

/// A byte in the form encoding of URLs.
pub open spec fn form_byte(b: u8) -> Seq<char> {
    if '0' <= b as char <= '9' || 'A' <= b as char <= 'Z' || 'a' <= b as char <= 'z' || b as char
        == '*' || b as char == '-' || b as char == '.' || b as char == '_' {
        seq![b as char]
    } else if b as char == ' ' {
        seq!['+']
    } else {
        seq!['%', hex_digit(b as int / 16), hex_digit(b as int % 16)]
    }
}

/// Bytes in the form encoding of URLs: letters, digits and `*-._` stand for
/// themselves, a plus sign for the space, `%XX` for any other byte.
pub open spec fn form_encoded(bytes: Seq<u8>) -> Seq<char>
    decreases bytes.len(),
{
    if bytes.len() == 0 {
        Seq::empty()
    } else {
        form_encoded(bytes.drop_last()) + form_byte(bytes.last())
    }
}

/// `form_urlencoded::byte_serialize` of url. Claimed: the form encoding of the
/// bytes.
#[verifier::external_body]
fn form_encode(bytes: &[u8]) -> (r: String)
    ensures
        r@ == form_encoded(bytes@),
{
    url::form_urlencoded::byte_serialize(bytes).collect()
}

/// `s` as a value in the query of a URL.
pub fn urlencoding(s: &str) -> (r: String)
    ensures
        r@ == form_encoded(vstd::utf8::encode_utf8(s@)),
{
    form_encode(s.as_bytes())
}

} // verus!
