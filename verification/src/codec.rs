//! Text codecs used on the wire: lower-case hex, RFC 4648 base64, and UTF-8
//! validity.  Encoding and decoding are done by outside crates through
//! trusted wrappers; the spec functions here say exactly what they produce.

use vstd::prelude::*;
use vstd::utf8::valid_utf8;

verus! {

/// Lower-case hex digit for a value below 16.
pub open spec fn hex_digit(v: u8) -> u8
    recommends
        v < 16,
{
    if v < 10 {
        (0x30 + v) as u8  // '0'..'9'
    } else {
        (0x57 + v) as u8  // 'a'..'f'
    }
}

/// Hex encoding of a byte sequence: two lower-case digits per byte.
pub open spec fn hex_of(s: Seq<u8>) -> Seq<u8>
    decreases s.len(),
{
    if s.len() == 0 {
        Seq::empty()
    } else {
        seq![hex_digit(s[0] / 16), hex_digit(s[0] % 16)] + hex_of(s.drop_first())
    }
}

/// Symbol of the standard base64 alphabet for a value below 64.
pub open spec fn b64_symbol(v: u8) -> u8
    recommends
        v < 64,
{
    if v < 26 {
        (0x41 + v) as u8  // 'A'..'Z'
    } else if v < 52 {
        (0x61 + (v - 26)) as u8  // 'a'..'z'
    } else if v < 62 {
        (0x30 + (v - 52)) as u8  // '0'..'9'
    } else if v == 62 {
        0x2b  // '+'
    } else {
        0x2f  // '/'
    }
}

/// RFC 4648 base64 encoding with `=` padding.
pub open spec fn base64_of(s: Seq<u8>) -> Seq<u8>
    decreases s.len(),
{
    if s.len() == 0 {
        Seq::empty()
    } else if s.len() == 1 {
        seq![
            b64_symbol(s[0] / 4),
            b64_symbol(((s[0] % 4) * 16) as u8),
            0x3d,
            0x3d,
        ]
    } else if s.len() == 2 {
        seq![
            b64_symbol(s[0] / 4),
            b64_symbol(((s[0] % 4) * 16 + s[1] / 16) as u8),
            b64_symbol(((s[1] % 16) * 4) as u8),
            0x3d,
        ]
    } else {
        seq![
            b64_symbol(s[0] / 4),
            b64_symbol(((s[0] % 4) * 16 + s[1] / 16) as u8),
            b64_symbol(((s[1] % 16) * 4 + s[2] / 64) as u8),
            b64_symbol((s[2] % 64) as u8),
        ] + base64_of(s.skip(3))
    }
}

/// Relies on hex::encode: two lower-case hex digits for each input byte.
#[verifier::external_body]
pub(crate) fn hex_encode(data: &[u8]) -> (r: Vec<u8>)
    ensures
        r@ == hex_of(data@),
{
    hex::encode(data).into_bytes()
}

/// Relies on data_encoding::BASE64.encode: RFC 4648 base64 with padding.
#[verifier::external_body]
pub(crate) fn base64_encode(data: &[u8]) -> (r: Vec<u8>)
    ensures
        r@ == base64_of(data@),
{
    data_encoding::BASE64.encode(data).into_bytes()
}

/// Relies on data_encoding::BASE64.decode: a canonical base64 text decodes
/// to the bytes it encodes.  Other inputs may decode too (the decoder also
/// takes concatenated padded blocks) or be refused, so nothing more is said
/// of them.
#[verifier::external_body]
pub(crate) fn base64_decode(data: &[u8]) -> (r: Option<Vec<u8>>)
    ensures
        r is None ==> forall|d: Seq<u8>| base64_of(d) != data@,
        r matches Some(o) ==> forall|d: Seq<u8>| base64_of(d) == data@ ==> o@ == d,
{
    match data_encoding::BASE64.decode(data) {
        Ok(v) => Some(v),
        Err(_) => None,
    }
}

/// Relies on core::str::from_utf8: it accepts exactly the valid UTF-8 byte
/// sequences (the well-formedness that vstd's `valid_utf8` spells out).
#[verifier::external_body]
pub(crate) fn utf8_check(data: &[u8]) -> (r: bool)
    ensures
        r == valid_utf8(data@),
{
    core::str::from_utf8(data).is_ok()
}

/// A sequence of ASCII bytes is valid UTF-8.
pub proof fn lemma_ascii_valid_utf8(s: Seq<u8>)
    requires
        forall|i: int| 0 <= i < s.len() ==> s[i] < 0x80,
    ensures
        valid_utf8(s),
    decreases s.len(),
{
    if s.len() != 0 {
        assert(vstd::utf8::is_leading_byte_width_1(s[0]));
        assert(vstd::utf8::valid_first_scalar(s));
        assert(vstd::utf8::pop_first_scalar(s) =~= s.drop_first());
        lemma_ascii_valid_utf8(s.drop_first());
    }
}

/// Every symbol of the base64 alphabet is ASCII.
pub proof fn lemma_b64_symbol_ascii()
    ensures
        forall|v: u8| #[trigger] b64_symbol(v) < 0x80,
{
}

/// Base64 symbols and padding are ASCII.
pub proof fn lemma_base64_ascii(s: Seq<u8>)
    ensures
        forall|i: int| 0 <= i < base64_of(s).len() ==> base64_of(s)[i] < 0x80,
    decreases s.len(),
{
    lemma_b64_symbol_ascii();
    if s.len() > 2 {
        lemma_base64_ascii(s.skip(3));
        assert forall|i: int| 0 <= i < base64_of(s).len() implies base64_of(s)[i] < 0x80 by {
            if i >= 4 {
                assert(base64_of(s)[i] == base64_of(s.skip(3))[i - 4]);
            }
        }
    }
}

} // verus!
