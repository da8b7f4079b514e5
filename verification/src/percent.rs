//! Percent-decoding of the keys and values of a query string.
//!
//! Decoding works on the UTF-8 bytes of the text: `%` followed by two
//! hexadecimal digits stands for one byte, and every other byte stands for
//! itself. `+` is not a space. Text is malformed where a `%` is not followed
//! by two hexadecimal digits, or where the bytes that come out are not UTF-8
//! again; a malformed key or value is taken to be empty.

use vstd::prelude::*;
use vstd::string::StringSliceAdditionalSpecFns;
use vstd::utf8::{
    decode_utf8, encode_utf8, encode_utf8_decode_utf8, encode_utf8_valid_utf8, is_ascii_chars,
    is_ascii_chars_encode_utf8, valid_utf8,
};

verus! {

/// The byte `%`.
pub const PERCENT: u8 = 0x25;

/// Whether `byte` is one of `0-9`, `A-F`, `a-f`.
pub open spec fn is_hex_digit(byte: u8) -> bool {
    (0x30 <= byte <= 0x39) || (0x41 <= byte <= 0x46) || (0x61 <= byte <= 0x66)
}

/// The number that a hexadecimal digit stands for.
pub open spec fn hex_value(digit: u8) -> int
    recommends
        is_hex_digit(digit),
{
    if digit <= 0x39 {
        digit - 0x30
    } else if digit <= 0x46 {
        digit - 0x41 + 10
    } else {
        digit - 0x61 + 10
    }
}

/// Whether `text` starts with `%` and two hexadecimal digits.
pub open spec fn starts_with_escape(text: Seq<u8>) -> bool {
    text.len() >= 3 && text[0] == PERCENT && is_hex_digit(text[1]) && is_hex_digit(text[2])
}

/// The bytes that percent-encoded bytes stand for.
pub open spec fn percent_decoded_bytes(text: Seq<u8>) -> Seq<u8>
    decreases text.len(),
{
    if text.len() == 0 {
        Seq::empty()
    } else if starts_with_escape(text) {
        seq![(16 * hex_value(text[1]) + hex_value(text[2])) as u8] + percent_decoded_bytes(
            text.skip(3),
        )
    } else {
        seq![text[0]] + percent_decoded_bytes(text.skip(1))
    }
}

/// The text that percent-encoded text stands for, if its bytes are UTF-8.
pub open spec fn percent_decoded(text: Seq<char>) -> Option<Seq<char>> {
    let bytes = percent_decoded_bytes(encode_utf8(text));
    if valid_utf8(bytes) {
        Some(decode_utf8(bytes))
    } else {
        None
    }
}

/// Whether every `%` in `text` starts an escape: two hexadecimal digits
/// follow it.
pub open spec fn escapes_are_complete(text: Seq<u8>) -> bool
    decreases text.len(),
{
    if text.len() == 0 {
        true
    } else if text[0] == PERCENT {
        starts_with_escape(text) && escapes_are_complete(text.skip(3))
    } else {
        escapes_are_complete(text.skip(1))
    }
}

/// Whether `text` is well-formed percent-encoded text: its escapes are
/// complete and it decodes to UTF-8.
pub open spec fn is_well_formed(text: Seq<char>) -> bool {
    escapes_are_complete(encode_utf8(text)) && percent_decoded(text) is Some
}

/// What a key or a value of a query string is taken to be: its decoding, or
/// the empty text where it is malformed.
pub open spec fn decoded_component(text: Seq<char>) -> Seq<char> {
    if is_well_formed(text) {
        percent_decoded(text)->Some_0
    } else {
        Seq::empty()
    }
}

/// Whether `encoded` is a percent-encoding of `raw`: each byte of `raw` is
/// written either as itself, unless it is `%`, or as `%` and its two
/// hexadecimal digits, in either case of letters.
pub open spec fn percent_encodes(encoded: Seq<u8>, raw: Seq<u8>) -> bool
    decreases raw.len(),
{
    if raw.len() == 0 {
        encoded.len() == 0
    } else {
        ||| {
            &&& encoded.len() >= 1
            &&& encoded[0] == raw[0]
            &&& raw[0] != PERCENT
            &&& percent_encodes(encoded.skip(1), raw.skip(1))
        }
        ||| {
            &&& starts_with_escape(encoded)
            &&& 16 * hex_value(encoded[1]) + hex_value(encoded[2]) == raw[0]
            &&& percent_encodes(encoded.skip(3), raw.skip(1))
        }
    }
}

/// Decoding undoes every percent-encoding, byte for byte, and no
/// percent-encoding has an incomplete escape.
pub proof fn decoding_undoes_encoding_of_bytes(encoded: Seq<u8>, raw: Seq<u8>)
    requires
        percent_encodes(encoded, raw),
    ensures
        percent_decoded_bytes(encoded) == raw,
        escapes_are_complete(encoded),
    decreases raw.len(),
{
    if raw.len() == 0 {
    } else if starts_with_escape(encoded) {
        // A text that starts with `%` can only have been written as an escape.
        decoding_undoes_encoding_of_bytes(encoded.skip(3), raw.skip(1));
        assert(percent_decoded_bytes(encoded) =~= seq![raw[0]] + raw.skip(1));
        assert(seq![raw[0]] + raw.skip(1) =~= raw);
    } else {
        decoding_undoes_encoding_of_bytes(encoded.skip(1), raw.skip(1));
        assert(percent_decoded_bytes(encoded) =~= seq![raw[0]] + raw.skip(1));
        assert(seq![raw[0]] + raw.skip(1) =~= raw);
    }
}

/// A key or value that was percent-encoded in any valid way decodes to the
/// text it was made from.
pub proof fn decoding_undoes_encoding(encoded: Seq<char>, original: Seq<char>)
    requires
        percent_encodes(encode_utf8(encoded), encode_utf8(original)),
    ensures
        is_well_formed(encoded),
        percent_decoded(encoded) == Some(original),
        decoded_component(encoded) == original,
{
    decoding_undoes_encoding_of_bytes(encode_utf8(encoded), encode_utf8(original));
    encode_utf8_valid_utf8(original);
    encode_utf8_decode_utf8(original);
}

/// Text without a `%` in it decodes to itself.
pub proof fn plain_text_decodes_to_itself(text: Seq<char>)
    requires
        !encode_utf8(text).contains(PERCENT),
    ensures
        decoded_component(text) == text,
{
    plain_bytes_encode_themselves(encode_utf8(text));
    decoding_undoes_encoding(text, text);
}

/// Bytes without a `%` among them are their own percent-encoding.
proof fn plain_bytes_encode_themselves(bytes: Seq<u8>)
    requires
        !bytes.contains(PERCENT),
    ensures
        percent_encodes(bytes, bytes),
    decreases bytes.len(),
{
    if bytes.len() > 0 {
        assert(bytes.contains(bytes[0]));
        assert forall|byte: u8| bytes.skip(1).contains(byte) implies bytes.contains(byte) by {
            let i = choose|i: int| 0 <= i < bytes.skip(1).len() && bytes.skip(1)[i] == byte;
            assert(bytes[i + 1] == byte);
        }
        plain_bytes_encode_themselves(bytes.skip(1));
    }
}

/// Whether a byte is a letter, a digit or one of `-`, `.`, `_`, `~`: the
/// bytes that URLs leave unescaped everywhere.
pub open spec fn is_unreserved(byte: u8) -> bool {
    ||| 0x30 <= byte <= 0x39
    ||| 0x41 <= byte <= 0x5A
    ||| 0x61 <= byte <= 0x7A
    ||| byte == 0x2D
    ||| byte == 0x2E
    ||| byte == 0x5F
    ||| byte == 0x7E
}

/// The hexadecimal digit, in upper case, for a number below sixteen.
pub open spec fn hex_digit(value: int) -> u8
    recommends
        0 <= value < 16,
{
    if value < 10 {
        (0x30 + value) as u8
    } else {
        (0x41 + value - 10) as u8
    }
}

/// The usual encoding of bytes: unreserved bytes as they are, every other
/// byte as `%` and its two hexadecimal digits.
pub open spec fn usual_encoding(raw: Seq<u8>) -> Seq<u8>
    decreases raw.len(),
{
    if raw.len() == 0 {
        Seq::empty()
    } else if is_unreserved(raw[0]) {
        seq![raw[0]] + usual_encoding(raw.skip(1))
    } else {
        seq![PERCENT, hex_digit(raw[0] as int / 16), hex_digit(raw[0] as int % 16)] + usual_encoding(
            raw.skip(1),
        )
    }
}

/// The text whose characters are the given ASCII bytes.
pub open spec fn ascii_text(bytes: Seq<u8>) -> Seq<char> {
    Seq::new(bytes.len(), |i: int| bytes[i] as char)
}

/// The usual encoding is a percent-encoding, and it is ASCII throughout.
pub proof fn usual_encoding_is_an_encoding(raw: Seq<u8>)
    ensures
        percent_encodes(usual_encoding(raw), raw),
        forall|i: int| 0 <= i < usual_encoding(raw).len() ==> usual_encoding(raw)[i] < 0x80,
    decreases raw.len(),
{
    if raw.len() > 0 {
        let encoded = usual_encoding(raw);
        let rest = usual_encoding(raw.skip(1));
        usual_encoding_is_an_encoding(raw.skip(1));
        if is_unreserved(raw[0]) {
            assert(encoded.skip(1) =~= rest);
            assert forall|i: int| 0 <= i < encoded.len() implies encoded[i] < 0x80 by {
                if i > 0 {
                    assert(encoded[i] == rest[i - 1]);
                }
            }
        } else {
            assert(encoded.skip(3) =~= rest);
            assert forall|i: int| 0 <= i < encoded.len() implies encoded[i] < 0x80 by {
                if i > 2 {
                    assert(encoded[i] == rest[i - 3]);
                }
            }
        }
    }
}

/// Text in the usual encoding decodes to the text it was made from.
pub proof fn decoding_undoes_the_usual_encoding(original: Seq<char>)
    ensures
        decoded_component(ascii_text(usual_encoding(encode_utf8(original)))) == original,
{
    let bytes = usual_encoding(encode_utf8(original));
    let text = ascii_text(bytes);
    usual_encoding_is_an_encoding(encode_utf8(original));
    assert(is_ascii_chars(text));
    is_ascii_chars_encode_utf8(text);
    assert(encode_utf8(text) =~= bytes);
    decoding_undoes_encoding(text, original);
}

/// Decodes percent-encoded text.
///
/// Wraps `urlencoding::decode`, which turns each `%` with two hexadecimal
/// digits behind it into one byte, copies every other byte, and then asks
/// whether the bytes are UTF-8: they are returned as text if so, and the
/// call fails if not.
#[verifier::external_body]
fn percent_decode(text: &str) -> (decoded: Option<String>)
    ensures
        match decoded {
            Some(string) => percent_decoded(text@) == Some(string@),
            None => percent_decoded(text@) is None,
        },
{
    match urlencoding::decode(text) {
        Ok(decoded) => Some(decoded.into_owned()),
        Err(_) => None,
    }
}

/// Whether a hexadecimal digit stands at `index` in `bytes`.
fn hex_digit_at(bytes: &[u8], index: usize) -> (found: bool)
    ensures
        found == (index < bytes@.len() && is_hex_digit(bytes@[index as int])),
{
    if index >= bytes.len() {
        return false;
    }
    let byte = bytes[index];
    (0x30 <= byte && byte <= 0x39) || (0x41 <= byte && byte <= 0x46) || (0x61 <= byte && byte
        <= 0x66)
}

/// Whether every `%` in `text` is followed by two hexadecimal digits.
pub fn has_complete_escapes(text: &str) -> (complete: bool)
    ensures
        complete == escapes_are_complete(encode_utf8(text@)),
{
    let bytes = text.as_bytes();
    let mut at: usize = 0;
    assert(bytes@.skip(0) =~= bytes@);
    while at < bytes.len()
        invariant
            at <= bytes@.len(),
            bytes@ == encode_utf8(text@),
            escapes_are_complete(bytes@) == escapes_are_complete(bytes@.skip(at as int)),
        decreases bytes@.len() - at,
    {
        let ghost rest = bytes@.skip(at as int);
        assert(rest[0] == bytes@[at as int]);
        if bytes[at] != PERCENT {
            assert(rest.skip(1) =~= bytes@.skip(at + 1));
            at += 1;
        } else if at < bytes.len() - 1 && hex_digit_at(bytes, at + 1) && hex_digit_at(
            bytes,
            at + 2,
        ) {
            assert(rest[1] == bytes@[at + 1] && rest[2] == bytes@[at + 2]);
            assert(rest.skip(3) =~= bytes@.skip(at + 3));
            at += 3;
        } else {
            assert(!starts_with_escape(rest)) by {
                if rest.len() >= 3 {
                    assert(rest[1] == bytes@[at + 1] && rest[2] == bytes@[at + 2]);
                }
            }
            return false;
        }
    }
    assert(bytes@.skip(at as int) =~= Seq::<u8>::empty());
    true
}

/// Decodes one key or value of a query string. Malformed text (a `%` that
/// two hexadecimal digits do not follow, or bytes that are not UTF-8 once
/// the escapes are resolved) gives the empty string.
pub fn decode_component(text: &str) -> (decoded: String)
    ensures
        decoded@ == decoded_component(text@),
{
    if !has_complete_escapes(text) {
        return String::new();
    }
    match percent_decode(text) {
        Some(decoded) => decoded,
        None => String::new(),
    }
}

} // verus!
