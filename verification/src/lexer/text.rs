//! Decoding of literal bodies: bytes to text, to a character, to an integer.

use vstd::prelude::*;
use vstd::utf8::*;
use vstd::string::*;
use crate::lexer::error::{CharParseError, InvalidCharByteSequenceError, ParseError};

verus! {

/// `std::str::from_utf8` accepts exactly the byte sequences that are UTF-8,
/// and the text it returns is the decoding of those bytes.
pub assume_specification<'a>[ core::str::from_utf8 ](v: &'a [u8]) -> (r: Result<
    &'a str,
    core::str::Utf8Error,
>)
    ensures
        r is Ok <==> valid_utf8(v@),
        r matches Ok(t) ==> t@ == decode_utf8(v@),
;

/// The characters that stand for the bytes of an ASCII text, one for one.
pub open spec fn ascii_text(bytes: Seq<u8>) -> Seq<char> {
    Seq::new(bytes.len(), |i: int| bytes[i] as char)
}

/// Every byte of `bytes` is below 128.
pub open spec fn is_ascii_bytes(bytes: Seq<u8>) -> bool {
    forall|i: int| 0 <= i < bytes.len() ==> #[trigger] bytes[i] < 128
}

/// ASCII bytes are UTF-8, and decode to one character for each byte.
pub proof fn lemma_ascii_decodes(bytes: Seq<u8>)
    requires
        is_ascii_bytes(bytes),
    ensures
        valid_utf8(bytes),
        decode_utf8(bytes) == ascii_text(bytes),
{
    let chars = ascii_text(bytes);
    assert(is_ascii_chars(chars));
    is_ascii_chars_encode_utf8(chars);
    assert(encode_utf8(chars) =~= bytes);
    encode_utf8_valid_utf8(chars);
    encode_utf8_decode_utf8(chars);
}

/// The text that `s` encodes.
///
/// Fails with `StringParseError` exactly when `s` is not UTF-8.
pub fn convert_slice_to_utf8(s: &[u8]) -> (r: Result<String, ParseError>)
    ensures
        valid_utf8(s@) ==> (r matches Ok(text) && text@ == decode_utf8(s@)),
        !valid_utf8(s@) ==> r matches Err(ParseError::StringParseError(_)),
{
    match core::str::from_utf8(s) {
        Ok(text) => Ok(text.to_owned()),
        Err(e) => Err(ParseError::from(e)),
    }
}

/// The byte of `s` at index `i`, or zero where `s` is shorter.
pub open spec fn byte_or_zero(s: Seq<u8>, i: int) -> int {
    if 0 <= i < s.len() {
        s[i] as int
    } else {
        0
    }
}

/// The first four bytes of `s`, padded with zeros at the end, read as one
/// big-endian number.
pub open spec fn packed_bytes(s: Seq<u8>) -> int {
    byte_or_zero(s, 0) * 0x100_0000 + byte_or_zero(s, 1) * 0x1_0000 + byte_or_zero(s, 2) * 0x100
        + byte_or_zero(s, 3)
}

/// The character that a body of one to four bytes encodes, if it encodes
/// exactly one.
pub open spec fn char_of(s: Seq<u8>) -> Option<char> {
    if 1 <= s.len() <= 4 && valid_utf8(s) && decode_utf8(s).len() == 1 {
        Some(decode_utf8(s)[0])
    } else {
        None
    }
}

fn packed(s: &[u8]) -> (n: u32)
    requires
        s@.len() <= 4,
    ensures
        n == packed_bytes(s@),
{
    let b0: u32 = if s.len() > 0 { s[0] as u32 } else { 0 };
    let b1: u32 = if s.len() > 1 { s[1] as u32 } else { 0 };
    let b2: u32 = if s.len() > 2 { s[2] as u32 } else { 0 };
    let b3: u32 = if s.len() > 3 { s[3] as u32 } else { 0 };
    b0 * 0x100_0000 + b1 * 0x1_0000 + b2 * 0x100 + b3
}

/// The single character that `s` encodes.
///
/// A body that is empty or longer than four bytes fails with
/// `InvalidCharByteSequence` and its length; bytes that are not UTF-8 fail
/// with `StringParseError`; UTF-8 that holds more than one character fails
/// with `CharParseError`, which carries the bytes.
pub fn convert_slice_to_char(s: &[u8]) -> (r: Result<char, ParseError>)
    ensures
        char_of(s@) matches Some(c) ==> r == Ok::<char, ParseError>(c),
        (s@.len() == 0 || s@.len() > 4) ==> (r matches Err(
            ParseError::InvalidCharByteSequence(e),
        ) && e.len_was() == s@.len()),
        (1 <= s@.len() <= 4 && !valid_utf8(s@)) ==> r matches Err(ParseError::StringParseError(_)),
        (1 <= s@.len() <= 4 && valid_utf8(s@) && decode_utf8(s@).len() != 1) ==> (r matches Err(
            ParseError::CharParseError(e),
        ) && e.data() == packed_bytes(s@)),
{
    if s.len() > 4 || s.len() == 0 {
        return Err(ParseError::from(InvalidCharByteSequenceError::new(s.len())));
    }
    match core::str::from_utf8(s) {
        Err(e) => Err(ParseError::from(e)),
        Ok(text) => {
            if text.unicode_len() != 1 {
                Err(ParseError::from(CharParseError::new(packed(s))))
            } else {
                Ok(text.get_char(0))
            }
        },
    }
}

/// The number that the digits `d` write in base ten.
pub open spec fn digits_value(d: Seq<char>) -> nat
    decreases d.len(),
{
    if d.len() == 0 {
        0
    } else {
        (10 * digits_value(d.drop_last()) + (d.last() as nat - '0' as nat)) as nat
    }
}

/// Every character of `d` is an ASCII digit.
pub open spec fn all_digits(d: Seq<char>) -> bool {
    forall|i: int| 0 <= i < d.len() ==> '0' <= #[trigger] d[i] <= '9'
}

/// The integer that `t` writes: an optional `+` or `-`, then one or more
/// digits. `None` where `t` has another shape.
pub open spec fn integer_of_text(t: Seq<char>) -> Option<int> {
    let signed = t.len() > 0 && (t[0] == '-' || t[0] == '+');
    let digits = if signed {
        t.skip(1)
    } else {
        t
    };
    if digits.len() > 0 && all_digits(digits) {
        if signed && t[0] == '-' {
            Some(-(digits_value(digits) as int))
        } else {
            Some(digits_value(digits) as int)
        }
    } else {
        None
    }
}

/// The 64-bit integer that `t` writes, where it writes one that fits.
pub open spec fn i64_of_text(t: Seq<char>) -> Option<i64> {
    match integer_of_text(t) {
        Some(v) => if i64::MIN <= v <= i64::MAX {
            Some(v as i64)
        } else {
            None
        },
        None => None,
    }
}

/// `str::parse::<i64>`: succeeds exactly on an optional sign followed by one
/// or more ASCII digits whose value fits 64 bits, and returns that value.
#[verifier::external_body]
fn parse_i64(text: &str) -> (r: Result<i64, std::num::ParseIntError>)
    ensures
        r is Ok <==> i64_of_text(text@) is Some,
        r matches Ok(n) ==> i64_of_text(text@) == Some(n),
{
    text.parse::<i64>()
}

/// The integer that the bytes `s` write in base ten.
///
/// Fails with `StringParseError` when `s` is not UTF-8, and with
/// `IntParseError` when the text is no integer or does not fit 64 bits.
pub fn convert_slice_to_number(s: &[u8]) -> (r: Result<i64, ParseError>)
    ensures
        !valid_utf8(s@) ==> r matches Err(ParseError::StringParseError(_)),
        valid_utf8(s@) ==> match i64_of_text(decode_utf8(s@)) {
            Some(n) => r == Ok::<i64, ParseError>(n),
            None => r matches Err(ParseError::IntParseError(_)),
        },
{
    match core::str::from_utf8(s) {
        Err(e) => Err(ParseError::from(e)),
        Ok(text) => match parse_i64(text) {
            Ok(n) => Ok(n),
            Err(e) => Err(ParseError::from(e)),
        },
    }
}

} // verus!
