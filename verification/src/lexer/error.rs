//! Failures of literal decoding.

use vstd::prelude::*;
use vstd::string::*;

verus! {

/// `std::num::ParseIntError`, carried opaquely.
#[verifier::external_type_specification]
#[verifier::external_body]
pub struct ExParseIntError(std::num::ParseIntError);

/// `std::num::ParseFloatError`, carried opaquely.
#[verifier::external_type_specification]
#[verifier::external_body]
pub struct ExParseFloatError(std::num::ParseFloatError);

/// `std::str::Utf8Error`, carried opaquely.
#[verifier::external_type_specification]
#[verifier::external_body]
pub struct ExUtf8Error(std::str::Utf8Error);

/// Why a literal could not be decoded.
#[derive(Debug)]
pub enum ParseError {
    /// The digits do not fit a 64-bit signed integer, or are no integer.
    IntParseError(std::num::ParseIntError),
    /// The text is no decimal number.
    FloatParseError(std::num::ParseFloatError),
    /// The bytes are not UTF-8.
    StringParseError(std::str::Utf8Error),
    /// The bytes are UTF-8 but not exactly one scalar value.
    CharParseError(CharParseError),
    /// The body of a character literal is empty or longer than four bytes.
    InvalidCharByteSequence(InvalidCharByteSequenceError),
}

/// The character that writes the digit `d` of a number in base ten or
/// sixteen, in lower case.
pub open spec fn digit_char(d: nat) -> char {
    if d < 10 {
        ('0' as nat + d) as char
    } else {
        ('a' as nat + d - 10) as char
    }
}

/// `n` written in base ten, without leading zeros.
pub open spec fn decimal_text(n: nat) -> Seq<char>
    decreases n,
{
    if n < 10 {
        seq![digit_char(n)]
    } else {
        decimal_text(n / 10).push(digit_char(n % 10))
    }
}

/// `n` written in base sixteen, in lower case, without leading zeros.
pub open spec fn hex_text(n: nat) -> Seq<char>
    decreases n,
{
    if n < 16 {
        seq![digit_char(n)]
    } else {
        hex_text(n / 16).push(digit_char(n % 16))
    }
}

/// `t` with zeros before it, as many as make it `width` characters long.
pub open spec fn zero_padded(t: Seq<char>, width: nat) -> Seq<char> {
    if t.len() >= width {
        t
    } else {
        Seq::new((width - t.len()) as nat, |i: int| '0') + t
    }
}

/// `usize::to_string`: the number in base ten, without leading zeros.
#[verifier::external_body]
fn decimal_string(n: usize) -> (r: String)
    ensures
        r@ == decimal_text(n as nat),
{
    n.to_string()
}

/// `format!` with `{:#06x}`: `0x`, then the number in lower-case base
/// sixteen with zeros before it up to four digits.
#[verifier::external_body]
fn hex_string(n: u32) -> (r: String)
    ensures
        r@ == "0x"@ + zero_padded(hex_text(n as nat), 4),
{
    format!("{:#06x}", n)
}

/// A character body of one to four bytes that is not one scalar value.
#[derive(Debug)]
pub struct CharParseError {
    data: u32,
}

impl CharParseError {
    pub closed spec fn data(&self) -> u32 {
        self.data
    }

    pub fn new(c: u32) -> (e: CharParseError)
        ensures
            e.data() == c,
    {
        CharParseError { data: c }
    }

    /// What `message` says.
    pub open spec fn spec_message(&self) -> Seq<char> {
        "Char sequence "@ + ("0x"@ + zero_padded(hex_text(self.data() as nat), 4))
            + " is not a valid UTF Char"@
    }

    /// The error in words: the bytes in base sixteen, and that they are no
    /// character.
    pub fn message(&self) -> (m: String)
        ensures
            m@ == self.spec_message(),
    {
        let mut m = String::from_str("Char sequence ");
        m.append(hex_string(self.data).as_str());
        m.append(" is not a valid UTF Char");
        m
    }
}

/// A character body whose length is outside one to four bytes.
#[derive(Debug)]
pub struct InvalidCharByteSequenceError {
    len_was: usize,
}

impl InvalidCharByteSequenceError {
    pub closed spec fn len_was(&self) -> usize {
        self.len_was
    }

    pub fn new(was: usize) -> (e: InvalidCharByteSequenceError)
        ensures
            e.len_was() == was,
    {
        InvalidCharByteSequenceError { len_was: was }
    }

    /// What `message` says.
    pub open spec fn spec_message(&self) -> Seq<char> {
        "Char sequence should be between 1 and 4 bytes long, but was "@ + decimal_text(
            self.len_was() as nat,
        )
    }

    /// The error in words: the length that was found.
    pub fn message(&self) -> (m: String)
        ensures
            m@ == self.spec_message(),
    {
        let mut m = String::from_str("Char sequence should be between 1 and 4 bytes long, but was ");
        m.append(decimal_string(self.len_was).as_str());
        m
    }
}

impl ParseError {
    /// The error in words: the words of what it wraps, with nothing added.
    /// For a failure that the standard library found, these are what the
    /// standard library displays for it.
    pub fn message(&self) -> (m: String)
        ensures
            self matches ParseError::IntParseError(e) ==> to_string_from_display_ensures::<
                std::num::ParseIntError,
            >(&e, m),
            self matches ParseError::FloatParseError(e) ==> to_string_from_display_ensures::<
                std::num::ParseFloatError,
            >(&e, m),
            self matches ParseError::StringParseError(e) ==> to_string_from_display_ensures::<
                std::str::Utf8Error,
            >(&e, m),
            self matches ParseError::CharParseError(e) ==> m@ == e.spec_message(),
            self matches ParseError::InvalidCharByteSequence(e) ==> m@ == e.spec_message(),
    {
        match self {
            ParseError::IntParseError(err) => err.to_string(),
            ParseError::FloatParseError(err) => err.to_string(),
            ParseError::StringParseError(err) => err.to_string(),
            ParseError::CharParseError(err) => err.message(),
            ParseError::InvalidCharByteSequence(err) => err.message(),
        }
    }
}

impl From<std::num::ParseIntError> for ParseError {
    fn from(err: std::num::ParseIntError) -> (e: ParseError) {
        ParseError::IntParseError(err)
    }
}

impl vstd::std_specs::convert::FromSpecImpl<std::num::ParseIntError> for ParseError {
    open spec fn obeys_from_spec() -> bool {
        true
    }

    open spec fn from_spec(err: std::num::ParseIntError) -> ParseError {
        ParseError::IntParseError(err)
    }
}

impl From<std::num::ParseFloatError> for ParseError {
    fn from(err: std::num::ParseFloatError) -> (e: ParseError) {
        ParseError::FloatParseError(err)
    }
}

impl vstd::std_specs::convert::FromSpecImpl<std::num::ParseFloatError> for ParseError {
    open spec fn obeys_from_spec() -> bool {
        true
    }

    open spec fn from_spec(err: std::num::ParseFloatError) -> ParseError {
        ParseError::FloatParseError(err)
    }
}

impl From<std::str::Utf8Error> for ParseError {
    fn from(err: std::str::Utf8Error) -> (e: ParseError) {
        ParseError::StringParseError(err)
    }
}

impl vstd::std_specs::convert::FromSpecImpl<std::str::Utf8Error> for ParseError {
    open spec fn obeys_from_spec() -> bool {
        true
    }

    open spec fn from_spec(err: std::str::Utf8Error) -> ParseError {
        ParseError::StringParseError(err)
    }
}

impl From<InvalidCharByteSequenceError> for ParseError {
    fn from(err: InvalidCharByteSequenceError) -> (e: ParseError) {
        ParseError::InvalidCharByteSequence(err)
    }
}

impl vstd::std_specs::convert::FromSpecImpl<InvalidCharByteSequenceError> for ParseError {
    open spec fn obeys_from_spec() -> bool {
        true
    }

    open spec fn from_spec(err: InvalidCharByteSequenceError) -> ParseError {
        ParseError::InvalidCharByteSequence(err)
    }
}

impl From<CharParseError> for ParseError {
    fn from(err: CharParseError) -> (e: ParseError) {
        ParseError::CharParseError(err)
    }
}

impl vstd::std_specs::convert::FromSpecImpl<CharParseError> for ParseError {
    open spec fn obeys_from_spec() -> bool {
        true
    }

    open spec fn from_spec(err: CharParseError) -> ParseError {
        ParseError::CharParseError(err)
    }
}

} // verus!
