//! The scanner: from bytes to tokens.

use vstd::prelude::*;
use vstd::slice::*;
use vstd::utf8::*;
use crate::lexer::text::{
    ascii_text, char_of, convert_slice_to_char, convert_slice_to_number, convert_slice_to_utf8,
    i64_of_text, is_ascii_bytes, lemma_ascii_decodes,
};
use crate::lexer::tokens::{
    is_decimal_text, is_decimal_text_at, token_views, Decimal, Token, TokenView,
};

verus! {

/// A set of bytes that a run is made of.
#[derive(Clone, Copy, PartialEq, Eq, Debug)]
pub enum ByteClass {
    /// Space, tab, carriage return, line feed.
    Space,
    /// `0` to `9`.
    Digit,
    /// `A` to `Z` and `a` to `z`.
    Alpha,
    /// A letter or a digit.
    Alphanumeric,
    /// The underscore.
    Underscore,
    /// A letter, a digit or the underscore.
    Word,
}

/// `b` is white space: a space, a tab, a carriage return or a line feed.
pub open spec fn is_space(b: u8) -> bool {
    b == ' ' as u8 || b == '\t' as u8 || b == '\r' as u8 || b == '\n' as u8
}

/// `b` is an ASCII digit.
pub open spec fn is_digit(b: u8) -> bool {
    ('0' as u8) <= b <= ('9' as u8)
}

/// `b` is an ASCII letter.
pub open spec fn is_alpha(b: u8) -> bool {
    (('A' as u8) <= b <= ('Z' as u8)) || (('a' as u8) <= b <= ('z' as u8))
}

impl ByteClass {
    /// `b` belongs to the class.
    pub open spec fn has(self, b: u8) -> bool {
        match self {
            ByteClass::Space => is_space(b),
            ByteClass::Digit => is_digit(b),
            ByteClass::Alpha => is_alpha(b),
            ByteClass::Alphanumeric => is_alpha(b) || is_digit(b),
            ByteClass::Underscore => b == '_' as u8,
            ByteClass::Word => is_alpha(b) || is_digit(b) || b == '_' as u8,
        }
    }

    /// Whether `b` belongs to the class.
    pub fn contains(self, b: u8) -> (r: bool)
        ensures
            r == self.has(b),
    {
        let digit = ('0' as u8) <= b && b <= ('9' as u8);
        let alpha = (('A' as u8) <= b && b <= ('Z' as u8)) || (('a' as u8) <= b && b <= ('z' as u8));
        match self {
            ByteClass::Space => b == ' ' as u8 || b == '\t' as u8 || b == '\r' as u8 || b == '\n'
                as u8,
            ByteClass::Digit => digit,
            ByteClass::Alpha => alpha,
            ByteClass::Alphanumeric => alpha || digit,
            ByteClass::Underscore => b == '_' as u8,
            ByteClass::Word => alpha || digit || b == '_' as u8,
        }
    }
}

/// Where the longest run of bytes of `class` that starts at `from` ends.
pub open spec fn run_end(s: Seq<u8>, from: int, class: ByteClass) -> int
    decreases s.len() - from,
{
    if 0 <= from < s.len() && class.has(s[from]) {
        run_end(s, from + 1, class)
    } else {
        from
    }
}

/// A run ends inside the input, holds only bytes of its class, and is
/// followed by the end of the input or by a byte outside the class.
pub proof fn lemma_run_end(s: Seq<u8>, from: int, class: ByteClass)
    requires
        0 <= from <= s.len(),
    ensures
        from <= run_end(s, from, class) <= s.len(),
        forall|k: int| from <= k < run_end(s, from, class) ==> class.has(#[trigger] s[k]),
        run_end(s, from, class) < s.len() ==> !class.has(s[run_end(s, from, class)]),
    decreases s.len() - from,
{
    if from < s.len() && class.has(s[from]) {
        lemma_run_end(s, from + 1, class);
    }
}

/// The end of the longest run of bytes of `class` that starts at `from`.
pub fn scan(input: &[u8], from: usize, class: ByteClass) -> (end: usize)
    requires
        from <= input@.len(),
    ensures
        end == run_end(input@, from as int, class),
        from <= end <= input@.len(),
{
    let mut i: usize = from;
    while i < input.len() && class.contains(input[i])
        invariant
            from <= i <= input@.len(),
            run_end(input@, from as int, class) == run_end(input@, i as int, class),
        decreases input@.len() - i,
    {
        i += 1;
    }
    i
}

/// The input without its first `n` bytes.
pub fn skip(input: &[u8], n: usize) -> (rest: &[u8])
    requires
        n <= input@.len(),
    ensures
        rest@ == input@.skip(n as int),
{
    slice_subrange(input, n, input.len())
}

/// `s` begins with the byte of the ASCII character `a`.
pub open spec fn tag1(s: Seq<u8>, a: char) -> bool {
    s.len() >= 1 && s[0] == a as u8
}

/// `s` begins with the bytes of the ASCII characters `a` and `b`.
pub open spec fn tag2(s: Seq<u8>, a: char, b: char) -> bool {
    s.len() >= 2 && s[0] == a as u8 && s[1] == b as u8
}

/// What a recognizer finds at the start of an input: a value and the number
/// of bytes it covers, or nothing.
pub type Found<V> = Option<(V, nat)>;

/// The result `r` of a recognizer on the input `s` is what `expected` says:
/// the value found, and the input that follows it.
pub open spec fn lexed<T: View>(r: Option<(&[u8], T)>, s: Seq<u8>, expected: Found<T::V>) -> bool {
    match expected {
        Some((value, n)) => {
            &&& r matches Some((rest, v))
            &&& v@ == value
            &&& n <= s.len()
            &&& rest@ == s.skip(n as int)
        },
        None => r is None,
    }
}

/// Punctuation: one of `; : , ( ) { } [ ]`.
pub open spec fn spec_punctuation(s: Seq<u8>) -> Found<TokenView> {
    if tag1(s, ';') {
        Some((TokenView::Semicolon, 1))
    } else if tag1(s, ':') {
        Some((TokenView::Colon, 1))
    } else if tag1(s, ',') {
        Some((TokenView::Comma, 1))
    } else if tag1(s, '(') {
        Some((TokenView::LParenthesis, 1))
    } else if tag1(s, ')') {
        Some((TokenView::RParenthesis, 1))
    } else if tag1(s, '{') {
        Some((TokenView::LBrace, 1))
    } else if tag1(s, '}') {
        Some((TokenView::RBrace, 1))
    } else if tag1(s, '[') {
        Some((TokenView::LBracket, 1))
    } else if tag1(s, ']') {
        Some((TokenView::RBracket, 1))
    } else {
        None
    }
}

/// The logic operations `&&` and `||`.
pub open spec fn spec_logic_operation(s: Seq<u8>) -> Found<TokenView> {
    if tag2(s, '&', '&') {
        Some((TokenView::LogicAnd, 2))
    } else if tag2(s, '|', '|') {
        Some((TokenView::LogicOr, 2))
    } else {
        None
    }
}

/// The bitwise operations `&`, `|`, `^`, `<<` and `>>`.
pub open spec fn spec_boolean_operation(s: Seq<u8>) -> Found<TokenView> {
    if tag1(s, '&') {
        Some((TokenView::BooleanAnd, 1))
    } else if tag1(s, '|') {
        Some((TokenView::BooleanOr, 1))
    } else if tag1(s, '^') {
        Some((TokenView::BooleanXor, 1))
    } else if tag2(s, '<', '<') {
        Some((TokenView::LShift, 2))
    } else if tag2(s, '>', '>') {
        Some((TokenView::RShift, 2))
    } else {
        None
    }
}

/// The arithmetic and comparison operators, each two-character operator
/// before the one-character operator that begins it.
pub open spec fn spec_operator(s: Seq<u8>) -> Found<TokenView> {
    if tag2(s, '=', '=') {
        Some((TokenView::Equal, 2))
    } else if tag2(s, '!', '=') {
        Some((TokenView::NotEqual, 2))
    } else if tag2(s, '*', '*') {
        Some((TokenView::Exp, 2))
    } else if tag1(s, '+') {
        Some((TokenView::Plus, 1))
    } else if tag1(s, '%') {
        Some((TokenView::Modulo, 1))
    } else if tag2(s, '-', '>') {
        Some((TokenView::FunctionReturn, 2))
    } else if tag1(s, '-') {
        Some((TokenView::Minus, 1))
    } else if tag1(s, '/') {
        Some((TokenView::Div, 1))
    } else if tag1(s, '*') {
        Some((TokenView::Mult, 1))
    } else if tag1(s, '!') {
        Some((TokenView::Not, 1))
    } else if tag2(s, '>', '=') {
        Some((TokenView::GreaterThanEqual, 2))
    } else if tag2(s, '<', '=') {
        Some((TokenView::LessThanEqual, 2))
    } else if tag1(s, '>') {
        Some((TokenView::GreaterThan, 1))
    } else if tag1(s, '<') {
        Some((TokenView::LessThan, 1))
    } else if tag1(s, '=') {
        Some((TokenView::Assign, 1))
    } else {
        None
    }
}

/// Whether the byte at index `i` of the input is `c`.
fn at(input: &[u8], i: usize, c: u8) -> (r: bool)
    ensures
        r == (i < input@.len() && input@[i as int] == c),
{
    i < input.len() && input[i] == c
}

/// The token `t`, which covers the first `n` bytes of the input.
fn found(input: &[u8], n: usize, t: Token) -> (r: Option<(&[u8], Token)>)
    requires
        n <= input@.len(),
    ensures
        lexed(r, input@, Some((t@, n as nat))),
{
    Some((skip(input, n), t))
}

/// Recognizes one punctuation mark at the start of the input.
pub fn lex_punctuation(input: &[u8]) -> (r: Option<(&[u8], Token)>)
    ensures
        lexed(r, input@, spec_punctuation(input@)),
{
    if at(input, 0, ';' as u8) {
        found(input, 1, Token::Semicolon)
    } else if at(input, 0, ':' as u8) {
        found(input, 1, Token::Colon)
    } else if at(input, 0, ',' as u8) {
        found(input, 1, Token::Comma)
    } else if at(input, 0, '(' as u8) {
        found(input, 1, Token::LParenthesis)
    } else if at(input, 0, ')' as u8) {
        found(input, 1, Token::RParenthesis)
    } else if at(input, 0, '{' as u8) {
        found(input, 1, Token::LBrace)
    } else if at(input, 0, '}' as u8) {
        found(input, 1, Token::RBrace)
    } else if at(input, 0, '[' as u8) {
        found(input, 1, Token::LBracket)
    } else if at(input, 0, ']' as u8) {
        found(input, 1, Token::RBracket)
    } else {
        None
    }
}

/// Recognizes `&&` or `||` at the start of the input.
pub fn lex_logic_operation(input: &[u8]) -> (r: Option<(&[u8], Token)>)
    ensures
        lexed(r, input@, spec_logic_operation(input@)),
{
    if at(input, 0, '&' as u8) && at(input, 1, '&' as u8) {
        found(input, 2, Token::LogicAnd)
    } else if at(input, 0, '|' as u8) && at(input, 1, '|' as u8) {
        found(input, 2, Token::LogicOr)
    } else {
        None
    }
}

/// Recognizes one bitwise operation at the start of the input.
pub fn lex_boolean_operation(input: &[u8]) -> (r: Option<(&[u8], Token)>)
    ensures
        lexed(r, input@, spec_boolean_operation(input@)),
{
    if at(input, 0, '&' as u8) {
        found(input, 1, Token::BooleanAnd)
    } else if at(input, 0, '|' as u8) {
        found(input, 1, Token::BooleanOr)
    } else if at(input, 0, '^' as u8) {
        found(input, 1, Token::BooleanXor)
    } else if at(input, 0, '<' as u8) && at(input, 1, '<' as u8) {
        found(input, 2, Token::LShift)
    } else if at(input, 0, '>' as u8) && at(input, 1, '>' as u8) {
        found(input, 2, Token::RShift)
    } else {
        None
    }
}

/// Recognizes one arithmetic or comparison operator at the start of the
/// input.
pub fn lex_operator(input: &[u8]) -> (r: Option<(&[u8], Token)>)
    ensures
        lexed(r, input@, spec_operator(input@)),
{
    if at(input, 0, '=' as u8) && at(input, 1, '=' as u8) {
        found(input, 2, Token::Equal)
    } else if at(input, 0, '!' as u8) && at(input, 1, '=' as u8) {
        found(input, 2, Token::NotEqual)
    } else if at(input, 0, '*' as u8) && at(input, 1, '*' as u8) {
        found(input, 2, Token::Exp)
    } else if at(input, 0, '+' as u8) {
        found(input, 1, Token::Plus)
    } else if at(input, 0, '%' as u8) {
        found(input, 1, Token::Modulo)
    } else if at(input, 0, '-' as u8) && at(input, 1, '>' as u8) {
        found(input, 2, Token::FunctionReturn)
    } else if at(input, 0, '-' as u8) {
        found(input, 1, Token::Minus)
    } else if at(input, 0, '/' as u8) {
        found(input, 1, Token::Div)
    } else if at(input, 0, '*' as u8) {
        found(input, 1, Token::Mult)
    } else if at(input, 0, '!' as u8) {
        found(input, 1, Token::Not)
    } else if at(input, 0, '>' as u8) && at(input, 1, '=' as u8) {
        found(input, 2, Token::GreaterThanEqual)
    } else if at(input, 0, '<' as u8) && at(input, 1, '=' as u8) {
        found(input, 2, Token::LessThanEqual)
    } else if at(input, 0, '>' as u8) {
        found(input, 1, Token::GreaterThan)
    } else if at(input, 0, '<' as u8) {
        found(input, 1, Token::LessThan)
    } else if at(input, 0, '=' as u8) {
        found(input, 1, Token::Assign)
    } else {
        None
    }
}

/// A backslash makes a pair with `b`: a double quote, a single quote or a
/// backslash.
pub open spec fn is_escapable(b: u8) -> bool {
    b == '"' as u8 || b == '\'' as u8 || b == '\\' as u8
}

/// A byte may stand for itself in the body of a literal: it is no control
/// byte, so it is printable ASCII or part of a longer UTF-8 character.
/// Whether it is the closing quote or a backslash is asked before.
pub open spec fn is_printable(b: u8) -> bool {
    b >= 0x20 && b != 0x7f
}

/// The body of a literal that starts at index `from` of `s` and ends before
/// the first `quote` that no backslash precedes: the bytes it stands for, a
/// pair of backslash and escapable byte counting as the second byte alone,
/// and the index of that `quote`. `None` where the input ends before a
/// `quote`, a backslash is followed by another byte, or a control byte
/// stands in the body.
pub open spec fn spec_body(s: Seq<u8>, quote: u8, from: int) -> Option<(Seq<u8>, int)>
    decreases s.len() - from,
{
    if from < 0 || from >= s.len() {
        None
    } else if s[from] == quote {
        Some((Seq::empty(), from))
    } else if s[from] == '\\' as u8 {
        if from + 1 < s.len() && is_escapable(s[from + 1]) {
            match spec_body(s, quote, from + 2) {
                Some((bytes, end)) => Some((seq![s[from + 1]] + bytes, end)),
                None => None,
            }
        } else {
            None
        }
    } else if is_printable(s[from]) {
        match spec_body(s, quote, from + 1) {
            Some((bytes, end)) => Some((seq![s[from]] + bytes, end)),
            None => None,
        }
    } else {
        None
    }
}

/// The body of a literal at the start of `s`, and its length in the input.
pub open spec fn spec_literal_body(s: Seq<u8>, quote: u8) -> Found<Seq<u8>> {
    match spec_body(s, quote, 0) {
        Some((bytes, end)) => Some((bytes, end as nat)),
        None => None,
    }
}

/// A body ends inside the input, at a `quote`.
pub proof fn lemma_body_end(s: Seq<u8>, quote: u8, from: int)
    requires
        0 <= from,
    ensures
        spec_body(s, quote, from) matches Some((_, end)) ==> from <= end < s.len() && s[end]
            == quote,
    decreases s.len() - from,
{
    if from < s.len() && s[from] != quote {
        if s[from] == '\\' as u8 {
            if from + 1 < s.len() && is_escapable(s[from + 1]) {
                lemma_body_end(s, quote, from + 2);
            }
        } else if is_printable(s[from]) {
            lemma_body_end(s, quote, from + 1);
        }
    }
}

/// `bytes` as the body of a literal writes them: a backslash before each
/// `quote` and before each backslash.
pub open spec fn escaped(bytes: Seq<u8>, quote: u8) -> Seq<u8>
    decreases bytes.len(),
{
    if bytes.len() == 0 {
        Seq::empty()
    } else if bytes[0] == quote || bytes[0] == '\\' as u8 {
        seq!['\\' as u8, bytes[0]] + escaped(bytes.skip(1), quote)
    } else {
        seq![bytes[0]] + escaped(bytes.skip(1), quote)
    }
}

/// The body that follows `before` in an input stands for `bytes`, where it
/// is `bytes` escaped and a `quote` comes next.
proof fn lemma_escaped_body(before: Seq<u8>, bytes: Seq<u8>, quote: u8, rest: Seq<u8>)
    requires
        quote == '"' as u8 || quote == '\'' as u8,
        forall|i: int| 0 <= i < bytes.len() ==> is_printable(#[trigger] bytes[i]),
    ensures
        spec_body(before + escaped(bytes, quote) + seq![quote] + rest, quote, before.len() as int)
            == Some((bytes, (before.len() + escaped(bytes, quote).len()) as int)),
    decreases bytes.len(),
{
    let s = before + escaped(bytes, quote) + seq![quote] + rest;
    let from = before.len() as int;
    if bytes.len() == 0 {
        assert(s[from] == quote);
        assert(bytes =~= Seq::<u8>::empty());
    } else {
        let b = bytes[0];
        let tail = bytes.skip(1);
        assert(forall|i: int| 0 <= i < tail.len() ==> is_printable(#[trigger] tail[i])) by {
            assert forall|i: int| 0 <= i < tail.len() implies is_printable(#[trigger] tail[i]) by {
                assert(tail[i] == bytes[i + 1]);
            }
        }
        if b == quote || b == '\\' as u8 {
            let head = before + seq!['\\' as u8, b];
            assert(s =~= head + escaped(tail, quote) + seq![quote] + rest);
            assert(s[from] == '\\' as u8);
            assert(s[from + 1] == b);
            lemma_escaped_body(head, tail, quote, rest);
        } else {
            let head = before + seq![b];
            assert(s =~= head + escaped(tail, quote) + seq![quote] + rest);
            assert(s[from] == b);
            lemma_escaped_body(head, tail, quote, rest);
        }
        assert(seq![b] + tail =~= bytes);
    }
}

/// Escaping is undone by reading: the body of a literal that writes `bytes`
/// escaped, before a closing `quote`, stands for `bytes`, whatever follows.
/// This holds of bytes that hold no control byte.
pub proof fn lemma_escape_round_trip(bytes: Seq<u8>, quote: u8, rest: Seq<u8>)
    requires
        quote == '"' as u8 || quote == '\'' as u8,
        forall|i: int| 0 <= i < bytes.len() ==> is_printable(#[trigger] bytes[i]),
    ensures
        spec_literal_body(escaped(bytes, quote) + seq![quote] + rest, quote) == Some(
            (bytes, escaped(bytes, quote).len()),
        ),
{
    lemma_escaped_body(Seq::empty(), bytes, quote, rest);
    assert(Seq::<u8>::empty() + escaped(bytes, quote) + seq![quote] + rest =~= escaped(bytes, quote)
        + seq![quote] + rest);
}

/// Reads the body of a literal up to its closing `quote`: returns the input
/// from that `quote` on, and the bytes that the body stands for.
pub fn literal_body(input: &[u8], quote: u8) -> (r: Option<(&[u8], Vec<u8>)>)
    ensures
        lexed(r, input@, spec_literal_body(input@, quote)),
{
    let mut bytes: Vec<u8> = Vec::new();
    let mut i: usize = 0;
    loop
        invariant
            i <= input@.len(),
            spec_body(input@, quote, 0) == match spec_body(input@, quote, i as int) {
                Some((tail, end)) => Some((bytes@ + tail, end)),
                None => None,
            },
        decreases input@.len() - i,
    {
        if i >= input.len() {
            return None;
        }
        let b = input[i];
        if b == quote {
            proof {
                assert(bytes@ + Seq::<u8>::empty() =~= bytes@);
            }
            return Some((skip(input, i), bytes));
        }
        let ghost before = bytes@;
        if b == '\\' as u8 {
            if i + 1 >= input.len() {
                return None;
            }
            let c = input[i + 1];
            if !(c == '"' as u8 || c == '\'' as u8 || c == '\\' as u8) {
                return None;
            }
            bytes.push(c);
            proof {
                assert forall|tail: Seq<u8>| (before + seq![c]) + tail == before + (seq![c] + tail) by {
                    assert((before + seq![c]) + tail =~= before + (seq![c] + tail));
                }
            }
            i += 2;
        } else {
            if b < 0x20 || b == 0x7f {
                return None;
            }
            bytes.push(b);
            proof {
                assert forall|tail: Seq<u8>| (before + seq![b]) + tail == before + (seq![b] + tail) by {
                    assert((before + seq![b]) + tail =~= before + (seq![b] + tail));
                }
            }
            i += 1;
        }
    }
}

/// Reads the body of a string literal: up to the closing double quote.
pub fn string_body(input: &[u8]) -> (r: Option<(&[u8], Vec<u8>)>)
    ensures
        lexed(r, input@, spec_literal_body(input@, '"' as u8)),
{
    literal_body(input, '"' as u8)
}

/// Reads the body of a character literal: up to the closing single quote.
pub fn char_body(input: &[u8]) -> (r: Option<(&[u8], Vec<u8>)>)
    ensures
        lexed(r, input@, spec_literal_body(input@, '\'' as u8)),
{
    literal_body(input, '\'' as u8)
}

/// A string literal at the start of `s`: a double quote, a body that is
/// UTF-8 once its escapes are resolved, a double quote.
pub open spec fn spec_string(s: Seq<u8>) -> Found<Seq<char>> {
    if tag1(s, '"') {
        match spec_literal_body(s.skip(1), '"' as u8) {
            Some((bytes, n)) => if valid_utf8(bytes) {
                Some((decode_utf8(bytes), n + 2))
            } else {
                None
            },
            None => None,
        }
    } else {
        None
    }
}

/// A character literal at the start of `s`: a single quote, a body that is
/// one character once its escapes are resolved, a single quote.
pub open spec fn spec_char(s: Seq<u8>) -> Found<char> {
    if tag1(s, '\'') {
        match spec_literal_body(s.skip(1), '\'' as u8) {
            Some((bytes, n)) => match char_of(bytes) {
                Some(c) => Some((c, n + 2)),
                None => None,
            },
            None => None,
        }
    } else {
        None
    }
}

/// A string literal that writes a text escaped reads as that text: where
/// `bytes` are UTF-8 without a control byte, the input made of a double
/// quote, `bytes` escaped and a double quote begins with a string literal
/// whose text is the text that `bytes` encode.
pub proof fn lemma_string_round_trip(bytes: Seq<u8>, rest: Seq<u8>)
    requires
        valid_utf8(bytes),
        forall|i: int| 0 <= i < bytes.len() ==> is_printable(#[trigger] bytes[i]),
    ensures
        spec_string(seq!['"' as u8] + escaped(bytes, '"' as u8) + seq!['"' as u8] + rest) == Some(
            (decode_utf8(bytes), escaped(bytes, '"' as u8).len() + 2),
        ),
{
    let quote = '"' as u8;
    let s = seq![quote] + escaped(bytes, quote) + seq![quote] + rest;
    lemma_escape_round_trip(bytes, quote, rest);
    assert(s.skip(1) =~= escaped(bytes, quote) + seq![quote] + rest);
}

/// Recognizes a string literal at the start of the input and decodes it.
pub fn input_to_string(input: &[u8]) -> (r: Option<(&[u8], String)>)
    ensures
        lexed(r, input@, spec_string(input@)),
{
    if !at(input, 0, '"' as u8) {
        return None;
    }
    match string_body(skip(input, 1)) {
        None => None,
        Some((rest, bytes)) => {
            proof {
                lemma_body_end(input@.skip(1), '"' as u8, 0);
            }
            match convert_slice_to_utf8(bytes.as_slice()) {
                Err(_) => None,
                Ok(text) => {
                    let after = skip(rest, 1);
                    proof {
                        let found = spec_literal_body(input@.skip(1), '"' as u8);
                        assert(found matches Some((_, n)) && after@ =~= input@.skip(n as int + 2));
                    }
                    Some((after, text))
                },
            }
        },
    }
}

/// The string literal at the start of `s`, as a token.
pub open spec fn spec_lex_string(s: Seq<u8>) -> Found<TokenView> {
    match spec_string(s) {
        Some((text, n)) => Some((TokenView::StringLiteral(text), n)),
        None => None,
    }
}

/// Recognizes a string literal at the start of the input.
pub fn lex_string(input: &[u8]) -> (r: Option<(&[u8], Token)>)
    ensures
        lexed(r, input@, spec_lex_string(input@)),
{
    match input_to_string(input) {
        Some((rest, text)) => Some((rest, Token::StringLiteral(text))),
        None => None,
    }
}

/// Recognizes a character literal at the start of the input and decodes it.
pub fn input_to_char(input: &[u8]) -> (r: Option<(&[u8], char)>)
    ensures
        lexed(r, input@, spec_char(input@)),
{
    if !at(input, 0, '\'' as u8) {
        return None;
    }
    match char_body(skip(input, 1)) {
        None => None,
        Some((rest, bytes)) => {
            proof {
                lemma_body_end(input@.skip(1), '\'' as u8, 0);
            }
            match convert_slice_to_char(bytes.as_slice()) {
                Err(_) => None,
                Ok(c) => {
                    let after = skip(rest, 1);
                    proof {
                        let found = spec_literal_body(input@.skip(1), '\'' as u8);
                        assert(found matches Some((_, n)) && after@ =~= input@.skip(n as int + 2));
                    }
                    Some((after, c))
                },
            }
        },
    }
}

/// The character literal at the start of `s`, as a token.
pub open spec fn spec_lex_char(s: Seq<u8>) -> Found<TokenView> {
    match spec_char(s) {
        Some((c, n)) => Some((TokenView::CharLiteral(c), n)),
        None => None,
    }
}

/// Recognizes a character literal at the start of the input.
pub fn lex_char(input: &[u8]) -> (r: Option<(&[u8], Token)>)
    ensures
        lexed(r, input@, spec_lex_char(input@)),
{
    match input_to_char(input) {
        Some((rest, c)) => Some((rest, Token::CharLiteral(c))),
        None => None,
    }
}

/// The first `n` bytes of the input, and the input that follows them.
fn split(input: &[u8], n: usize) -> (r: Option<(&[u8], &[u8])>)
    requires
        n <= input@.len(),
    ensures
        lexed(r, input@, Some((input@.take(n as int), n as nat))),
{
    Some((skip(input, n), slice_subrange(input, 0, n)))
}

/// The length of an identifier that begins with an underscore: one or more
/// underscores, one or more letters or digits, then letters, digits and
/// underscores as far as they go.
pub open spec fn spec_underscore_prefix_len(s: Seq<u8>) -> Option<nat> {
    let underscores = run_end(s, 0, ByteClass::Underscore);
    let head = run_end(s, underscores, ByteClass::Alphanumeric);
    if underscores > 0 && head > underscores {
        Some(run_end(s, head, ByteClass::Word) as nat)
    } else {
        None
    }
}

/// The length of an identifier that begins with a letter: one or more
/// letters, then letters, digits and underscores as far as they go.
pub open spec fn spec_alpha_prefix_len(s: Seq<u8>) -> Option<nat> {
    let head = run_end(s, 0, ByteClass::Alpha);
    if head > 0 {
        Some(run_end(s, head, ByteClass::Word) as nat)
    } else {
        None
    }
}

/// The length of the identifier at the start of `s`.
pub open spec fn spec_ident_len(s: Seq<u8>) -> Option<nat> {
    if spec_underscore_prefix_len(s) is Some {
        spec_underscore_prefix_len(s)
    } else {
        spec_alpha_prefix_len(s)
    }
}

/// The first `n` bytes of `s`, where a length `n` was found.
pub open spec fn spec_word(s: Seq<u8>, len: Option<nat>) -> Found<Seq<u8>> {
    match len {
        Some(n) => Some((s.take(n as int), n)),
        None => None,
    }
}

/// An identifier is the whole run of letters, digits and underscores at the
/// start of the input: it ends inside the input, holds only such bytes, and
/// no such byte follows it.
pub proof fn lemma_ident_is_whole_word(s: Seq<u8>)
    ensures
        spec_ident_len(s) matches Some(n) ==> 1 <= n <= s.len() && n == run_end(
            s,
            0,
            ByteClass::Word,
        ),
{
    let word = ByteClass::Word;
    lemma_run_end(s, 0, word);
    lemma_run_end(s, 0, ByteClass::Underscore);
    let underscores = run_end(s, 0, ByteClass::Underscore);
    lemma_run_end(s, underscores, ByteClass::Alphanumeric);
    let head = run_end(s, underscores, ByteClass::Alphanumeric);
    lemma_run_end(s, head, word);
    lemma_run_end(s, 0, ByteClass::Alpha);
    let letters = run_end(s, 0, ByteClass::Alpha);
    lemma_run_end(s, letters, word);
    if spec_underscore_prefix_len(s) is Some {
        lemma_run_joins(s, 0, head, word);
    } else if spec_alpha_prefix_len(s) is Some {
        lemma_run_joins(s, 0, letters, word);
    }
}

/// A run that starts at `from` goes on from any index `mid` up to which
/// every byte is of the class.
pub proof fn lemma_run_joins(s: Seq<u8>, from: int, mid: int, class: ByteClass)
    requires
        0 <= from <= mid <= s.len(),
        forall|k: int| from <= k < mid ==> class.has(#[trigger] s[k]),
    ensures
        run_end(s, from, class) == run_end(s, mid, class),
    decreases mid - from,
{
    if from < mid {
        lemma_run_joins(s, from + 1, mid, class);
    }
}

/// Recognizes an identifier that begins with an underscore.
pub fn ident_underscore_prefix(input: &[u8]) -> (r: Option<(&[u8], &[u8])>)
    ensures
        lexed(r, input@, spec_word(input@, spec_underscore_prefix_len(input@))),
{
    let underscores = scan(input, 0, ByteClass::Underscore);
    let head = scan(input, underscores, ByteClass::Alphanumeric);
    if underscores > 0 && head > underscores {
        split(input, scan(input, head, ByteClass::Word))
    } else {
        None
    }
}

/// Recognizes an identifier that begins with a letter.
pub fn ident_alpha_prefix(input: &[u8]) -> (r: Option<(&[u8], &[u8])>)
    ensures
        lexed(r, input@, spec_word(input@, spec_alpha_prefix_len(input@))),
{
    let head = scan(input, 0, ByteClass::Alpha);
    if head > 0 {
        split(input, scan(input, head, ByteClass::Word))
    } else {
        None
    }
}

/// The token that a word is: one of the reserved words, or an identifier of
/// that name.
pub open spec fn word_token(text: Seq<char>) -> TokenView {
    if text == "let"@ {
        TokenView::Let
    } else if text == "mut"@ {
        TokenView::Mut
    } else if text == "fn"@ {
        TokenView::Function
    } else if text == "if"@ {
        TokenView::If
    } else if text == "elif"@ {
        TokenView::ElseIf
    } else if text == "else"@ {
        TokenView::Else
    } else if text == "while"@ {
        TokenView::While
    } else if text == "return"@ {
        TokenView::Return
    } else if text == "continue"@ {
        TokenView::Continue
    } else if text == "break"@ {
        TokenView::Break
    } else if text == "true"@ {
        TokenView::BoolLiteral(true)
    } else if text == "false"@ {
        TokenView::BoolLiteral(false)
    } else {
        TokenView::Ident(text)
    }
}

/// The identifier, keyword or boolean literal at the start of `s`.
pub open spec fn spec_ident_or_reserved(s: Seq<u8>) -> Found<TokenView> {
    match spec_ident_len(s) {
        Some(n) => Some((word_token(ascii_text(s.take(n as int))), n)),
        None => None,
    }
}

/// Whether two byte sequences are the same.
fn same_bytes(a: &[u8], b: &[u8]) -> (r: bool)
    ensures
        r == (a@ == b@),
{
    if a.len() != b.len() {
        return false;
    }
    let mut i: usize = 0;
    while i < a.len()
        invariant
            i <= a@.len(),
            a@.len() == b@.len(),
            forall|k: int| 0 <= k < i ==> a@[k] == b@[k],
        decreases a@.len() - i,
    {
        if a[i] != b[i] {
            return false;
        }
        i += 1;
    }
    assert(a@ =~= b@);
    true
}

/// Whether the ASCII bytes `word` spell `text`.
fn spells(word: &[u8], text: &str) -> (r: bool)
    requires
        is_ascii_bytes(word@),
    ensures
        r == (ascii_text(word@) == text@),
{
    proof {
        lemma_ascii_decodes(word@);
        if word@ == encode_utf8(text@) {
            encode_utf8_decode_utf8(text@);
        }
        if ascii_text(word@) == text@ {
            decode_utf8_encode_utf8(word@);
        }
    }
    same_bytes(word, text.as_bytes())
}

/// Recognizes an identifier-shaped word at the start of the input, and says
/// which token it is: a keyword, a boolean literal, or an identifier.
pub fn lex_ident_or_reserved(input: &[u8]) -> (r: Option<(&[u8], Token)>)
    ensures
        lexed(r, input@, spec_ident_or_reserved(input@)),
{
    let word = match ident_underscore_prefix(input) {
        Some(found) => Some(found),
        None => ident_alpha_prefix(input),
    };
    let (rest, word) = match word {
        Some(found) => found,
        None => { return None; },
    };
    proof {
        lemma_ident_is_whole_word(input@);
        lemma_run_end(input@, 0, ByteClass::Word);
        lemma_ascii_decodes(word@);
    }
    let token = if spells(word, "let") {
        Token::Let
    } else if spells(word, "mut") {
        Token::Mut
    } else if spells(word, "fn") {
        Token::Function
    } else if spells(word, "if") {
        Token::If
    } else if spells(word, "elif") {
        Token::ElseIf
    } else if spells(word, "else") {
        Token::Else
    } else if spells(word, "while") {
        Token::While
    } else if spells(word, "return") {
        Token::Return
    } else if spells(word, "continue") {
        Token::Continue
    } else if spells(word, "break") {
        Token::Break
    } else if spells(word, "true") {
        Token::BoolLiteral(true)
    } else if spells(word, "false") {
        Token::BoolLiteral(false)
    } else {
        match convert_slice_to_utf8(word) {
            Ok(name) => Token::Ident(name),
            Err(_) => { return None; },
        }
    };
    Some((rest, token))
}

/// The length of the integer pattern at the start of `s`: an optional minus
/// sign, then digits as far as they go, at least one.
pub open spec fn spec_number_len(s: Seq<u8>) -> Option<nat> {
    let sign: int = if tag1(s, '-') {
        1
    } else {
        0
    };
    let end = run_end(s, sign, ByteClass::Digit);
    if end > sign {
        Some(end as nat)
    } else {
        None
    }
}

/// The length of the decimal pattern at the start of `s`: the integer
/// pattern, a point, then digits as far as they go, at least one.
pub open spec fn spec_decimal_len(s: Seq<u8>) -> Option<nat> {
    match spec_number_len(s) {
        Some(n) => {
            let end = run_end(s, n as int + 1, ByteClass::Digit);
            if n < s.len() && s[n as int] == '.' as u8 && end > n + 1 {
                Some(end as nat)
            } else {
                None
            }
        },
        None => None,
    }
}

/// The integer literal at the start of `s`: the integer pattern, where its
/// value fits 64 bits.
pub open spec fn spec_number(s: Seq<u8>) -> Found<i64> {
    match spec_number_len(s) {
        Some(n) => match i64_of_text(ascii_text(s.take(n as int))) {
            Some(value) => Some((value, n)),
            None => None,
        },
        None => None,
    }
}

/// The decimal literal at the start of `s`, as its text.
pub open spec fn spec_decimal(s: Seq<u8>) -> Found<Seq<char>> {
    match spec_decimal_len(s) {
        Some(n) => Some((ascii_text(s.take(n as int)), n)),
        None => None,
    }
}

/// The integer pattern ends inside the input and is ASCII.
pub proof fn lemma_number_len(s: Seq<u8>)
    ensures
        spec_number_len(s) matches Some(n) ==> 1 <= n <= s.len() && is_ascii_bytes(
            s.take(n as int),
        ),
{
    let sign: int = if tag1(s, '-') {
        1
    } else {
        0
    };
    lemma_run_end(s, sign, ByteClass::Digit);
}

/// The decimal pattern ends inside the input, is ASCII, and its text is a
/// decimal text.
pub proof fn lemma_decimal_len(s: Seq<u8>)
    ensures
        spec_decimal_len(s) matches Some(n) ==> {
            &&& 3 <= n <= s.len()
            &&& is_ascii_bytes(s.take(n as int))
            &&& is_decimal_text(ascii_text(s.take(n as int)))
        },
{
    lemma_number_len(s);
    if let Some(point) = spec_number_len(s) {
        let sign: int = if tag1(s, '-') {
            1
        } else {
            0
        };
        if let Some(n) = spec_decimal_len(s) {
            lemma_run_end(s, sign, ByteClass::Digit);
            lemma_run_end(s, point as int + 1, ByteClass::Digit);
            let text = ascii_text(s.take(n as int));
            assert(is_decimal_text_at(text, point as int)) by {
                assert forall|k: int| sign <= k < point implies '0' <= #[trigger] text[k]
                    <= '9' by {
                    assert(ByteClass::Digit.has(s[k]));
                }
                assert forall|k: int| point + 1 <= k < text.len() implies '0' <= #[trigger] text[k]
                    <= '9' by {
                    assert(ByteClass::Digit.has(s[k]));
                }
            }
        }
    }
}

/// Where the integer pattern at the start of the input ends.
fn number_end(input: &[u8]) -> (r: Option<usize>)
    ensures
        spec_number_len(input@) == match r {
            Some(end) => Some(end as nat),
            None => None,
        },
        r matches Some(end) ==> 1 <= end <= input@.len(),
{
    let sign: usize = if at(input, 0, '-' as u8) {
        1
    } else {
        0
    };
    let end = scan(input, sign, ByteClass::Digit);
    if end > sign {
        Some(end)
    } else {
        None
    }
}

/// Recognizes an integer literal at the start of the input and reads its
/// value. A run of digits whose value does not fit 64 bits is no literal.
pub fn input_to_number(input: &[u8]) -> (r: Option<(&[u8], i64)>)
    ensures
        lexed(r, input@, spec_number(input@)),
{
    match number_end(input) {
        None => None,
        Some(end) => {
            let word = slice_subrange(input, 0, end);
            proof {
                lemma_number_len(input@);
                lemma_ascii_decodes(word@);
            }
            match convert_slice_to_number(word) {
                Ok(value) => Some((skip(input, end), value)),
                Err(_) => None,
            }
        },
    }
}

/// The integer literal at the start of `s`, as a token.
pub open spec fn spec_lex_number(s: Seq<u8>) -> Found<TokenView> {
    match spec_number(s) {
        Some((value, n)) => Some((TokenView::NumericLiteral(value), n)),
        None => None,
    }
}

/// Recognizes an integer literal at the start of the input.
pub fn lex_number(input: &[u8]) -> (r: Option<(&[u8], Token)>)
    ensures
        lexed(r, input@, spec_lex_number(input@)),
{
    match input_to_number(input) {
        Some((rest, value)) => Some((rest, Token::NumericLiteral(value))),
        None => None,
    }
}

/// Recognizes a decimal literal at the start of the input and keeps its
/// text.
pub fn input_to_decimal(input: &[u8]) -> (r: Option<(&[u8], Decimal)>)
    ensures
        lexed(r, input@, spec_decimal(input@)),
        r matches Some((_, d)) ==> d.wf(),
{
    let point = match number_end(input) {
        Some(end) => end,
        None => { return None; },
    };
    if point >= input.len() || input[point] != '.' as u8 {
        return None;
    }
    let end = scan(input, point + 1, ByteClass::Digit);
    if end <= point + 1 {
        return None;
    }
    let word = slice_subrange(input, 0, end);
    proof {
        lemma_decimal_len(input@);
        lemma_ascii_decodes(word@);
    }
    match convert_slice_to_utf8(word) {
        Ok(text) => Some((skip(input, end), Decimal::from_checked(text))),
        Err(_) => None,
    }
}

/// The decimal literal that is the whole of the input; `None` where the
/// input is no decimal literal, or is one followed by anything.
pub fn decimal_literal(input: &[u8]) -> (r: Option<Decimal>)
    ensures
        r is Some <==> spec_decimal_len(input@) == Some(input@.len()),
        r matches Some(d) ==> d@ == ascii_text(input@) && d.wf(),
{
    match input_to_decimal(input) {
        Some((rest, d)) => {
            if rest.len() == 0 {
                assert(input@.take(input@.len() as int) =~= input@);
                Some(d)
            } else {
                None
            }
        },
        None => None,
    }
}

/// The decimal literal at the start of `s`, as a token.
pub open spec fn spec_lex_decimal(s: Seq<u8>) -> Found<TokenView> {
    match spec_decimal(s) {
        Some((text, n)) => Some((TokenView::DecimalLiteral(text), n)),
        None => None,
    }
}

/// Recognizes a decimal literal at the start of the input.
pub fn lex_decimal(input: &[u8]) -> (r: Option<(&[u8], Token)>)
    ensures
        lexed(r, input@, spec_lex_decimal(input@)),
{
    match input_to_decimal(input) {
        Some((rest, d)) => Some((rest, Token::DecimalLiteral(d))),
        None => None,
    }
}

/// One byte that nothing else recognizes.
pub open spec fn spec_illegal(s: Seq<u8>) -> Found<TokenView> {
    if s.len() > 0 {
        Some((TokenView::Illegal, 1))
    } else {
        None
    }
}

/// Takes one byte of the input as an unrecognized token.
pub fn lex_illegal(input: &[u8]) -> (r: Option<(&[u8], Token)>)
    ensures
        lexed(r, input@, spec_illegal(input@)),
{
    if input.len() > 0 {
        found(input, 1, Token::Illegal)
    } else {
        None
    }
}

/// The token at the start of `s`: what the first recognizer that finds
/// anything finds, in this order. The order decides wherever two of them
/// would find something: a decimal before the integer that begins it, `&&`
/// before `&`, `<<` before `<=` and `<`, and a keyword only as a whole word.
/// On an input that is not empty the last one always finds a token.
pub open spec fn spec_token(s: Seq<u8>) -> Found<TokenView> {
    if spec_lex_decimal(s) is Some {
        spec_lex_decimal(s)
    } else if spec_lex_number(s) is Some {
        spec_lex_number(s)
    } else if spec_punctuation(s) is Some {
        spec_punctuation(s)
    } else if spec_logic_operation(s) is Some {
        spec_logic_operation(s)
    } else if spec_boolean_operation(s) is Some {
        spec_boolean_operation(s)
    } else if spec_operator(s) is Some {
        spec_operator(s)
    } else if spec_lex_char(s) is Some {
        spec_lex_char(s)
    } else if spec_ident_or_reserved(s) is Some {
        spec_ident_or_reserved(s)
    } else if spec_lex_string(s) is Some {
        spec_lex_string(s)
    } else {
        spec_illegal(s)
    }
}

/// There is a token at the start of every input but the empty one; it covers
/// at least one byte, no more than the input has, and is never the end
/// marker.
pub proof fn lemma_token_progress(s: Seq<u8>)
    ensures
        spec_token(s) is Some <==> s.len() > 0,
        spec_token(s) matches Some((token, n)) ==> 1 <= n <= s.len() && token != TokenView::EOF,
{
    lemma_decimal_len(s);
    lemma_number_len(s);
    lemma_ident_is_whole_word(s);
    if s.len() > 0 {
        lemma_body_end(s.skip(1), '"' as u8, 0);
        lemma_body_end(s.skip(1), '\'' as u8, 0);
    }
}

/// A two-character operator is one token: where the input begins with one,
/// the token at its start is that operator, never the one-character
/// operator that it begins with.
pub proof fn lemma_two_character_operators(s: Seq<u8>)
    ensures
        tag2(s, '&', '&') ==> spec_token(s) == Some((TokenView::LogicAnd, 2nat)),
        tag2(s, '|', '|') ==> spec_token(s) == Some((TokenView::LogicOr, 2nat)),
        tag2(s, '<', '<') ==> spec_token(s) == Some((TokenView::LShift, 2nat)),
        tag2(s, '>', '>') ==> spec_token(s) == Some((TokenView::RShift, 2nat)),
        tag2(s, '=', '=') ==> spec_token(s) == Some((TokenView::Equal, 2nat)),
        tag2(s, '!', '=') ==> spec_token(s) == Some((TokenView::NotEqual, 2nat)),
        tag2(s, '*', '*') ==> spec_token(s) == Some((TokenView::Exp, 2nat)),
        tag2(s, '-', '>') ==> spec_token(s) == Some((TokenView::FunctionReturn, 2nat)),
        tag2(s, '>', '=') ==> spec_token(s) == Some((TokenView::GreaterThanEqual, 2nat)),
        tag2(s, '<', '=') ==> spec_token(s) == Some((TokenView::LessThanEqual, 2nat)),
{
    if s.len() >= 2 {
        assert(run_end(s, 1, ByteClass::Digit) == 1 || is_digit(s[1]));
    }
}

/// A number is read before anything else, and a decimal before an integer:
/// where the input begins with the decimal pattern the token is that
/// decimal, though the digits before its point are an integer; where it
/// begins with an integer that fits and no point with digits follows, the
/// token is that integer, though a minus sign is an operator too.
pub proof fn lemma_numbers_come_first(s: Seq<u8>)
    ensures
        spec_decimal_len(s) matches Some(n) ==> spec_token(s) == Some(
            (TokenView::DecimalLiteral(ascii_text(s.take(n as int))), n),
        ),
        spec_decimal_len(s) is None ==> (spec_number(s) matches Some((value, n)) ==> spec_token(s)
            == Some((TokenView::NumericLiteral(value), n))),
{
}

/// Recognizes one token at the start of the input. Returns `None` only on
/// the empty input.
pub fn lex_token(input: &[u8]) -> (r: Option<(&[u8], Token)>)
    ensures
        lexed(r, input@, spec_token(input@)),
{
    if let Some(found) = lex_decimal(input) {
        return Some(found);
    }
    if let Some(found) = lex_number(input) {
        return Some(found);
    }
    if let Some(found) = lex_punctuation(input) {
        return Some(found);
    }
    if let Some(found) = lex_logic_operation(input) {
        return Some(found);
    }
    if let Some(found) = lex_boolean_operation(input) {
        return Some(found);
    }
    if let Some(found) = lex_operator(input) {
        return Some(found);
    }
    if let Some(found) = lex_char(input) {
        return Some(found);
    }
    if let Some(found) = lex_ident_or_reserved(input) {
        return Some(found);
    }
    if let Some(found) = lex_string(input) {
        return Some(found);
    }
    lex_illegal(input)
}

/// The tokens of `s`: white space is passed over, then comes the token at
/// the start of what is left, then the tokens of what follows it.
pub open spec fn spec_tokens(s: Seq<u8>) -> Seq<TokenView>
    decreases s.len(),
    via spec_tokens_decreases
{
    let rest = s.skip(run_end(s, 0, ByteClass::Space));
    match spec_token(rest) {
        Some((token, n)) => seq![token] + spec_tokens(rest.skip(n as int)),
        None => Seq::empty(),
    }
}

#[via_fn]
proof fn spec_tokens_decreases(s: Seq<u8>) {
    lemma_run_end(s, 0, ByteClass::Space);
    lemma_token_progress(s.skip(run_end(s, 0, ByteClass::Space)));
}

/// No token of an input is the end marker.
pub proof fn lemma_no_end_marker(s: Seq<u8>)
    ensures
        forall|i: int| 0 <= i < spec_tokens(s).len() ==> spec_tokens(s)[i] != TokenView::EOF,
    decreases s.len(),
{
    lemma_run_end(s, 0, ByteClass::Space);
    let rest = s.skip(run_end(s, 0, ByteClass::Space));
    lemma_token_progress(rest);
    if let Some((token, n)) = spec_token(rest) {
        lemma_no_end_marker(rest.skip(n as int));
    }
}

/// What scanning leaves unread of `s`: nothing, but for an input that holds
/// no token (it is empty or all white space), which is left as it came.
pub open spec fn spec_rest(s: Seq<u8>) -> Seq<u8> {
    if spec_tokens(s).len() == 0 {
        s
    } else {
        Seq::empty()
    }
}

/// Scans the whole input into its tokens, without an end marker, and
/// returns with them what it left unread.
pub fn lex_tokens(input: &[u8]) -> (r: (&[u8], Vec<Token>))
    ensures
        r.0@ == spec_rest(input@),
        token_views(r.1@) == spec_tokens(input@),
{
    let mut tokens: Vec<Token> = Vec::new();
    let mut rest = input;
    loop
        invariant
            token_views(tokens@) + spec_tokens(rest@) == spec_tokens(input@),
            tokens@.len() == 0 ==> rest@ == input@,
        decreases rest@.len(),
    {
        let body = skip(rest, scan(rest, 0, ByteClass::Space));
        proof {
            lemma_token_progress(body@);
        }
        match lex_token(body) {
            None => {
                assert(token_views(tokens@) + Seq::<TokenView>::empty() =~= token_views(tokens@));
                assert(body@ =~= Seq::<u8>::empty());
                if tokens.len() == 0 {
                    return (rest, tokens);
                }
                return (body, tokens);
            },
            Some((after, token)) => {
                let ghost before = tokens@;
                tokens.push(token);
                proof {
                    assert(token_views(tokens@) =~= token_views(before) + seq![token@]);
                    assert((token_views(before) + seq![token@]) + spec_tokens(after@) =~= token_views(
                        before,
                    ) + (seq![token@] + spec_tokens(after@)));
                }
                rest = after;
            },
        }
    }
}

/// The scanner.
pub struct Lexer;

impl Lexer {
    /// Scans `bytes` into tokens and closes the sequence with the end
    /// marker; returns with it what was left unread. Every input has a
    /// result; the end marker stands last and nowhere else.
    pub fn lexer_tokens(bytes: &[u8]) -> (r: (&[u8], Vec<Token>))
        ensures
            r.0@ == spec_rest(bytes@),
            token_views(r.1@) == spec_tokens(bytes@).push(TokenView::EOF),
            r.1@.len() >= 1,
            r.1@.last()@ == TokenView::EOF,
            forall|i: int| 0 <= i < r.1@.len() - 1 ==> r.1@[i]@ != TokenView::EOF,
    {
        let (rest, mut tokens) = lex_tokens(bytes);
        let ghost before = tokens@;
        tokens.push(Token::EOF);
        proof {
            lemma_no_end_marker(bytes@);
            assert(token_views(tokens@) =~= token_views(before).push(TokenView::EOF));
            assert forall|i: int| 0 <= i < tokens@.len() - 1 implies tokens@[i]@
                != TokenView::EOF by {
                assert(token_views(before)[i] == tokens@[i]@);
            }
        }
        (rest, tokens)
    }
}

} // verus!
