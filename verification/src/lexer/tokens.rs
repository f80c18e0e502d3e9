//! Tokens, and a window over a sequence of them.

use vstd::prelude::*;
use vstd::slice::slice_subrange;
use vstd::std_specs::cmp::PartialEqSpecImpl;
use std::ops::Range;

verus! {

/// The text of a decimal literal: an optional minus sign, one or more digits,
/// a point, one or more digits. The text is kept as written, so that a caller
/// chooses the number type it is read into.
#[derive(Eq, Debug)]
pub struct Decimal {
    text: String,
}

/// `c` is one of the ten ASCII digits.
pub open spec fn is_digit_char(c: char) -> bool {
    '0' <= c <= '9'
}

/// Every character of `t` from `from` up to `to` is a digit.
pub open spec fn digits_between(t: Seq<char>, from: int, to: int) -> bool {
    forall|k: int| from <= k < to ==> is_digit_char(#[trigger] t[k])
}

/// `t` is a decimal text whose point stands at index `p`.
pub open spec fn is_decimal_text_at(t: Seq<char>, p: int) -> bool {
    let first = if t.len() > 0 && t[0] == '-' {
        1int
    } else {
        0int
    };
    &&& first < p < t.len() - 1
    &&& t[p] == '.'
    &&& digits_between(t, first, p)
    &&& digits_between(t, p + 1, t.len() as int)
}

/// `t` is an optional minus sign, digits, a point, digits.
pub open spec fn is_decimal_text(t: Seq<char>) -> bool {
    exists|p: int| is_decimal_text_at(t, p)
}

impl View for Decimal {
    type V = Seq<char>;

    closed spec fn view(&self) -> Seq<char> {
        self.text@
    }
}

impl Decimal {
    /// The text is a decimal literal. Every value of the type is made from a
    /// text that is one.
    #[verifier::type_invariant]
    pub open spec fn wf(&self) -> bool {
        is_decimal_text(self@)
    }

    /// Wraps a text that is known to be a decimal literal.
    pub(crate) fn from_checked(text: String) -> (d: Decimal)
        requires
            is_decimal_text(text@),
        ensures
            d@ == text@,
            d.wf(),
    {
        Decimal { text }
    }

    /// The literal as written.
    pub fn text(&self) -> (t: &str)
        ensures
            t@ == self@,
            is_decimal_text(t@),
    {
        proof {
            use_type_invariant(self);
        }
        self.text.as_str()
    }
}

/// One lexical unit. A token carries no position: where it stands in the
/// scanner's output is its position.
#[derive(Debug, Clone)]
pub enum Token {
    Illegal,
    EOF,
    // identifier and literals
    Ident(String),
    StringLiteral(String),
    CharLiteral(char),
    NumericLiteral(i64),
    DecimalLiteral(Decimal),
    BoolLiteral(bool),
    // operators
    Plus,
    Minus,
    Div,
    Mult,
    Modulo,
    Equal,
    Exp,
    NotEqual,
    GreaterThanEqual,
    LessThanEqual,
    GreaterThan,
    LessThan,
    Not,
    Assign,
    FunctionReturn,
    // statements
    If,
    ElseIf,
    Else,
    While,
    // reserved keywords
    Function,
    Return,
    Break,
    Continue,
    Let,
    Mut,
    // logic operations
    LogicAnd,
    LogicOr,
    // boolean operations
    BooleanAnd,
    BooleanXor,
    BooleanOr,
    LShift,
    RShift,
    // punctuations
    Semicolon,
    Colon,
    Comma,
    LParenthesis,
    RParenthesis,
    LBrace,
    RBrace,
    LBracket,
    RBracket,
}

/// What a token is, with texts as sequences of characters.
pub enum TokenView {
    Illegal,
    EOF,
    Ident(Seq<char>),
    StringLiteral(Seq<char>),
    CharLiteral(char),
    NumericLiteral(i64),
    DecimalLiteral(Seq<char>),
    BoolLiteral(bool),
    Plus,
    Minus,
    Div,
    Mult,
    Modulo,
    Equal,
    Exp,
    NotEqual,
    GreaterThanEqual,
    LessThanEqual,
    GreaterThan,
    LessThan,
    Not,
    Assign,
    FunctionReturn,
    If,
    ElseIf,
    Else,
    While,
    Function,
    Return,
    Break,
    Continue,
    Let,
    Mut,
    LogicAnd,
    LogicOr,
    BooleanAnd,
    BooleanXor,
    BooleanOr,
    LShift,
    RShift,
    Semicolon,
    Colon,
    Comma,
    LParenthesis,
    RParenthesis,
    LBrace,
    RBrace,
    LBracket,
    RBracket,
}

impl View for Token {
    type V = TokenView;

    open spec fn view(&self) -> TokenView {
        match self {
            Token::Illegal => TokenView::Illegal,
            Token::EOF => TokenView::EOF,
            Token::Ident(name) => TokenView::Ident(name@),
            Token::StringLiteral(text) => TokenView::StringLiteral(text@),
            Token::CharLiteral(c) => TokenView::CharLiteral(*c),
            Token::NumericLiteral(n) => TokenView::NumericLiteral(*n),
            Token::DecimalLiteral(d) => TokenView::DecimalLiteral(d@),
            Token::BoolLiteral(b) => TokenView::BoolLiteral(*b),
            Token::Plus => TokenView::Plus,
            Token::Minus => TokenView::Minus,
            Token::Div => TokenView::Div,
            Token::Mult => TokenView::Mult,
            Token::Modulo => TokenView::Modulo,
            Token::Equal => TokenView::Equal,
            Token::Exp => TokenView::Exp,
            Token::NotEqual => TokenView::NotEqual,
            Token::GreaterThanEqual => TokenView::GreaterThanEqual,
            Token::LessThanEqual => TokenView::LessThanEqual,
            Token::GreaterThan => TokenView::GreaterThan,
            Token::LessThan => TokenView::LessThan,
            Token::Not => TokenView::Not,
            Token::Assign => TokenView::Assign,
            Token::FunctionReturn => TokenView::FunctionReturn,
            Token::If => TokenView::If,
            Token::ElseIf => TokenView::ElseIf,
            Token::Else => TokenView::Else,
            Token::While => TokenView::While,
            Token::Function => TokenView::Function,
            Token::Return => TokenView::Return,
            Token::Break => TokenView::Break,
            Token::Continue => TokenView::Continue,
            Token::Let => TokenView::Let,
            Token::Mut => TokenView::Mut,
            Token::LogicAnd => TokenView::LogicAnd,
            Token::LogicOr => TokenView::LogicOr,
            Token::BooleanAnd => TokenView::BooleanAnd,
            Token::BooleanXor => TokenView::BooleanXor,
            Token::BooleanOr => TokenView::BooleanOr,
            Token::LShift => TokenView::LShift,
            Token::RShift => TokenView::RShift,
            Token::Semicolon => TokenView::Semicolon,
            Token::Colon => TokenView::Colon,
            Token::Comma => TokenView::Comma,
            Token::LParenthesis => TokenView::LParenthesis,
            Token::RParenthesis => TokenView::RParenthesis,
            Token::LBrace => TokenView::LBrace,
            Token::RBrace => TokenView::RBrace,
            Token::LBracket => TokenView::LBracket,
            Token::RBracket => TokenView::RBracket,
        }
    }
}

/// The views of a sequence of tokens, in order.
pub open spec fn token_views(tokens: Seq<Token>) -> Seq<TokenView> {
    tokens.map_values(|t: Token| t@)
}

impl Clone for Decimal {
    fn clone(&self) -> (copy: Decimal)
        ensures
            copy == *self,
    {
        proof {
            use_type_invariant(self);
        }
        Decimal { text: self.text.clone() }
    }
}

impl PartialEq for Decimal {
    fn eq(&self, other: &Decimal) -> (r: bool) {
        self.text == other.text
    }
}

impl PartialEqSpecImpl for Decimal {
    open spec fn obeys_eq_spec() -> bool {
        true
    }

    /// Two decimal literals are equal where they are written alike.
    open spec fn eq_spec(&self, other: &Decimal) -> bool {
        self@ == other@
    }
}

impl PartialEq for Token {
    fn eq(&self, other: &Token) -> (r: bool) {
        match (self, other) {
            (Token::Ident(a), Token::Ident(b)) => *a == *b,
            (Token::StringLiteral(a), Token::StringLiteral(b)) => *a == *b,
            (Token::CharLiteral(a), Token::CharLiteral(b)) => *a == *b,
            (Token::NumericLiteral(a), Token::NumericLiteral(b)) => *a == *b,
            (Token::DecimalLiteral(a), Token::DecimalLiteral(b)) => *a == *b,
            (Token::BoolLiteral(a), Token::BoolLiteral(b)) => *a == *b,
            (Token::Illegal, Token::Illegal) => true,
            (Token::EOF, Token::EOF) => true,
            (Token::Plus, Token::Plus) => true,
            (Token::Minus, Token::Minus) => true,
            (Token::Div, Token::Div) => true,
            (Token::Mult, Token::Mult) => true,
            (Token::Modulo, Token::Modulo) => true,
            (Token::Equal, Token::Equal) => true,
            (Token::Exp, Token::Exp) => true,
            (Token::NotEqual, Token::NotEqual) => true,
            (Token::GreaterThanEqual, Token::GreaterThanEqual) => true,
            (Token::LessThanEqual, Token::LessThanEqual) => true,
            (Token::GreaterThan, Token::GreaterThan) => true,
            (Token::LessThan, Token::LessThan) => true,
            (Token::Not, Token::Not) => true,
            (Token::Assign, Token::Assign) => true,
            (Token::FunctionReturn, Token::FunctionReturn) => true,
            (Token::If, Token::If) => true,
            (Token::ElseIf, Token::ElseIf) => true,
            (Token::Else, Token::Else) => true,
            (Token::While, Token::While) => true,
            (Token::Function, Token::Function) => true,
            (Token::Return, Token::Return) => true,
            (Token::Break, Token::Break) => true,
            (Token::Continue, Token::Continue) => true,
            (Token::Let, Token::Let) => true,
            (Token::Mut, Token::Mut) => true,
            (Token::LogicAnd, Token::LogicAnd) => true,
            (Token::LogicOr, Token::LogicOr) => true,
            (Token::BooleanAnd, Token::BooleanAnd) => true,
            (Token::BooleanXor, Token::BooleanXor) => true,
            (Token::BooleanOr, Token::BooleanOr) => true,
            (Token::LShift, Token::LShift) => true,
            (Token::RShift, Token::RShift) => true,
            (Token::Semicolon, Token::Semicolon) => true,
            (Token::Colon, Token::Colon) => true,
            (Token::Comma, Token::Comma) => true,
            (Token::LParenthesis, Token::LParenthesis) => true,
            (Token::RParenthesis, Token::RParenthesis) => true,
            (Token::LBrace, Token::LBrace) => true,
            (Token::RBrace, Token::RBrace) => true,
            (Token::LBracket, Token::LBracket) => true,
            (Token::RBracket, Token::RBracket) => true,
            _ => false,
        }
    }
}

impl PartialEqSpecImpl for Token {
    open spec fn obeys_eq_spec() -> bool {
        true
    }

    /// Two tokens are equal where they are the same kind of token and hold
    /// the same text or value.
    open spec fn eq_spec(&self, other: &Token) -> bool {
        self@ == other@
    }
}

impl Token {
    /// A token counts as one item of input.
    pub fn input_len(&self) -> (n: usize)
        ensures
            n == 1,
    {
        1
    }
}

/// Why an index into a window cannot be had.
#[derive(Clone, Copy, PartialEq, Eq, Debug)]
pub enum Needed {
    /// The window is shorter than asked, by an amount that is not known.
    Unknown,
}

/// A window over a sequence of tokens: the tokens that it shows, borrowed and
/// never copied, and the bounds `start` and `end` at which they stand in the
/// sequence that the window was sliced from. A prefix or a suffix that is
/// taken off a window counts anew: its `start` is 0.
#[derive(Clone, Copy, Debug)]
pub struct Tokens<'a> {
    pub tokens: &'a [Token],
    pub start: usize,
    pub end: usize,
}

impl<'a> View for Tokens<'a> {
    type V = Seq<Token>;

    /// The tokens that the window shows.
    open spec fn view(&self) -> Seq<Token> {
        self.tokens@
    }
}

impl<'a> PartialEq for Tokens<'a> {
    fn eq(&self, other: &Tokens<'a>) -> (r: bool) {
        if self.start != other.start || self.end != other.end || self.tokens.len()
            != other.tokens.len() {
            assert(token_views(self.tokens@).len() == self.tokens@.len());
            assert(token_views(other.tokens@).len() == other.tokens@.len());
            return false;
        }
        let mut i: usize = 0;
        while i < self.tokens.len()
            invariant
                i <= self.tokens@.len(),
                self.tokens@.len() == other.tokens@.len(),
                forall|k: int| 0 <= k < i ==> self.tokens@[k]@ == other.tokens@[k]@,
            decreases self.tokens@.len() - i,
        {
            if self.tokens[i] != other.tokens[i] {
                assert(token_views(self.tokens@)[i as int] != token_views(other.tokens@)[i as int]);
                return false;
            }
            i += 1;
        }
        assert(token_views(self.tokens@) =~= token_views(other.tokens@));
        true
    }
}

impl<'a> PartialEqSpecImpl for Tokens<'a> {
    open spec fn obeys_eq_spec() -> bool {
        true
    }

    /// Two windows are equal where they show equal tokens and have the same
    /// bounds.
    open spec fn eq_spec(&self, other: &Tokens<'a>) -> bool {
        &&& self.start == other.start
        &&& self.end == other.end
        &&& token_views(self@) == token_views(other@)
    }
}

impl<'a> Tokens<'a> {
    /// The bounds are in order and as far apart as the window shows tokens.
    pub open spec fn wf(&self) -> bool {
        self.start <= self.end && self.end - self.start == self@.len()
    }

    /// `self` shows the first `count` tokens of `whole`, counted anew.
    pub open spec fn is_prefix_of(&self, whole: &Tokens<'a>, count: int) -> bool {
        &&& self@ == whole@.take(count)
        &&& self.start == 0
        &&& self.end == count
    }

    /// `self` shows the tokens of `whole` after the first `count`, counted
    /// anew.
    pub open spec fn is_suffix_of(&self, whole: &Tokens<'a>, count: int) -> bool {
        &&& self@ == whole@.skip(count)
        &&& self.start == 0
        &&& self.end == whole@.len() - count
    }

    /// `self` shows the tokens of `whole` from index `from` up to index `to`,
    /// and its bounds are those of `whole` moved by as much.
    pub open spec fn is_slice_of(&self, whole: &Tokens<'a>, from: int, to: int) -> bool {
        &&& self@ == whole@.subrange(from, to)
        &&& self.start == whole.start + from
        &&& self.end == whole.start + to
    }

    /// The window over all of `init`.
    pub fn new(init: &'a [Token]) -> (t: Tokens<'a>)
        ensures
            t.wf(),
            t.tokens == init,
            t.start == 0,
            t.end == init@.len(),
            t@ == init@,
    {
        Tokens { tokens: init, start: 0, end: init.len() }
    }

    /// The number of tokens that the window shows.
    pub fn input_len(&self) -> (n: usize)
        ensures
            n == self@.len(),
    {
        self.tokens.len()
    }

    /// The window on the first `count` tokens, counted from 0.
    pub fn take(&self, count: usize) -> (t: Tokens<'a>)
        requires
            count <= self@.len(),
        ensures
            t.tokens@ == self.tokens@.take(count as int),
            t.start == 0,
            t.end == count,
            t.wf(),
    {
        Tokens { tokens: slice_subrange(self.tokens, 0, count), start: 0, end: count }
    }

    /// The window on the first `count` tokens; fails where the window shows
    /// fewer.
    pub fn try_take(&self, count: usize) -> (r: Result<Tokens<'a>, Needed>)
        ensures
            count <= self@.len() ==> (r matches Ok(t) && t.is_prefix_of(self, count as int)
                && t.wf()),
            count > self@.len() ==> r matches Err(Needed::Unknown),
    {
        match self.slice_index(count) {
            Ok(index) => Ok(self.take(index)),
            Err(needed) => Err(needed),
        }
    }

    /// The window on the first `count` tokens, and the window on the rest,
    /// each counted from 0.
    pub fn take_split(&self, count: usize) -> (r: (Tokens<'a>, Tokens<'a>))
        requires
            count <= self@.len(),
        ensures
            r.0.tokens@ == self.tokens@.take(count as int),
            r.0.start == 0,
            r.0.end == count,
            r.1.tokens@ == self.tokens@.skip(count as int),
            r.1.start == 0,
            r.1.end == self.tokens@.len() - count,
            r.0.tokens@ + r.1.tokens@ == self.tokens@,
            r.0.wf(),
            r.1.wf(),
    {
        let len = self.tokens.len();
        let prefix = slice_subrange(self.tokens, 0, count);
        let suffix = slice_subrange(self.tokens, count, len);
        assert(prefix@ + suffix@ =~= self.tokens@);
        (
            Tokens { tokens: prefix, start: 0, end: count },
            Tokens { tokens: suffix, start: 0, end: len - count },
        )
    }

    /// The window on the tokens from index `range.start` up to index
    /// `range.end`; its bounds are those of this window moved by as much.
    pub fn slice(&self, range: Range<usize>) -> (t: Tokens<'a>)
        requires
            self.wf(),
            range.start <= range.end <= self@.len(),
        ensures
            t.tokens@ == self.tokens@.subrange(range.start as int, range.end as int),
            t.start == self.start + range.start,
            t.end == self.start + range.end,
            t.wf(),
            self.start <= t.start <= t.end <= self.end,
    {
        Tokens {
            tokens: slice_subrange(self.tokens, range.start, range.end),
            start: self.start + range.start,
            end: self.start + range.end,
        }
    }

    /// The window from index `from` to the end of this window. An index past
    /// the end counts as the end.
    pub fn slice_from(&self, from: usize) -> (t: Tokens<'a>)
        requires
            self.wf(),
        ensures
            from <= self@.len() ==> t.is_slice_of(self, from as int, self@.len() as int),
            from > self@.len() ==> t.is_slice_of(self, self@.len() as int, self@.len() as int),
            t.wf(),
            self.start <= t.start <= t.end == self.end,
    {
        let len = self.end - self.start;
        let from = if from <= len {
            from
        } else {
            len
        };
        self.slice(from..len)
    }

    /// The window from the start of this window up to index `to`. An index
    /// past the end counts as the end.
    pub fn slice_to(&self, to: usize) -> (t: Tokens<'a>)
        requires
            self.wf(),
        ensures
            to <= self@.len() ==> t.is_slice_of(self, 0, to as int),
            to > self@.len() ==> t.is_slice_of(self, 0, self@.len() as int),
            t.wf(),
            self.start == t.start <= t.end <= self.end,
    {
        let len = self.tokens.len();
        let to = if to <= len {
            to
        } else {
            len
        };
        self.slice(0..to)
    }

    /// This window.
    pub fn slice_full(&self) -> (t: Tokens<'a>)
        ensures
            t == *self,
    {
        Tokens { tokens: self.tokens, start: self.start, end: self.end }
    }

    /// The tokens that the window shows, each with its index in the window,
    /// in order.
    pub fn iter_indices(&self) -> (items: Vec<(usize, &'a Token)>)
        ensures
            items@.len() == self@.len(),
            forall|i: int|
                0 <= i < items@.len() ==> (#[trigger] items@[i]).0 == i && *items@[i].1 == self@[i],
    {
        let mut items: Vec<(usize, &'a Token)> = Vec::new();
        let mut i: usize = 0;
        while i < self.tokens.len()
            invariant
                i <= self@.len(),
                items@.len() == i,
                forall|k: int|
                    0 <= k < i ==> (#[trigger] items@[k]).0 == k && *items@[k].1 == self@[k],
            decreases self@.len() - i,
        {
            items.push((i, &self.tokens[i]));
            i += 1;
        }
        items
    }

    /// The tokens that the window shows, in order.
    pub fn iter_elements(&self) -> (items: Vec<&'a Token>)
        ensures
            items@.len() == self@.len(),
            forall|i: int| 0 <= i < items@.len() ==> *(#[trigger] items@[i]) == self@[i],
    {
        let mut items: Vec<&'a Token> = Vec::new();
        let mut i: usize = 0;
        while i < self.tokens.len()
            invariant
                i <= self@.len(),
                items@.len() == i,
                forall|k: int| 0 <= k < i ==> *(#[trigger] items@[k]) == self@[k],
            decreases self@.len() - i,
        {
            items.push(&self.tokens[i]);
            i += 1;
        }
        items
    }

    /// The index in the window of the first token of which `predicate` says
    /// `true`; `None` where it says so of none.
    pub fn position<P: Fn(&'a Token) -> bool>(&self, predicate: P) -> (r: Option<usize>)
        requires
            forall|i: int| 0 <= i < self@.len() ==> call_requires(predicate, (&#[trigger] self@[i],)),
        ensures
            match r {
                Some(at) => {
                    &&& at < self@.len()
                    &&& call_ensures(predicate, (&self@[at as int],), true)
                    &&& forall|i: int|
                        0 <= i < at ==> call_ensures(predicate, (&#[trigger] self@[i],), false)
                },
                None => forall|i: int|
                    0 <= i < self@.len() ==> call_ensures(
                        predicate,
                        (&#[trigger] self@[i],),
                        false,
                    ),
            },
    {
        let mut i: usize = 0;
        while i < self.tokens.len()
            invariant
                i <= self@.len(),
                forall|k: int|
                    0 <= k < self@.len() ==> call_requires(predicate, (&#[trigger] self@[k],)),
                forall|k: int| 0 <= k < i ==> call_ensures(predicate, (&#[trigger] self@[k],), false),
            decreases self@.len() - i,
        {
            let token: &'a Token = &self.tokens[i];
            if predicate(token) {
                return Some(i);
            }
            i += 1;
        }
        None
    }

    /// `count`, where the window shows at least `count` tokens.
    pub fn slice_index(&self, count: usize) -> (r: Result<usize, Needed>)
        ensures
            count <= self@.len() ==> r == Ok::<usize, Needed>(count),
            count > self@.len() ==> r == Err::<usize, Needed>(Needed::Unknown),
    {
        if self.tokens.len() >= count {
            Ok(count)
        } else {
            Err(Needed::Unknown)
        }
    }
}

/// Splitting loses nothing: the prefix and the suffix that a window is split
/// into at any index inside it show, one after the other, the tokens of the
/// window.
pub proof fn lemma_take_split_rebuilds<'a>(
    t: Tokens<'a>,
    prefix: Tokens<'a>,
    suffix: Tokens<'a>,
    k: int,
)
    requires
        0 <= k <= t@.len(),
        prefix.is_prefix_of(&t, k),
        suffix.is_suffix_of(&t, k),
    ensures
        prefix@ + suffix@ == t@,
        prefix.wf(),
        suffix.wf(),
{
    assert(t@.take(k) + t@.skip(k) =~= t@);
}

/// Slicing only narrows: a slice `inner` of a slice `outer` of a window `t`
/// is the slice of `t` at the indices added up, its bounds lie inside those
/// of `outer` and of `t`, and every token that it shows is a token that `t`
/// shows at that place.
pub proof fn lemma_slice_narrows<'a>(
    t: Tokens<'a>,
    outer: Tokens<'a>,
    inner: Tokens<'a>,
    a: int,
    b: int,
    c: int,
    d: int,
)
    requires
        t.wf(),
        0 <= a <= b <= t@.len(),
        0 <= c <= d <= b - a,
        outer.is_slice_of(&t, a, b),
        inner.is_slice_of(&outer, c, d),
    ensures
        outer.wf(),
        inner.wf(),
        inner.is_slice_of(&t, a + c, a + d),
        t.start <= outer.start <= inner.start <= inner.end <= outer.end <= t.end,
        forall|i: int| 0 <= i < inner@.len() ==> inner@[i] == t@[a + c + i],
{
    assert(inner@ =~= t@.subrange(a + c, a + d));
}

} // verus!
