use frontend::lexer::lex::{decimal_literal, Lexer};
use frontend::lexer::tokens::Token;

fn lex(input: &str) -> Vec<Token> {
    Lexer::lexer_tokens(input.as_bytes()).1
}

fn ident(name: &str) -> Token {
    Token::Ident(String::from(name))
}

fn string(text: &str) -> Token {
    Token::StringLiteral(String::from(text))
}

fn decimal(text: &str) -> Token {
    Token::DecimalLiteral(decimal_literal(text.as_bytes()).unwrap())
}

fn decimal_values(tokens: &[Token]) -> Vec<f64> {
    let mut values = Vec::new();
    for token in tokens {
        if let Token::DecimalLiteral(d) = token {
            values.push(d.text().parse::<f64>().unwrap());
        }
    }
    values
}

#[test]
fn test_punctuation() {
    assert_eq!(
        lex("=+(){},;"),
        vec![
            Token::Assign,
            Token::Plus,
            Token::LParenthesis,
            Token::RParenthesis,
            Token::LBrace,
            Token::RBrace,
            Token::Comma,
            Token::Semicolon,
            Token::EOF,
        ]
    );
}

#[test]
fn test_operators() {
    assert_eq!(
        lex("+ - / * == ** != >= <= > < ! % ->"),
        vec![
            Token::Plus,
            Token::Minus,
            Token::Div,
            Token::Mult,
            Token::Equal,
            Token::Exp,
            Token::NotEqual,
            Token::GreaterThanEqual,
            Token::LessThanEqual,
            Token::GreaterThan,
            Token::LessThan,
            Token::Not,
            Token::Modulo,
            Token::FunctionReturn,
            Token::EOF,
        ]
    );
}

#[test]
fn test_statements() {
    assert_eq!(
        lex("if else elif while"),
        vec![Token::If, Token::Else, Token::ElseIf, Token::While, Token::EOF]
    );
}

#[test]
fn test_reserved_keywords() {
    assert_eq!(
        lex("fn return break continue let mut"),
        vec![
            Token::Function,
            Token::Return,
            Token::Break,
            Token::Continue,
            Token::Let,
            Token::Mut,
            Token::EOF,
        ]
    );
}

#[test]
fn test_logic_operations() {
    assert_eq!(lex("&& ||"), vec![Token::LogicAnd, Token::LogicOr, Token::EOF]);
}

#[test]
fn test_boolean_operations() {
    assert_eq!(
        lex("& ^ | << >>"),
        vec![
            Token::BooleanAnd,
            Token::BooleanXor,
            Token::BooleanOr,
            Token::LShift,
            Token::RShift,
            Token::EOF,
        ]
    );
}

#[test]
fn test_strings() {
    assert_eq!(
        lex(r#""foo" "BaR" "bAZ" "Äpfel" "entrée" "I ❤ Coffee" "22" "5\'2\"" "10 \\ 5 = 5" "" "Straße""#),
        vec![
            string("foo"),
            string("BaR"),
            string("bAZ"),
            string("Äpfel"),
            string("entrée"),
            string("I ❤ Coffee"),
            string("22"),
            string("5\'2\""),
            string("10 \\ 5 = 5"),
            string(""),
            string("Straße"),
            Token::EOF,
        ]
    );
}

#[test]
fn test_char() {
    assert_eq!(
        lex(r#"'a' 'b' 'c' '❤' '\'' '\"' '\\' '8' 'ß'"#),
        vec![
            Token::CharLiteral('a'),
            Token::CharLiteral('b'),
            Token::CharLiteral('c'),
            Token::CharLiteral('❤'),
            Token::CharLiteral('\''),
            Token::CharLiteral('"'),
            Token::CharLiteral('\\'),
            Token::CharLiteral('8'),
            Token::CharLiteral('ß'),
            Token::EOF,
        ]
    );
}

#[test]
fn test_bool() {
    assert_eq!(
        lex("true false"),
        vec![Token::BoolLiteral(true), Token::BoolLiteral(false), Token::EOF]
    );
}

#[test]
fn test_numeric() {
    assert_eq!(
        lex("123 345 111111 -33 -5"),
        vec![
            Token::NumericLiteral(123),
            Token::NumericLiteral(345),
            Token::NumericLiteral(111111),
            Token::NumericLiteral(-33),
            Token::NumericLiteral(-5),
            Token::EOF,
        ]
    );
}

#[test]
fn test_decimal() {
    let tokens = lex("123.345 11.11 1.23 -1.11 -345.543");
    assert_eq!(
        tokens,
        vec![
            decimal("123.345"),
            decimal("11.11"),
            decimal("1.23"),
            decimal("-1.11"),
            decimal("-345.543"),
            Token::EOF,
        ]
    );
    assert_eq!(decimal_values(&tokens), vec![123.345, 11.11, 1.23, -1.11, -345.543]);
}

#[test]
fn test_illegal() {
    assert_eq!(
        lex(r#"" '' _"#),
        vec![Token::Illegal, Token::Illegal, Token::Illegal, Token::Illegal, Token::EOF]
    );
}

#[test]
fn test_empty() {
    assert_eq!(lex(""), vec![Token::EOF]);
}

#[test]
fn test_ident_names() {
    assert_eq!(
        lex("_test_ foo2bar bar__ __baz _4_fo0 _2foo4baz_"),
        vec![
            ident("_test_"),
            ident("foo2bar"),
            ident("bar__"),
            ident("__baz"),
            ident("_4_fo0"),
            ident("_2foo4baz_"),
            Token::EOF,
        ]
    );
}

#[test]
fn test_mixed_numbers() {
    let tokens = lex("11 1.34 -4 -2.2 88 4.4 -17 2 1.44");
    assert_eq!(
        tokens,
        vec![
            Token::NumericLiteral(11),
            decimal("1.34"),
            Token::NumericLiteral(-4),
            decimal("-2.2"),
            Token::NumericLiteral(88),
            decimal("4.4"),
            Token::NumericLiteral(-17),
            Token::NumericLiteral(2),
            decimal("1.44"),
            Token::EOF,
        ]
    );
    assert_eq!(decimal_values(&tokens), vec![1.34, -2.2, 4.4, 1.44]);
}

#[test]
fn test_mixed_logic_boolean_operators() {
    assert_eq!(
        lex("& && | || & | && |"),
        vec![
            Token::BooleanAnd,
            Token::LogicAnd,
            Token::BooleanOr,
            Token::LogicOr,
            Token::BooleanAnd,
            Token::BooleanOr,
            Token::LogicAnd,
            Token::BooleanOr,
            Token::EOF,
        ]
    );
}

#[test]
fn test_code_sequence1() {
    let tokens = lex(
        r#"
        fn foo(bar: baz) -> int {
            let a = 5 + 3;
            let b = a * 0.5;
            return b;
        }
        "#,
    );
    assert_eq!(
        tokens,
        vec![
            Token::Function,
            ident("foo"),
            Token::LParenthesis,
            ident("bar"),
            Token::Colon,
            ident("baz"),
            Token::RParenthesis,
            Token::FunctionReturn,
            ident("int"),
            Token::LBrace,
            Token::Let,
            ident("a"),
            Token::Assign,
            Token::NumericLiteral(5),
            Token::Plus,
            Token::NumericLiteral(3),
            Token::Semicolon,
            Token::Let,
            ident("b"),
            Token::Assign,
            ident("a"),
            Token::Mult,
            decimal("0.5"),
            Token::Semicolon,
            Token::Return,
            ident("b"),
            Token::Semicolon,
            Token::RBrace,
            Token::EOF,
        ]
    );
    assert_eq!(decimal_values(&tokens), vec![0.5]);
}

#[test]
fn test_code_sequence2() {
    let tokens = lex(
        r#"
        while(a >= 20) {
            a = a + 2.0;
            if (b/a <= 1.0) {
                break;
            }
        }
        "#,
    );
    assert_eq!(
        tokens,
        vec![
            Token::While,
            Token::LParenthesis,
            ident("a"),
            Token::GreaterThanEqual,
            Token::NumericLiteral(20),
            Token::RParenthesis,
            Token::LBrace,
            ident("a"),
            Token::Assign,
            ident("a"),
            Token::Plus,
            decimal("2.0"),
            Token::Semicolon,
            Token::If,
            Token::LParenthesis,
            ident("b"),
            Token::Div,
            ident("a"),
            Token::LessThanEqual,
            decimal("1.0"),
            Token::RParenthesis,
            Token::LBrace,
            Token::Break,
            Token::Semicolon,
            Token::RBrace,
            Token::RBrace,
            Token::EOF,
        ]
    );
    assert_eq!(decimal_values(&tokens), vec![2.0, 1.0]);
}

// longest match and priority

#[test]
fn logic_and_is_one_token() {
    assert_eq!(lex("&&"), vec![Token::LogicAnd, Token::EOF]);
    assert_eq!(lex("&&&"), vec![Token::LogicAnd, Token::BooleanAnd, Token::EOF]);
}

#[test]
fn equality_is_one_token() {
    assert_eq!(lex("=="), vec![Token::Equal, Token::EOF]);
    assert_eq!(lex("==="), vec![Token::Equal, Token::Assign, Token::EOF]);
}

#[test]
fn function_arrow_is_one_token() {
    assert_eq!(lex("->"), vec![Token::FunctionReturn, Token::EOF]);
    assert_eq!(lex("- >"), vec![Token::Minus, Token::GreaterThan, Token::EOF]);
}

#[test]
fn shifts_come_before_comparisons() {
    assert_eq!(lex("<<="), vec![Token::LShift, Token::Assign, Token::EOF]);
    assert_eq!(lex(">>="), vec![Token::RShift, Token::Assign, Token::EOF]);
    assert_eq!(lex("<="), vec![Token::LessThanEqual, Token::EOF]);
    assert_eq!(lex("**"), vec![Token::Exp, Token::EOF]);
    assert_eq!(lex("!="), vec![Token::NotEqual, Token::EOF]);
    assert_eq!(lex("[]"), vec![Token::LBracket, Token::RBracket, Token::EOF]);
}

// keywords and identifiers

#[test]
fn keyword_is_a_whole_word() {
    assert_eq!(lex("let"), vec![Token::Let, Token::EOF]);
    assert_eq!(lex("lettuce"), vec![ident("lettuce"), Token::EOF]);
    assert_eq!(lex("let_"), vec![ident("let_"), Token::EOF]);
    assert_eq!(lex("truely"), vec![ident("truely"), Token::EOF]);
}

#[test]
fn underscore_needs_a_letter_or_digit() {
    assert_eq!(lex("_x"), vec![ident("_x"), Token::EOF]);
    assert_eq!(lex("_"), vec![Token::Illegal, Token::EOF]);
    assert_eq!(lex("___"), vec![Token::Illegal, Token::Illegal, Token::Illegal, Token::EOF]);
    assert_eq!(lex("__9"), vec![ident("__9"), Token::EOF]);
}

// numbers

#[test]
fn numeric_disambiguation() {
    assert_eq!(lex("123"), vec![Token::NumericLiteral(123), Token::EOF]);
    assert_eq!(lex("-5"), vec![Token::NumericLiteral(-5), Token::EOF]);
    let tokens = lex("123.456 -5.5");
    assert_eq!(tokens, vec![decimal("123.456"), decimal("-5.5"), Token::EOF]);
    assert_eq!(decimal_values(&tokens), vec![123.456, -5.5]);
}

#[test]
fn point_without_digits_is_no_decimal() {
    assert_eq!(lex("123."), vec![Token::NumericLiteral(123), Token::Illegal, Token::EOF]);
    assert_eq!(lex(".5"), vec![Token::Illegal, Token::NumericLiteral(5), Token::EOF]);
    assert_eq!(
        lex("1.2.3"),
        vec![decimal("1.2"), Token::Illegal, Token::NumericLiteral(3), Token::EOF]
    );
}

#[test]
fn integer_limits() {
    assert_eq!(
        lex("9223372036854775807 -9223372036854775808 007"),
        vec![
            Token::NumericLiteral(i64::MAX),
            Token::NumericLiteral(i64::MIN),
            Token::NumericLiteral(7),
            Token::EOF,
        ]
    );
}

#[test]
fn integer_that_does_not_fit_is_no_literal() {
    // 9223372036854775808 is one more than the greatest 64-bit integer: the
    // first digit is left unrecognized, the other eighteen fit.
    assert_eq!(
        lex("9223372036854775808"),
        vec![Token::Illegal, Token::NumericLiteral(223372036854775808), Token::EOF]
    );
    assert_eq!(
        lex("-9223372036854775809"),
        vec![Token::Minus, Token::Illegal, Token::NumericLiteral(223372036854775809), Token::EOF]
    );
}

#[test]
fn minus_before_a_digit_is_a_sign() {
    assert_eq!(lex("a-5"), vec![ident("a"), Token::NumericLiteral(-5), Token::EOF]);
    assert_eq!(
        lex("a - 5"),
        vec![ident("a"), Token::Minus, Token::NumericLiteral(5), Token::EOF]
    );
}

// strings and characters

#[test]
fn string_escape_round_trip() {
    let tokens = Lexer::lexer_tokens(b"\"a\\\"b\"").1;
    assert_eq!(tokens, vec![string("a\"b"), Token::EOF]);
    match &tokens[0] {
        Token::StringLiteral(text) => assert_eq!(text.chars().count(), 3),
        _ => unreachable!(),
    }
}

#[test]
fn string_with_unknown_escape_is_no_literal() {
    assert_eq!(
        lex(r#""a\nb""#),
        vec![
            Token::Illegal,
            ident("a"),
            Token::Illegal,
            ident("nb"),
            Token::Illegal,
            Token::EOF,
        ]
    );
}

#[test]
fn string_that_is_not_utf8_is_no_literal() {
    assert_eq!(
        Lexer::lexer_tokens(&[b'"', 0xff, b'"']).1,
        vec![Token::Illegal, Token::Illegal, Token::Illegal, Token::EOF]
    );
}

#[test]
fn string_may_hold_the_other_quote() {
    assert_eq!(lex("\"it's\""), vec![string("it's"), Token::EOF]);
    assert_eq!(lex("'\"'"), vec![Token::CharLiteral('"'), Token::EOF]);
}

#[test]
fn control_byte_ends_a_literal_unrecognized() {
    assert_eq!(
        lex("\"a\nb\""),
        vec![Token::Illegal, ident("a"), ident("b"), Token::Illegal, Token::EOF]
    );
    assert_eq!(lex("'\t'"), vec![Token::Illegal, Token::Illegal, Token::EOF]);
    assert_eq!(
        Lexer::lexer_tokens(&[b'"', 0x7f, b'"']).1,
        vec![Token::Illegal, Token::Illegal, Token::Illegal, Token::EOF]
    );
}

#[test]
fn char_validation() {
    assert_eq!(lex("'a'"), vec![Token::CharLiteral('a'), Token::EOF]);
    assert_eq!(lex("''"), vec![Token::Illegal, Token::Illegal, Token::EOF]);
    assert_eq!(
        lex("'abcde'"),
        vec![Token::Illegal, ident("abcde"), Token::Illegal, Token::EOF]
    );
    assert_eq!(lex("'ab'"), vec![Token::Illegal, ident("ab"), Token::Illegal, Token::EOF]);
}

// whole inputs

#[test]
fn end_to_end_let_statement() {
    assert_eq!(
        lex("let a = 5 + 3;"),
        vec![
            Token::Let,
            ident("a"),
            Token::Assign,
            Token::NumericLiteral(5),
            Token::Plus,
            Token::NumericLiteral(3),
            Token::Semicolon,
            Token::EOF,
        ]
    );
}

#[test]
fn nothing_is_left_unread_but_an_input_without_tokens() {
    assert_eq!(Lexer::lexer_tokens(b"let a"), (&b""[..], vec![Token::Let, ident("a"), Token::EOF]));
    assert_eq!(Lexer::lexer_tokens(b" ; \t"), (&b""[..], vec![Token::Semicolon, Token::EOF]));
    assert_eq!(Lexer::lexer_tokens(b"@"), (&b""[..], vec![Token::Illegal, Token::EOF]));
    assert_eq!(Lexer::lexer_tokens(b""), (&b""[..], vec![Token::EOF]));
    assert_eq!(Lexer::lexer_tokens(b" \t\r\n"), (&b" \t\r\n"[..], vec![Token::EOF]));
}

#[test]
fn white_space_alone_gives_the_end_marker() {
    assert_eq!(lex(" \t\r\n "), vec![Token::EOF]);
    assert_eq!(lex("  ;  "), vec![Token::Semicolon, Token::EOF]);
}

#[test]
fn other_white_space_is_unrecognized() {
    assert_eq!(Lexer::lexer_tokens(&[0x0b]).1, vec![Token::Illegal, Token::EOF]);
    assert_eq!(Lexer::lexer_tokens(&[0x0c, b';']).1, vec![Token::Illegal, Token::Semicolon, Token::EOF]);
}

#[test]
fn end_marker_stands_last_and_only_there() {
    let inputs: Vec<&[u8]> = vec![b"", b"EOF", b"@#$", b"\xff\xfe", b"let x = 'y';", b"\"open"];
    for input in inputs {
        let tokens = Lexer::lexer_tokens(input).1;
        assert_eq!(tokens.last(), Some(&Token::EOF));
        assert_eq!(tokens.iter().filter(|t| **t == Token::EOF).count(), 1);
    }
}

#[test]
fn every_byte_alone_gives_one_token_or_none() {
    for b in 0u8..=255 {
        let tokens = Lexer::lexer_tokens(&[b]).1;
        let blank = b == b' ' || b == b'\t' || b == b'\r' || b == b'\n';
        assert_eq!(tokens.len(), if blank { 1 } else { 2 });
    }
}
