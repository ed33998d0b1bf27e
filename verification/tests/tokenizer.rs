use scriptlet::lang::panics::{unexpected_eof, unexpected_token, LexError};
use scriptlet::lang::reg_exp::{classify, TokenRegEx};
use scriptlet::lang::token::{Token, TokenKind};
use scriptlet::lang::tokenizer::{scan, Tokenizer};

fn tokens(text: &str) -> Result<Vec<Token>, LexError> {
    Tokenizer::new(text).tokenize()
}

fn ident(text: &str) -> Token {
    Token::Identifier { value: text.to_string() }
}

fn number(text: &str) -> Token {
    Token::NumberLiteral { value: text.to_string() }
}

fn string(text: &str) -> Token {
    Token::StringLiteral { value: text.to_string() }
}

#[test]
fn empty_text_is_the_end_token_alone() {
    assert_eq!(tokens(""), Ok(vec![Token::EOF]));
    assert_eq!(tokens("  \t\n "), Ok(vec![Token::EOF]));
}

#[test]
fn declaration_is_five_tokens_and_the_end() {
    assert_eq!(
        tokens("let x = 4;"),
        Ok(vec![ident("let"), ident("x"), Token::EqOp, number("4"), Token::SemiColon, Token::EOF])
    );
}

#[test]
fn demo_line_of_the_program() {
    assert_eq!(
        tokens("hola como estas true false 16 5 \"un string literal\""),
        Ok(vec![
            ident("hola"),
            ident("como"),
            ident("estas"),
            Token::BoolLiteral { value: true },
            Token::BoolLiteral { value: false },
            number("16"),
            number("5"),
            string("un string literal"),
            Token::EOF,
        ])
    );
}

#[test]
fn white_space_around_and_between_tokens_is_passed_over() {
    assert_eq!(tokens("  a\t+\n b \r\n"), Ok(vec![ident("a"), Token::AddOp, ident("b"), Token::EOF]));
}

#[test]
fn identifiers_are_runs_of_letters() {
    assert_eq!(tokens("ab1"), Ok(vec![ident("ab"), number("1"), Token::EOF]));
    assert_eq!(tokens("truely"), Ok(vec![ident("truely"), Token::EOF]));
    assert_eq!(tokens("True"), Ok(vec![ident("True"), Token::EOF]));
    assert_eq!(tokens("if"), Ok(vec![ident("if"), Token::EOF]));
}

#[test]
fn numbers_hold_their_spelling() {
    assert_eq!(tokens("3.25"), Ok(vec![number("3.25"), Token::EOF]));
    assert_eq!(tokens(".5"), Ok(vec![number(".5"), Token::EOF]));
    assert_eq!(tokens("7."), Ok(vec![number("7."), Token::EOF]));
    assert_eq!(tokens("007"), Ok(vec![number("007"), Token::EOF]));
}

#[test]
fn second_decimal_point_is_refused_where_it_stands() {
    assert_eq!(tokens("1.2.3"), Err(LexError::InvalidNumber { pos: 3 }));
    assert_eq!(tokens("x = 1..2"), Err(LexError::InvalidNumber { pos: 6 }));
}

#[test]
fn decimal_point_without_a_digit_is_refused() {
    assert_eq!(tokens("."), Err(LexError::UnexpectedToken { token: '.', pos: 0 }));
    assert_eq!(tokens("a .b"), Err(LexError::UnexpectedToken { token: '.', pos: 2 }));
}

#[test]
fn strings_end_at_the_quote_that_opened_them() {
    assert_eq!(tokens("'it is \"so\"'"), Ok(vec![string("it is \"so\""), Token::EOF]));
    assert_eq!(tokens("\"don't\""), Ok(vec![string("don't"), Token::EOF]));
    assert_eq!(tokens("''"), Ok(vec![string(""), Token::EOF]));
    assert_eq!(tokens("\"a\\\""), Ok(vec![string("a\\"), Token::EOF]));
}

#[test]
fn string_without_its_closing_quote_is_refused_at_the_end() {
    assert_eq!(tokens("\"abc"), Err(LexError::UnexpectedEof { pos: 4 }));
    assert_eq!(tokens("x = 'abc\""), Err(LexError::UnexpectedEof { pos: 9 }));
}

#[test]
fn unknown_character_is_refused_where_it_stands() {
    assert_eq!(tokens("a @ b"), Err(LexError::UnexpectedToken { token: '@', pos: 2 }));
    assert_eq!(tokens("a_b"), Err(LexError::UnexpectedToken { token: '_', pos: 1 }));
    assert_eq!(tokens("  #"), Err(LexError::UnexpectedToken { token: '#', pos: 2 }));
}

#[test]
fn negation_joins_an_equals_sign_that_follows_at_once() {
    assert_eq!(tokens("a != b"), Ok(vec![ident("a"), Token::NotEqOp, ident("b"), Token::EOF]));
    assert_eq!(tokens("! = b"), Ok(vec![Token::NegationOp, Token::EqOp, ident("b"), Token::EOF]));
    assert_eq!(tokens("!"), Ok(vec![Token::NegationOp, Token::EOF]));
    assert_eq!(tokens("=="), Ok(vec![Token::EqOp, Token::EqOp, Token::EOF]));
}

#[test]
fn every_mark_is_one_token() {
    assert_eq!(
        tokens("(){}[];,=+-*/^><"),
        Ok(vec![
            Token::LeftParen,
            Token::RightParen,
            Token::LeftCurlyBrace,
            Token::RightCurlyBrace,
            Token::LeftSqBrace,
            Token::RightSqBrace,
            Token::SemiColon,
            Token::Comma,
            Token::EqOp,
            Token::AddOp,
            Token::SubOp,
            Token::MulOp,
            Token::DivOp,
            Token::PowOp,
            Token::GtOp,
            Token::LtOp,
            Token::EOF,
        ])
    );
}

#[test]
fn text_with_letters_beyond_ascii_in_a_string() {
    assert_eq!(tokens("\"é\" x"), Ok(vec![string("é"), ident("x"), Token::EOF]));
    assert_eq!(tokens("é"), Err(LexError::UnexpectedToken { token: 'é', pos: 0 }));
}

#[test]
fn scan_reads_the_classes_it_is_given() {
    let text = "ab 1";
    let classes: Vec<Option<TokenRegEx>> =
        vec![Some(TokenRegEx::Char), Some(TokenRegEx::Char), Some(TokenRegEx::EmptySpace), Some(TokenRegEx::Number)];
    assert_eq!(scan(text, classes), Ok(vec![ident("ab"), number("1"), Token::EOF]));
    let odd: Vec<Option<TokenRegEx>> =
        vec![Some(TokenRegEx::Number), Some(TokenRegEx::Number), None, Some(TokenRegEx::Char)];
    assert_eq!(scan(text, odd), Err(LexError::UnexpectedToken { token: ' ', pos: 2 }));
}

#[test]
fn tokenize_agrees_with_scan_on_the_classes_of_the_text() {
    let text = "let s = 'a b' + 2.5;";
    let classes: Vec<Option<TokenRegEx>> = text.chars().map(|c| classify(&c.to_string())).collect();
    assert_eq!(tokens(text), scan(text, classes));
}

#[test]
fn kinds_and_contents_of_tokens() {
    assert_eq!(ident("x").kind(), TokenKind::Identifier);
    assert_eq!(number("1").kind(), TokenKind::NumberLiteral);
    assert_eq!(string("s").kind(), TokenKind::StringLiteral);
    assert_eq!(Token::BoolLiteral { value: true }.kind(), TokenKind::BoolLiteral);
    assert_eq!(Token::NotEqOp.kind(), TokenKind::NotEqOp);
    assert_eq!(Token::EOF.kind(), TokenKind::EOF);
    assert_eq!(ident("x").as_string(), "x");
    assert_eq!(string("s t").as_string(), "s t");
    assert_eq!(number("1.5").as_f32(), "1.5");
    assert_eq!(Token::BoolLiteral { value: true }.as_bool(), true);
    assert_eq!(ident("x").clone(), ident("x"));
}

#[test]
fn errors_by_position() {
    assert_eq!(unexpected_eof(&7), LexError::UnexpectedEof { pos: 7 });
    assert_eq!(unexpected_token('@', &3), LexError::UnexpectedToken { token: '@', pos: 3 });
}
