use scriptlet::lang::reg_exp::{classify, TokenRegEx};

#[test]
fn test_reg_ex_empty_space() {
    let space = TokenRegEx::EmptySpace.test(" ");
    let tab = TokenRegEx::EmptySpace.test("\t");
    let new_line = TokenRegEx::EmptySpace.test("\n");
    let character = TokenRegEx::EmptySpace.test("hello");
    let decimal_point = TokenRegEx::DecimalPoint.test(".");
    assert_eq!(space, true);
    assert_eq!(tab, true);
    assert_eq!(new_line, true);
    assert_eq!(character, false);
    assert_eq!(decimal_point, true);
}

#[test]
fn each_class_accepts_its_own_characters() {
    let cases = vec![
        (TokenRegEx::EmptySpace, "\r"),
        (TokenRegEx::Char, "q"),
        (TokenRegEx::Char, "Q"),
        (TokenRegEx::Number, "7"),
        (TokenRegEx::SimpleQuote, "'"),
        (TokenRegEx::DoubleQuote, "\""),
        (TokenRegEx::SemiColon, ";"),
        (TokenRegEx::LeftParen, "("),
        (TokenRegEx::RightParen, ")"),
        (TokenRegEx::EqOp, "="),
        (TokenRegEx::AddOp, "+"),
        (TokenRegEx::SubOp, "-"),
        (TokenRegEx::DivOp, "/"),
        (TokenRegEx::MulOp, "*"),
        (TokenRegEx::PowOp, "^"),
        (TokenRegEx::NegationOp, "!"),
        (TokenRegEx::GtOp, ">"),
        (TokenRegEx::LtOp, "<"),
        (TokenRegEx::LeftSqBrace, "["),
        (TokenRegEx::RightSqBrace, "]"),
        (TokenRegEx::LeftCurlyBrace, "{"),
        (TokenRegEx::RightCurlyBrace, "}"),
        (TokenRegEx::Comma, ","),
        (TokenRegEx::DecimalPoint, "."),
    ];
    for (class, text) in cases {
        assert!(class.test(text), "{:?} refuses {:?}", class, text);
        assert_eq!(classify(text), Some(class));
    }
}

#[test]
fn classes_refuse_other_characters() {
    assert!(!TokenRegEx::Char.test("1"));
    assert!(!TokenRegEx::Char.test("_"));
    assert!(!TokenRegEx::Number.test("a"));
    assert!(!TokenRegEx::DecimalPoint.test("x"));
    assert!(!TokenRegEx::AddOp.test("-"));
    assert!(!TokenRegEx::LeftSqBrace.test("]"));
    assert_eq!(classify("@"), None);
    assert_eq!(classify("_"), None);
    assert_eq!(classify("#"), None);
}

#[test]
fn a_class_accepts_a_text_that_holds_one_of_its_characters() {
    assert!(TokenRegEx::Number.test("ab3"));
    assert!(!TokenRegEx::Number.test("abc"));
    assert!(!TokenRegEx::Number.test(""));
}
