//! The lexical classifier: one regular expression per character class.

use regex::Regex;
use vstd::prelude::*;

verus! {

/// The verdict of the regular-expression engine on a pattern and a haystack:
/// `None` where the pattern does not compile, otherwise whether the pattern
/// matches anywhere in the haystack.
pub uninterp spec fn regex_match(pattern: Seq<char>, haystack: Seq<char>) -> Option<bool>;

/// Calls `regex::Regex::new` on `pattern` and, where that compiles,
/// `Regex::is_match` on `haystack`. Both depend on their arguments alone, so
/// the outcome is the named verdict; nothing more is claimed of it.
#[verifier::external_body]
fn regex_is_match(pattern: &str, haystack: &str) -> (r: Option<bool>)
    ensures
        r == regex_match(pattern@, haystack@),
{
    match Regex::new(pattern) {
        Ok(re) => Some(re.is_match(haystack)),
        Err(_) => None,
    }
}

/// The character classes that the tokenizer tells apart.
#[derive(Clone, Copy, Debug, PartialEq, Eq, Structural)]
pub enum TokenRegEx {
    EmptySpace,
    Char,
    Number,
    SimpleQuote,
    DoubleQuote,
    SemiColon,
    LeftParen,
    RightParen,
    EqOp,
    AddOp,
    SubOp,
    DivOp,
    MulOp,
    PowOp,
    NegationOp,
    GtOp,
    LtOp,
    LeftSqBrace,
    RightSqBrace,
    LeftCurlyBrace,
    RightCurlyBrace,
    Comma,
    DecimalPoint,
}

impl TokenRegEx {
    /// The pattern that stands for the class.
    pub open spec fn pattern(self) -> Seq<char> {
        match self {
            TokenRegEx::EmptySpace => "[\\s\\t\\n\\r]"@,
            TokenRegEx::Char => "[a-zA-Z]"@,
            TokenRegEx::Number => "[0-9]"@,
            TokenRegEx::SimpleQuote => "[']"@,
            TokenRegEx::DoubleQuote => "[\"]"@,
            TokenRegEx::SemiColon => "[;]"@,
            TokenRegEx::LeftParen => "[(]"@,
            TokenRegEx::RightParen => "[)]"@,
            TokenRegEx::EqOp => "[\\=]"@,
            TokenRegEx::AddOp => "[\\+]"@,
            TokenRegEx::SubOp => "[\\-]"@,
            TokenRegEx::DivOp => "[\\/]"@,
            TokenRegEx::MulOp => "[\\*]"@,
            TokenRegEx::PowOp => "[\\^]"@,
            TokenRegEx::GtOp => "[>]"@,
            TokenRegEx::LtOp => "[<]"@,
            TokenRegEx::NegationOp => "[\\!]"@,
            TokenRegEx::LeftSqBrace => "[\\[]"@,
            TokenRegEx::RightSqBrace => "[\\]]"@,
            TokenRegEx::LeftCurlyBrace => "[\\{]"@,
            TokenRegEx::RightCurlyBrace => "[\\}]"@,
            TokenRegEx::Comma => "[\\,]"@,
            TokenRegEx::DecimalPoint => "[\\.]"@,
        }
    }

    /// Whether the class accepts `value`: its pattern compiles and matches
    /// somewhere in `value`.
    pub open spec fn accepts(self, value: Seq<char>) -> bool {
        regex_match(self.pattern(), value) == Some(true)
    }

    fn pattern_text(&self) -> (r: &'static str)
        ensures
            r@ == self.pattern(),
    {
        match self {
            TokenRegEx::EmptySpace => "[\\s\\t\\n\\r]",
            TokenRegEx::Char => "[a-zA-Z]",
            TokenRegEx::Number => "[0-9]",
            TokenRegEx::SimpleQuote => "[']",
            TokenRegEx::DoubleQuote => "[\"]",
            TokenRegEx::SemiColon => "[;]",
            TokenRegEx::LeftParen => "[(]",
            TokenRegEx::RightParen => "[)]",
            TokenRegEx::EqOp => "[\\=]",
            TokenRegEx::AddOp => "[\\+]",
            TokenRegEx::SubOp => "[\\-]",
            TokenRegEx::DivOp => "[\\/]",
            TokenRegEx::MulOp => "[\\*]",
            TokenRegEx::PowOp => "[\\^]",
            TokenRegEx::GtOp => "[>]",
            TokenRegEx::LtOp => "[<]",
            TokenRegEx::NegationOp => "[\\!]",
            TokenRegEx::LeftSqBrace => "[\\[]",
            TokenRegEx::RightSqBrace => "[\\]]",
            TokenRegEx::LeftCurlyBrace => "[\\{]",
            TokenRegEx::RightCurlyBrace => "[\\}]",
            TokenRegEx::Comma => "[\\,]",
            TokenRegEx::DecimalPoint => "[\\.]",
        }
    }

    /// Tests `value` against the class.
    pub fn test(&self, value: &str) -> (r: bool)
        ensures
            r == self.accepts(value@),
    {
        match regex_is_match(self.pattern_text(), value) {
            Some(found) => found,
            None => false,
        }
    }
}

/// The class of `value`: the first class, in the order in which the tokenizer
/// asks, that accepts it; `None` where no class does.
pub open spec fn spec_classify(value: Seq<char>) -> Option<TokenRegEx> {
    if TokenRegEx::EmptySpace.accepts(value) {
        Some(TokenRegEx::EmptySpace)
    } else if TokenRegEx::Char.accepts(value) {
        Some(TokenRegEx::Char)
    } else if TokenRegEx::Number.accepts(value) {
        Some(TokenRegEx::Number)
    } else if TokenRegEx::DecimalPoint.accepts(value) {
        Some(TokenRegEx::DecimalPoint)
    } else if TokenRegEx::SimpleQuote.accepts(value) {
        Some(TokenRegEx::SimpleQuote)
    } else if TokenRegEx::DoubleQuote.accepts(value) {
        Some(TokenRegEx::DoubleQuote)
    } else if TokenRegEx::SemiColon.accepts(value) {
        Some(TokenRegEx::SemiColon)
    } else if TokenRegEx::LeftParen.accepts(value) {
        Some(TokenRegEx::LeftParen)
    } else if TokenRegEx::RightParen.accepts(value) {
        Some(TokenRegEx::RightParen)
    } else if TokenRegEx::LeftSqBrace.accepts(value) {
        Some(TokenRegEx::LeftSqBrace)
    } else if TokenRegEx::RightSqBrace.accepts(value) {
        Some(TokenRegEx::RightSqBrace)
    } else if TokenRegEx::LeftCurlyBrace.accepts(value) {
        Some(TokenRegEx::LeftCurlyBrace)
    } else if TokenRegEx::RightCurlyBrace.accepts(value) {
        Some(TokenRegEx::RightCurlyBrace)
    } else if TokenRegEx::EqOp.accepts(value) {
        Some(TokenRegEx::EqOp)
    } else if TokenRegEx::NegationOp.accepts(value) {
        Some(TokenRegEx::NegationOp)
    } else if TokenRegEx::AddOp.accepts(value) {
        Some(TokenRegEx::AddOp)
    } else if TokenRegEx::SubOp.accepts(value) {
        Some(TokenRegEx::SubOp)
    } else if TokenRegEx::MulOp.accepts(value) {
        Some(TokenRegEx::MulOp)
    } else if TokenRegEx::DivOp.accepts(value) {
        Some(TokenRegEx::DivOp)
    } else if TokenRegEx::PowOp.accepts(value) {
        Some(TokenRegEx::PowOp)
    } else if TokenRegEx::GtOp.accepts(value) {
        Some(TokenRegEx::GtOp)
    } else if TokenRegEx::LtOp.accepts(value) {
        Some(TokenRegEx::LtOp)
    } else if TokenRegEx::Comma.accepts(value) {
        Some(TokenRegEx::Comma)
    } else {
        None
    }
}

/// Finds the class of `value`.
pub fn classify(value: &str) -> (r: Option<TokenRegEx>)
    ensures
        r == spec_classify(value@),
{
    if TokenRegEx::EmptySpace.test(value) {
        Some(TokenRegEx::EmptySpace)
    } else if TokenRegEx::Char.test(value) {
        Some(TokenRegEx::Char)
    } else if TokenRegEx::Number.test(value) {
        Some(TokenRegEx::Number)
    } else if TokenRegEx::DecimalPoint.test(value) {
        Some(TokenRegEx::DecimalPoint)
    } else if TokenRegEx::SimpleQuote.test(value) {
        Some(TokenRegEx::SimpleQuote)
    } else if TokenRegEx::DoubleQuote.test(value) {
        Some(TokenRegEx::DoubleQuote)
    } else if TokenRegEx::SemiColon.test(value) {
        Some(TokenRegEx::SemiColon)
    } else if TokenRegEx::LeftParen.test(value) {
        Some(TokenRegEx::LeftParen)
    } else if TokenRegEx::RightParen.test(value) {
        Some(TokenRegEx::RightParen)
    } else if TokenRegEx::LeftSqBrace.test(value) {
        Some(TokenRegEx::LeftSqBrace)
    } else if TokenRegEx::RightSqBrace.test(value) {
        Some(TokenRegEx::RightSqBrace)
    } else if TokenRegEx::LeftCurlyBrace.test(value) {
        Some(TokenRegEx::LeftCurlyBrace)
    } else if TokenRegEx::RightCurlyBrace.test(value) {
        Some(TokenRegEx::RightCurlyBrace)
    } else if TokenRegEx::EqOp.test(value) {
        Some(TokenRegEx::EqOp)
    } else if TokenRegEx::NegationOp.test(value) {
        Some(TokenRegEx::NegationOp)
    } else if TokenRegEx::AddOp.test(value) {
        Some(TokenRegEx::AddOp)
    } else if TokenRegEx::SubOp.test(value) {
        Some(TokenRegEx::SubOp)
    } else if TokenRegEx::MulOp.test(value) {
        Some(TokenRegEx::MulOp)
    } else if TokenRegEx::DivOp.test(value) {
        Some(TokenRegEx::DivOp)
    } else if TokenRegEx::PowOp.test(value) {
        Some(TokenRegEx::PowOp)
    } else if TokenRegEx::GtOp.test(value) {
        Some(TokenRegEx::GtOp)
    } else if TokenRegEx::LtOp.test(value) {
        Some(TokenRegEx::LtOp)
    } else if TokenRegEx::Comma.test(value) {
        Some(TokenRegEx::Comma)
    } else {
        None
    }
}

} // verus!
