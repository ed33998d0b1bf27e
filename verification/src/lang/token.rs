//! Tokens, their kinds and the mathematical model that contracts speak of.

use vstd::prelude::*;

verus! {

/// The kind of a token, without what it holds.
#[derive(Clone, Copy, Debug, PartialEq, Eq, Structural)]
pub enum TokenKind {
    Identifier,
    NumberLiteral,
    BoolLiteral,
    StringLiteral,
    LeftParen,
    RightParen,
    SemiColon,
    EqOp,
    NotEqOp,
    SubOp,
    AddOp,
    MulOp,
    DivOp,
    PowOp,
    GtOp,
    LtOp,
    NegationOp,
    LeftSqBrace,
    RightSqBrace,
    LeftCurlyBrace,
    RightCurlyBrace,
    Comma,
    EOF,
}

/// The smallest lexical unit. A number literal holds its spelling: digits
/// with at most one decimal point.
#[derive(Debug, PartialEq)]
#[allow(inconsistent_fields)]
pub enum Token {
    Identifier { value: String },
    NumberLiteral { value: String },
    BoolLiteral { value: bool },
    StringLiteral { value: String },
    LeftParen,
    RightParen,
    SemiColon,
    EqOp,
    NotEqOp,
    SubOp,
    AddOp,
    MulOp,
    DivOp,
    PowOp,
    GtOp,
    LtOp,
    NegationOp,
    LeftSqBrace,
    RightSqBrace,
    LeftCurlyBrace,
    RightCurlyBrace,
    Comma,
    EOF,
}

/// A token as a mathematical value: its kind, and what it holds where it
/// holds anything (`text` for identifiers, numbers and strings, `flag` for
/// booleans; empty and `false` otherwise).
pub struct TokenModel {
    pub kind: TokenKind,
    pub text: Seq<char>,
    pub flag: bool,
}

impl TokenModel {
    /// The model of a token that holds nothing.
    pub open spec fn mark(kind: TokenKind) -> TokenModel {
        TokenModel { kind, text: Seq::empty(), flag: false }
    }

    /// The model of an identifier, a number or a string with the given text.
    pub open spec fn word(kind: TokenKind, text: Seq<char>) -> TokenModel {
        TokenModel { kind, text, flag: false }
    }

    /// The model of a boolean literal.
    pub open spec fn truth(flag: bool) -> TokenModel {
        TokenModel { kind: TokenKind::BoolLiteral, text: Seq::empty(), flag }
    }
}

impl Token {
    /// The kind of the token, as a specification.
    pub open spec fn spec_kind(&self) -> TokenKind {
        match *self {
            Token::Identifier { .. } => TokenKind::Identifier,
            Token::NumberLiteral { .. } => TokenKind::NumberLiteral,
            Token::BoolLiteral { .. } => TokenKind::BoolLiteral,
            Token::StringLiteral { .. } => TokenKind::StringLiteral,
            Token::LeftParen => TokenKind::LeftParen,
            Token::RightParen => TokenKind::RightParen,
            Token::SemiColon => TokenKind::SemiColon,
            Token::EqOp => TokenKind::EqOp,
            Token::NotEqOp => TokenKind::NotEqOp,
            Token::SubOp => TokenKind::SubOp,
            Token::AddOp => TokenKind::AddOp,
            Token::MulOp => TokenKind::MulOp,
            Token::DivOp => TokenKind::DivOp,
            Token::PowOp => TokenKind::PowOp,
            Token::GtOp => TokenKind::GtOp,
            Token::LtOp => TokenKind::LtOp,
            Token::NegationOp => TokenKind::NegationOp,
            Token::LeftSqBrace => TokenKind::LeftSqBrace,
            Token::RightSqBrace => TokenKind::RightSqBrace,
            Token::LeftCurlyBrace => TokenKind::LeftCurlyBrace,
            Token::RightCurlyBrace => TokenKind::RightCurlyBrace,
            Token::Comma => TokenKind::Comma,
            Token::EOF => TokenKind::EOF,
        }
    }

    /// The kind of the token.
    #[verifier::when_used_as_spec(spec_kind)]
    pub fn kind(&self) -> (r: TokenKind)
        ensures
            r == self.spec_kind(),
    {
        match self {
            Token::Identifier { .. } => TokenKind::Identifier,
            Token::NumberLiteral { .. } => TokenKind::NumberLiteral,
            Token::BoolLiteral { .. } => TokenKind::BoolLiteral,
            Token::StringLiteral { .. } => TokenKind::StringLiteral,
            Token::LeftParen => TokenKind::LeftParen,
            Token::RightParen => TokenKind::RightParen,
            Token::SemiColon => TokenKind::SemiColon,
            Token::EqOp => TokenKind::EqOp,
            Token::NotEqOp => TokenKind::NotEqOp,
            Token::SubOp => TokenKind::SubOp,
            Token::AddOp => TokenKind::AddOp,
            Token::MulOp => TokenKind::MulOp,
            Token::DivOp => TokenKind::DivOp,
            Token::PowOp => TokenKind::PowOp,
            Token::GtOp => TokenKind::GtOp,
            Token::LtOp => TokenKind::LtOp,
            Token::NegationOp => TokenKind::NegationOp,
            Token::LeftSqBrace => TokenKind::LeftSqBrace,
            Token::RightSqBrace => TokenKind::RightSqBrace,
            Token::LeftCurlyBrace => TokenKind::LeftCurlyBrace,
            Token::RightCurlyBrace => TokenKind::RightCurlyBrace,
            Token::Comma => TokenKind::Comma,
            Token::EOF => TokenKind::EOF,
        }
    }

    /// The text of an identifier or of a string literal.
    pub fn as_string(&self) -> (r: String)
        requires
            self.spec_kind() == TokenKind::Identifier || self.spec_kind()
                == TokenKind::StringLiteral,
        ensures
            r@ == self@.text,
    {
        match self {
            Token::Identifier { value } => value.clone(),
            Token::StringLiteral { value } => value.clone(),
            _ => String::new(),
        }
    }

    /// The spelling of a number literal.
    pub fn as_f32(&self) -> (r: String)
        requires
            self.spec_kind() == TokenKind::NumberLiteral,
        ensures
            r@ == self@.text,
    {
        match self {
            Token::NumberLiteral { value } => value.clone(),
            _ => String::new(),
        }
    }

    /// The value of a boolean literal.
    pub fn as_bool(&self) -> (r: bool)
        requires
            self.spec_kind() == TokenKind::BoolLiteral,
        ensures
            r == self@.flag,
    {
        match self {
            Token::BoolLiteral { value } => *value,
            _ => false,
        }
    }
}

impl View for Token {
    type V = TokenModel;

    open spec fn view(&self) -> TokenModel {
        match *self {
            Token::Identifier { value } => TokenModel::word(TokenKind::Identifier, value@),
            Token::NumberLiteral { value } => TokenModel::word(TokenKind::NumberLiteral, value@),
            Token::StringLiteral { value } => TokenModel::word(TokenKind::StringLiteral, value@),
            Token::BoolLiteral { value } => TokenModel::truth(value),
            _ => TokenModel::mark(self.spec_kind()),
        }
    }
}

impl Clone for Token {
    fn clone(&self) -> (r: Self)
        ensures
            r == *self,
    {
        match self {
            Token::Identifier { value } => Token::Identifier { value: value.clone() },
            Token::NumberLiteral { value } => Token::NumberLiteral { value: value.clone() },
            Token::BoolLiteral { value } => Token::BoolLiteral { value: *value },
            Token::StringLiteral { value } => Token::StringLiteral { value: value.clone() },
            Token::LeftParen => Token::LeftParen,
            Token::RightParen => Token::RightParen,
            Token::SemiColon => Token::SemiColon,
            Token::EqOp => Token::EqOp,
            Token::NotEqOp => Token::NotEqOp,
            Token::SubOp => Token::SubOp,
            Token::AddOp => Token::AddOp,
            Token::MulOp => Token::MulOp,
            Token::DivOp => Token::DivOp,
            Token::PowOp => Token::PowOp,
            Token::GtOp => Token::GtOp,
            Token::LtOp => Token::LtOp,
            Token::NegationOp => Token::NegationOp,
            Token::LeftSqBrace => Token::LeftSqBrace,
            Token::RightSqBrace => Token::RightSqBrace,
            Token::LeftCurlyBrace => Token::LeftCurlyBrace,
            Token::RightCurlyBrace => Token::RightCurlyBrace,
            Token::Comma => Token::Comma,
            Token::EOF => Token::EOF,
        }
    }
}

} // verus!
