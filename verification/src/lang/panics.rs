//! The errors of the pipeline and the two that the tokenizer raises by position.

use super::token::TokenKind;
use vstd::prelude::*;

verus! {

/// What the tokenizer found where it could not go on.
#[derive(Clone, Copy, Debug, PartialEq, Eq, Structural)]
pub enum LexError {
    /// The input ended inside a token; `pos` is where it ended.
    UnexpectedEof { pos: u32 },
    /// The character `token` at `pos` starts no token.
    UnexpectedToken { token: char, pos: u32 },
    /// A second decimal point at `pos` in one number.
    InvalidNumber { pos: u32 },
}

/// A token that the grammar does not allow where it stands: the token's
/// index, its kind (the end-of-input kind where the tokens have run out) and
/// the kind that was required there, where one kind was.
#[derive(Clone, Copy, Debug, PartialEq, Eq, Structural)]
pub struct ParseError {
    pub pos: usize,
    pub found: TokenKind,
    pub expected: Option<TokenKind>,
}

/// Why a program was refused or its run was stopped. Nothing is recovered
/// from: the first failure ends the run.
#[derive(Clone, Copy, Debug, PartialEq, Eq, Structural)]
pub enum Error {
    /// The text is not a sequence of tokens.
    LexError(LexError),
    /// The tokens are not a program.
    ParseError(ParseError),
    /// A name declared twice in one scope, a name that was never declared,
    /// or a function that is not registered.
    NameError,
    /// An argument count that the function's arity policy refuses.
    ArityError,
    /// An argument or an operand of a kind that is not accepted.
    TypeError,
    /// A division by zero.
    ArithmeticError,
}

/// The error for input that ends at `pos` inside a token.
pub fn unexpected_eof(pos: &u32) -> (r: LexError)
    ensures
        r == (LexError::UnexpectedEof { pos: *pos }),
{
    LexError::UnexpectedEof { pos: *pos }
}

/// The error for the character `token` at `pos`, which starts no token.
pub fn unexpected_token(token: char, pos: &u32) -> (r: LexError)
    ensures
        r == (LexError::UnexpectedToken { token, pos: *pos }),
{
    LexError::UnexpectedToken { token, pos: *pos }
}

} // verus!
