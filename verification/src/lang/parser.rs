//! The parser: recursive descent from tokens to syntax trees.
//!
//! The grammar, from the loosest binding to the tightest: comparison (`>`,
//! `<`), sum (`+`, `-`), product (`*`), power (`^`), primary. Every operator
//! associates to the left. The grammar is stated as specification functions
//! from a position in the tokens to a tree and the position behind it; the
//! parser's methods are proved to compute exactly these.

use super::ast::{nodes, ASTNode, Node};
use super::panics::{LexError, ParseError};
use super::token::{Token, TokenKind, TokenModel};
use super::tokenizer::{models, spec_tokenize, Tokenizer};
use vstd::prelude::*;

verus! {

/// A tree with the position behind it, or the error that stopped the parse.
pub type Parsed = Result<(Node, int), ParseError>;

/// Several trees with the position behind them, or the error.
pub type ParsedList = Result<(Seq<Node>, int), ParseError>;

/// The kind of the token at `pos`; beyond the tokens, the end-of-input kind.
pub open spec fn kind_at(t: Seq<TokenModel>, pos: int) -> TokenKind {
    if 0 <= pos < t.len() {
        t[pos].kind
    } else {
        TokenKind::EOF
    }
}

/// The text of the token at `pos`.
pub open spec fn text_at(t: Seq<TokenModel>, pos: int) -> Seq<char> {
    if 0 <= pos < t.len() {
        t[pos].text
    } else {
        Seq::empty()
    }
}

/// The error for the token at `pos`, where `expected` was required.
pub open spec fn unexpected(t: Seq<TokenModel>, pos: int, expected: Option<TokenKind>) -> ParseError {
    ParseError { pos: pos as usize, found: kind_at(t, pos), expected }
}

/// `r`, where it ends behind `from` and within the tokens. Every parse
/// consumes a token, so no parse fails this test (see
/// `lemma_statement_advances`); it is what makes the grammar's recursion
/// well-founded.
pub open spec fn forward(t: Seq<TokenModel>, from: int, r: Parsed) -> Parsed {
    match r {
        Ok((node, next)) => if 0 <= from < next <= t.len() {
            r
        } else {
            Err(unexpected(t, next, None))
        },
        Err(e) => Err(e),
    }
}

/// A binary expression.
pub open spec fn binary(left: Node, right: Node, operator: char) -> Node {
    Node::Binary(Box::new(left), Box::new(right), operator)
}

/// Whether a token of this kind can start an expression statement.
pub open spec fn starts_expr(kind: TokenKind) -> bool {
    kind == TokenKind::NumberLiteral || kind == TokenKind::StringLiteral || kind
        == TokenKind::BoolLiteral || kind == TokenKind::LeftParen || kind == TokenKind::Identifier
        || kind == TokenKind::SubOp || kind == TokenKind::AddOp
}

/// A primary expression at `pos`: a parenthesized comparison, a literal, a
/// signed primary, a declaration, a call, an assignment or a name.
#[verifier::opaque]
pub open spec fn primary(t: Seq<TokenModel>, pos: int) -> Parsed
    decreases t.len() - pos, 3int,
{
    match kind_at(t, pos) {
        TokenKind::LeftParen => match comparison(t, pos + 1) {
            Ok((node, next)) => if kind_at(t, next) == TokenKind::RightParen {
                Ok((node, next + 1))
            } else {
                Err(unexpected(t, next, Some(TokenKind::RightParen)))
            },
            Err(e) => Err(e),
        },
        TokenKind::NumberLiteral => Ok((Node::Number(text_at(t, pos)), pos + 1)),
        TokenKind::BoolLiteral => Ok((Node::Bool(t[pos].flag), pos + 1)),
        TokenKind::StringLiteral => Ok((Node::Text(text_at(t, pos)), pos + 1)),
        TokenKind::SubOp | TokenKind::AddOp => unary(t, pos),
        TokenKind::Identifier => if text_at(t, pos) == "let"@ {
            declaration(t, pos)
        } else {
            reference(t, pos)
        },
        _ => Err(unexpected(t, pos, None)),
    }
}

/// What a leading name other than a keyword starts: a call where `(`
/// follows, an assignment where `=` follows, else a reference to the name.
#[verifier::opaque]
pub open spec fn reference(t: Seq<TokenModel>, pos: int) -> Parsed
    decreases t.len() - pos, 2int,
{
    if kind_at(t, pos + 1) == TokenKind::LeftParen {
        call(t, pos)
    } else if kind_at(t, pos + 1) == TokenKind::EqOp {
        assignment(t, pos)
    } else {
        Ok((Node::Identifier(text_at(t, pos)), pos + 1))
    }
}

/// A sign and the primary that it applies to.
#[verifier::opaque]
pub open spec fn unary(t: Seq<TokenModel>, pos: int) -> Parsed
    decreases t.len() - pos, 2int,
{
    if kind_at(t, pos) == TokenKind::SubOp || kind_at(t, pos) == TokenKind::AddOp {
        let sign = if kind_at(t, pos) == TokenKind::SubOp {
            '-'
        } else {
            '+'
        };
        match primary(t, pos + 1) {
            Ok((node, next)) => Ok((Node::Unary(sign, Box::new(node)), next)),
            Err(e) => Err(e),
        }
    } else {
        Err(unexpected(t, pos, None))
    }
}

/// `let`, a name, `=` and a sum.
#[verifier::opaque]
pub open spec fn declaration(t: Seq<TokenModel>, pos: int) -> Parsed
    decreases t.len() - pos, 1int,
{
    if kind_at(t, pos) != TokenKind::Identifier {
        Err(unexpected(t, pos, Some(TokenKind::Identifier)))
    } else if kind_at(t, pos + 1) != TokenKind::Identifier {
        Err(unexpected(t, pos + 1, Some(TokenKind::Identifier)))
    } else if kind_at(t, pos + 2) != TokenKind::EqOp {
        Err(unexpected(t, pos + 2, Some(TokenKind::EqOp)))
    } else {
        match sum(t, pos + 3) {
            Ok((value, next)) => Ok((Node::Declare(text_at(t, pos + 1), Box::new(value)), next)),
            Err(e) => Err(e),
        }
    }
}

/// A name, `=` and a sum.
#[verifier::opaque]
pub open spec fn assignment(t: Seq<TokenModel>, pos: int) -> Parsed
    decreases t.len() - pos, 1int,
{
    if kind_at(t, pos) != TokenKind::Identifier {
        Err(unexpected(t, pos, Some(TokenKind::Identifier)))
    } else if kind_at(t, pos + 1) != TokenKind::EqOp {
        Err(unexpected(t, pos + 1, Some(TokenKind::EqOp)))
    } else {
        match sum(t, pos + 2) {
            Ok((value, next)) => Ok((Node::Assign(text_at(t, pos), Box::new(value)), next)),
            Err(e) => Err(e),
        }
    }
}

/// A name, `(`, the arguments and `)`.
#[verifier::opaque]
pub open spec fn call(t: Seq<TokenModel>, pos: int) -> Parsed
    decreases t.len() - pos, 1int,
{
    if kind_at(t, pos) != TokenKind::Identifier {
        Err(unexpected(t, pos, Some(TokenKind::Identifier)))
    } else if kind_at(t, pos + 1) != TokenKind::LeftParen {
        Err(unexpected(t, pos + 1, Some(TokenKind::LeftParen)))
    } else {
        match arguments(t, pos + 2) {
            Ok((args, next)) => if kind_at(t, next) == TokenKind::RightParen {
                Ok((Node::Call(text_at(t, pos), args), next + 1))
            } else {
                Err(unexpected(t, next, Some(TokenKind::RightParen)))
            },
            Err(e) => Err(e),
        }
    }
}

/// The arguments of a call from `pos` on: sums parted by commas, up to a
/// `)` or the end of the tokens. A comma may stand before the `)`.
#[verifier::opaque]
pub open spec fn arguments(t: Seq<TokenModel>, pos: int) -> ParsedList
    decreases t.len() - pos, 12int,
{
    if kind_at(t, pos) == TokenKind::EOF || kind_at(t, pos) == TokenKind::RightParen {
        Ok((Seq::empty(), pos))
    } else {
        match forward(t, pos, sum(t, pos)) {
            Ok((arg, next)) => if kind_at(t, next) == TokenKind::RightParen {
                Ok((seq![arg], next))
            } else if kind_at(t, next) != TokenKind::Comma {
                Err(unexpected(t, next, Some(TokenKind::Comma)))
            } else {
                match arguments(t, next + 1) {
                    Ok((rest, end)) => Ok((seq![arg] + rest, end)),
                    Err(e) => Err(e),
                }
            },
            Err(e) => Err(e),
        }
    }
}

/// A power: primaries joined by `^`.
#[verifier::opaque]
pub open spec fn power(t: Seq<TokenModel>, pos: int) -> Parsed
    decreases t.len() - pos, 5int,
{
    match forward(t, pos, primary(t, pos)) {
        Ok((left, next)) => power_rest(t, next, left),
        Err(e) => Err(e),
    }
}

/// What follows the operand `left` of a power.
#[verifier::opaque]
pub open spec fn power_rest(t: Seq<TokenModel>, pos: int, left: Node) -> Parsed
    decreases t.len() - pos, 4int,
{
    if kind_at(t, pos) == TokenKind::PowOp {
        match forward(t, pos, primary(t, pos + 1)) {
            Ok((right, next)) => power_rest(t, next, binary(left, right, '^')),
            Err(e) => Err(e),
        }
    } else {
        Ok((left, pos))
    }
}

/// A product: powers joined by `*`.
#[verifier::opaque]
pub open spec fn product(t: Seq<TokenModel>, pos: int) -> Parsed
    decreases t.len() - pos, 7int,
{
    match forward(t, pos, power(t, pos)) {
        Ok((left, next)) => product_rest(t, next, left),
        Err(e) => Err(e),
    }
}

/// What follows the operand `left` of a product.
#[verifier::opaque]
pub open spec fn product_rest(t: Seq<TokenModel>, pos: int, left: Node) -> Parsed
    decreases t.len() - pos, 6int,
{
    if kind_at(t, pos) == TokenKind::MulOp {
        match forward(t, pos, power(t, pos + 1)) {
            Ok((right, next)) => product_rest(t, next, binary(left, right, '*')),
            Err(e) => Err(e),
        }
    } else {
        Ok((left, pos))
    }
}

/// A sum: products joined by `+` and `-`.
#[verifier::opaque]
pub open spec fn sum(t: Seq<TokenModel>, pos: int) -> Parsed
    decreases t.len() - pos, 9int,
{
    match forward(t, pos, product(t, pos)) {
        Ok((left, next)) => sum_rest(t, next, left),
        Err(e) => Err(e),
    }
}

/// What follows the operand `left` of a sum.
#[verifier::opaque]
pub open spec fn sum_rest(t: Seq<TokenModel>, pos: int, left: Node) -> Parsed
    decreases t.len() - pos, 8int,
{
    if kind_at(t, pos) == TokenKind::AddOp || kind_at(t, pos) == TokenKind::SubOp {
        let operator = if kind_at(t, pos) == TokenKind::AddOp {
            '+'
        } else {
            '-'
        };
        match forward(t, pos, product(t, pos + 1)) {
            Ok((right, next)) => sum_rest(t, next, binary(left, right, operator)),
            Err(e) => Err(e),
        }
    } else {
        Ok((left, pos))
    }
}

/// A comparison: sums joined by `>` and `<`.
#[verifier::opaque]
pub open spec fn comparison(t: Seq<TokenModel>, pos: int) -> Parsed
    decreases t.len() - pos, 11int,
{
    match forward(t, pos, sum(t, pos)) {
        Ok((left, next)) => comparison_rest(t, next, left),
        Err(e) => Err(e),
    }
}

/// What follows the operand `left` of a comparison.
#[verifier::opaque]
pub open spec fn comparison_rest(t: Seq<TokenModel>, pos: int, left: Node) -> Parsed
    decreases t.len() - pos, 10int,
{
    if kind_at(t, pos) == TokenKind::GtOp || kind_at(t, pos) == TokenKind::LtOp {
        let operator = if kind_at(t, pos) == TokenKind::GtOp {
            '>'
        } else {
            '<'
        };
        match forward(t, pos, sum(t, pos + 1)) {
            Ok((right, next)) => comparison_rest(t, next, binary(left, right, operator)),
            Err(e) => Err(e),
        }
    } else {
        Ok((left, pos))
    }
}

/// `if`, a primary as the condition, `{`, one statement or more, and `}`.
#[verifier::opaque]
pub open spec fn conditional(t: Seq<TokenModel>, pos: int) -> Parsed
    decreases t.len() - pos, 13int,
{
    if kind_at(t, pos) != TokenKind::Identifier {
        Err(unexpected(t, pos, Some(TokenKind::Identifier)))
    } else {
        match forward(t, pos, primary(t, pos + 1)) {
            Ok((condition, open)) => if kind_at(t, open) != TokenKind::LeftCurlyBrace {
                Err(unexpected(t, open, Some(TokenKind::LeftCurlyBrace)))
            } else {
                match block(t, open + 1) {
                    Ok((body, close)) => if kind_at(t, close) == TokenKind::RightCurlyBrace {
                        Ok((Node::If(Box::new(condition), body), close + 1))
                    } else {
                        Err(unexpected(t, close, Some(TokenKind::RightCurlyBrace)))
                    },
                    Err(e) => Err(e),
                }
            },
            Err(e) => Err(e),
        }
    }
}

/// The statements of a block from `pos` on, up to the first `}` that
/// follows a statement.
#[verifier::opaque]
pub open spec fn block(t: Seq<TokenModel>, pos: int) -> ParsedList
    decreases t.len() - pos, 16int,
{
    match forward(t, pos, statement(t, pos)) {
        Ok((node, next)) => if kind_at(t, next) == TokenKind::RightCurlyBrace {
            Ok((seq![node], next))
        } else {
            match block(t, next) {
                Ok((rest, end)) => Ok((seq![node] + rest, end)),
                Err(e) => Err(e),
            }
        },
        Err(e) => Err(e),
    }
}

/// A statement without its terminator: a declaration, a conditional, what a
/// leading name starts, or a comparison.
#[verifier::opaque]
pub open spec fn statement_form(t: Seq<TokenModel>, pos: int) -> Parsed
    decreases t.len() - pos, 14int,
{
    if kind_at(t, pos) == TokenKind::Identifier {
        if text_at(t, pos) == "let"@ {
            declaration(t, pos)
        } else if text_at(t, pos) == "if"@ {
            conditional(t, pos)
        } else {
            reference(t, pos)
        }
    } else if starts_expr(kind_at(t, pos)) {
        comparison(t, pos)
    } else {
        Err(unexpected(t, pos, None))
    }
}

/// A statement and the `;` that ends it.
#[verifier::opaque]
pub open spec fn statement(t: Seq<TokenModel>, pos: int) -> Parsed
    decreases t.len() - pos, 15int,
{
    match statement_form(t, pos) {
        Ok((node, next)) => if kind_at(t, next) == TokenKind::SemiColon {
            Ok((node, next + 1))
        } else {
            Err(unexpected(t, next, Some(TokenKind::SemiColon)))
        },
        Err(e) => Err(e),
    }
}

/// The statements from `pos` to the end of the tokens.
#[verifier::opaque]
pub open spec fn program(t: Seq<TokenModel>, pos: int) -> Result<Seq<Node>, ParseError>
    decreases t.len() - pos,
{
    if kind_at(t, pos) == TokenKind::EOF {
        Ok(Seq::empty())
    } else {
        match forward(t, pos, statement(t, pos)) {
            Ok((node, next)) => match program(t, next) {
                Ok(rest) => Ok(seq![node] + rest),
                Err(e) => Err(e),
            },
            Err(e) => Err(e),
        }
    }
}


/// Whether a parse from `pos` that gave a tree ended behind `pos` and
/// within the tokens.
pub open spec fn advances(t: Seq<TokenModel>, pos: int, r: Parsed) -> bool {
    match r {
        Ok((_, next)) => 0 <= pos < next <= t.len(),
        Err(_) => true,
    }
}

/// Whether a parse from `pos` that gave a tree ended at `pos` or behind
/// it, and within the tokens.
pub open spec fn holds(t: Seq<TokenModel>, pos: int, r: Parsed) -> bool {
    match r {
        Ok((_, next)) => pos <= next <= t.len(),
        Err(_) => true,
    }
}

/// A primary consumes a token.
pub proof fn lemma_primary_advances(t: Seq<TokenModel>, pos: int)
    ensures
        advances(t, pos, primary(t, pos)),
    decreases t.len() - pos, 3int,
{
    reveal(primary);
    reveal(comparison);
    reveal(unary);
    reveal(declaration);
    reveal(reference);
    match kind_at(t, pos) {
        TokenKind::LeftParen => lemma_comparison_advances(t, pos + 1),
        TokenKind::SubOp | TokenKind::AddOp => lemma_unary_advances(t, pos),
        TokenKind::Identifier => if text_at(t, pos) == "let"@ {
            lemma_declaration_advances(t, pos)
        } else {
            lemma_reference_advances(t, pos)
        },
        _ => {},
    }
}

/// What a leading name starts consumes a token.
pub proof fn lemma_reference_advances(t: Seq<TokenModel>, pos: int)
    requires
        kind_at(t, pos) == TokenKind::Identifier,
    ensures
        advances(t, pos, reference(t, pos)),
    decreases t.len() - pos, 2int,
{
    reveal(reference);
    reveal(call);
    reveal(assignment);
    if kind_at(t, pos + 1) == TokenKind::LeftParen {
        lemma_call_advances(t, pos);
    } else if kind_at(t, pos + 1) == TokenKind::EqOp {
        lemma_assignment_advances(t, pos);
    }
}

/// A signed primary consumes a token.
pub proof fn lemma_unary_advances(t: Seq<TokenModel>, pos: int)
    ensures
        advances(t, pos, unary(t, pos)),
    decreases t.len() - pos, 2int,
{
    reveal(unary);
    reveal(primary);
    if kind_at(t, pos) == TokenKind::SubOp || kind_at(t, pos) == TokenKind::AddOp {
        lemma_primary_advances(t, pos + 1);
    }
}

/// A declaration consumes a token.
pub proof fn lemma_declaration_advances(t: Seq<TokenModel>, pos: int)
    ensures
        advances(t, pos, declaration(t, pos)),
    decreases t.len() - pos, 1int,
{
    reveal(declaration);
    reveal(sum);
    if kind_at(t, pos) == TokenKind::Identifier && kind_at(t, pos + 1) == TokenKind::Identifier && kind_at(
        t,
        pos + 2,
    ) == TokenKind::EqOp {
        lemma_sum_advances(t, pos + 3);
    }
}

/// An assignment consumes a token.
pub proof fn lemma_assignment_advances(t: Seq<TokenModel>, pos: int)
    ensures
        advances(t, pos, assignment(t, pos)),
    decreases t.len() - pos, 1int,
{
    reveal(assignment);
    reveal(sum);
    if kind_at(t, pos) == TokenKind::Identifier && kind_at(t, pos + 1) == TokenKind::EqOp {
        lemma_sum_advances(t, pos + 2);
    }
}

/// A call consumes a token.
pub proof fn lemma_call_advances(t: Seq<TokenModel>, pos: int)
    ensures
        advances(t, pos, call(t, pos)),
    decreases t.len() - pos, 1int,
{
    reveal(call);
    reveal(arguments);
    if kind_at(t, pos) == TokenKind::Identifier && kind_at(t, pos + 1) == TokenKind::LeftParen {
        lemma_arguments_hold(t, pos + 2);
    }
}

/// The arguments of a call end at the position they started from or
/// behind it.
pub proof fn lemma_arguments_hold(t: Seq<TokenModel>, pos: int)
    requires
        0 <= pos <= t.len(),
    ensures
        match arguments(t, pos) {
            Ok((_, next)) => pos <= next <= t.len(),
            Err(_) => true,
        },
    decreases t.len() - pos, 12int,
{
    reveal(sum);
    reveal(arguments);
    if !(kind_at(t, pos) == TokenKind::EOF || kind_at(t, pos) == TokenKind::RightParen) {
        match forward(t, pos, sum(t, pos)) {
            Ok((_, next)) => if kind_at(t, next) != TokenKind::RightParen && kind_at(t, next)
                == TokenKind::Comma {
                lemma_arguments_hold(t, next + 1);
            },
            Err(_) => {},
        }
    }
}

/// What follows an operand of a power ends at the position it started
/// from or behind it.
pub proof fn lemma_power_rest_holds(t: Seq<TokenModel>, pos: int, left: Node)
    requires
        0 <= pos <= t.len(),
    ensures
        holds(t, pos, power_rest(t, pos, left)),
    decreases t.len() - pos, 4int,
{
    reveal(primary);
    reveal(power_rest);
    if kind_at(t, pos) == TokenKind::PowOp {
        match forward(t, pos, primary(t, pos + 1)) {
            Ok((right, next)) => lemma_power_rest_holds(t, next, binary(left, right, '^')),
            Err(_) => {},
        }
    }
}

/// A power consumes a token.
pub proof fn lemma_power_advances(t: Seq<TokenModel>, pos: int)
    ensures
        advances(t, pos, power(t, pos)),
    decreases t.len() - pos, 5int,
{
    reveal(primary);
    reveal(power);
    reveal(power_rest);
    match forward(t, pos, primary(t, pos)) {
        Ok((left, next)) => lemma_power_rest_holds(t, next, left),
        Err(_) => {},
    }
}

/// What follows an operand of a product ends at the position it started
/// from or behind it.
pub proof fn lemma_product_rest_holds(t: Seq<TokenModel>, pos: int, left: Node)
    requires
        0 <= pos <= t.len(),
    ensures
        holds(t, pos, product_rest(t, pos, left)),
    decreases t.len() - pos, 6int,
{
    reveal(power);
    reveal(product_rest);
    if kind_at(t, pos) == TokenKind::MulOp {
        match forward(t, pos, power(t, pos + 1)) {
            Ok((right, next)) => lemma_product_rest_holds(t, next, binary(left, right, '*')),
            Err(_) => {},
        }
    }
}

/// A product consumes a token.
pub proof fn lemma_product_advances(t: Seq<TokenModel>, pos: int)
    ensures
        advances(t, pos, product(t, pos)),
    decreases t.len() - pos, 7int,
{
    reveal(power);
    reveal(product);
    reveal(product_rest);
    match forward(t, pos, power(t, pos)) {
        Ok((left, next)) => lemma_product_rest_holds(t, next, left),
        Err(_) => {},
    }
}

/// What follows an operand of a sum ends at the position it started from
/// or behind it.
pub proof fn lemma_sum_rest_holds(t: Seq<TokenModel>, pos: int, left: Node)
    requires
        0 <= pos <= t.len(),
    ensures
        holds(t, pos, sum_rest(t, pos, left)),
    decreases t.len() - pos, 8int,
{
    reveal(product);
    reveal(sum_rest);
    if kind_at(t, pos) == TokenKind::AddOp || kind_at(t, pos) == TokenKind::SubOp {
        let operator = if kind_at(t, pos) == TokenKind::AddOp {
            '+'
        } else {
            '-'
        };
        match forward(t, pos, product(t, pos + 1)) {
            Ok((right, next)) => lemma_sum_rest_holds(t, next, binary(left, right, operator)),
            Err(_) => {},
        }
    }
}

/// A sum consumes a token.
pub proof fn lemma_sum_advances(t: Seq<TokenModel>, pos: int)
    ensures
        advances(t, pos, sum(t, pos)),
    decreases t.len() - pos, 9int,
{
    reveal(product);
    reveal(sum);
    reveal(sum_rest);
    match forward(t, pos, product(t, pos)) {
        Ok((left, next)) => lemma_sum_rest_holds(t, next, left),
        Err(_) => {},
    }
}

/// What follows an operand of a comparison ends at the position it
/// started from or behind it.
pub proof fn lemma_comparison_rest_holds(t: Seq<TokenModel>, pos: int, left: Node)
    requires
        0 <= pos <= t.len(),
    ensures
        holds(t, pos, comparison_rest(t, pos, left)),
    decreases t.len() - pos, 10int,
{
    reveal(sum);
    reveal(comparison_rest);
    if kind_at(t, pos) == TokenKind::GtOp || kind_at(t, pos) == TokenKind::LtOp {
        let operator = if kind_at(t, pos) == TokenKind::GtOp {
            '>'
        } else {
            '<'
        };
        match forward(t, pos, sum(t, pos + 1)) {
            Ok((right, next)) => lemma_comparison_rest_holds(t, next, binary(left, right, operator)),
            Err(_) => {},
        }
    }
}

/// A comparison consumes a token.
pub proof fn lemma_comparison_advances(t: Seq<TokenModel>, pos: int)
    ensures
        advances(t, pos, comparison(t, pos)),
    decreases t.len() - pos, 11int,
{
    reveal(sum);
    reveal(comparison);
    reveal(comparison_rest);
    match forward(t, pos, sum(t, pos)) {
        Ok((left, next)) => lemma_comparison_rest_holds(t, next, left),
        Err(_) => {},
    }
}

/// A conditional consumes a token.
pub proof fn lemma_conditional_advances(t: Seq<TokenModel>, pos: int)
    ensures
        advances(t, pos, conditional(t, pos)),
    decreases t.len() - pos, 13int,
{
    reveal(primary);
    reveal(conditional);
    reveal(block);
    if kind_at(t, pos) == TokenKind::Identifier {
        match forward(t, pos, primary(t, pos + 1)) {
            Ok((_, open)) => if kind_at(t, open) == TokenKind::LeftCurlyBrace {
                lemma_block_advances(t, open + 1);
            },
            Err(_) => {},
        }
    }
}

/// A block consumes a token.
pub proof fn lemma_block_advances(t: Seq<TokenModel>, pos: int)
    requires
        0 <= pos <= t.len(),
    ensures
        match block(t, pos) {
            Ok((_, next)) => pos < next <= t.len(),
            Err(_) => true,
        },
    decreases t.len() - pos, 16int,
{
    reveal(statement);
    reveal(block);
    match forward(t, pos, statement(t, pos)) {
        Ok((_, next)) => if kind_at(t, next) != TokenKind::RightCurlyBrace {
            lemma_block_advances(t, next);
        },
        Err(_) => {},
    }
}

/// A statement without its terminator consumes a token.
pub proof fn lemma_statement_form_advances(t: Seq<TokenModel>, pos: int)
    ensures
        advances(t, pos, statement_form(t, pos)),
    decreases t.len() - pos, 14int,
{
    reveal(statement_form);
    reveal(declaration);
    reveal(conditional);
    reveal(reference);
    reveal(comparison);
    if kind_at(t, pos) == TokenKind::Identifier {
        if text_at(t, pos) == "let"@ {
            lemma_declaration_advances(t, pos);
        } else if text_at(t, pos) == "if"@ {
            lemma_conditional_advances(t, pos);
        } else {
            lemma_reference_advances(t, pos);
        }
    } else if starts_expr(kind_at(t, pos)) {
        lemma_comparison_advances(t, pos);
    }
}

/// A statement consumes a token. With the lemmas above: wherever the
/// grammar holds a parse to `forward`, `forward` hands it on unchanged.
pub proof fn lemma_statement_advances(t: Seq<TokenModel>, pos: int)
    ensures
        advances(t, pos, statement(t, pos)),
        forward(t, pos, statement(t, pos)) == statement(t, pos),
        forward(t, pos, sum(t, pos)) == sum(t, pos),
        forward(t, pos, product(t, pos)) == product(t, pos),
        forward(t, pos, power(t, pos)) == power(t, pos),
        forward(t, pos, primary(t, pos)) == primary(t, pos),
        pos >= 1 ==> forward(t, pos - 1, sum(t, pos)) == sum(t, pos),
        pos >= 1 ==> forward(t, pos - 1, product(t, pos)) == product(t, pos),
        pos >= 1 ==> forward(t, pos - 1, power(t, pos)) == power(t, pos),
        pos >= 1 ==> forward(t, pos - 1, primary(t, pos)) == primary(t, pos),
    decreases t.len() - pos, 15int,
{
    reveal(sum);
    reveal(product);
    reveal(power);
    reveal(primary);
    reveal(statement);
    reveal(statement_form);
    lemma_statement_form_advances(t, pos);
    lemma_sum_advances(t, pos);
    lemma_product_advances(t, pos);
    lemma_power_advances(t, pos);
    lemma_primary_advances(t, pos);
}

/// Whether what a parsing method returned, with the position it stopped
/// at, is what the grammar says.
pub open spec fn parsed(r: Result<ASTNode, ParseError>, end: int, expected: Parsed) -> bool {
    match r {
        Ok(node) => expected == Ok::<(Node, int), ParseError>((node@, end)),
        Err(e) => expected == Err::<(Node, int), ParseError>(e),
    }
}

/// The same for a method that returns several trees.
pub open spec fn parsed_list(r: Result<Vec<ASTNode>, ParseError>, end: int, expected: ParsedList) -> bool {
    match r {
        Ok(trees) => expected == Ok::<(Seq<Node>, int), ParseError>((nodes(trees@), end)),
        Err(e) => expected == Err::<(Seq<Node>, int), ParseError>(e),
    }
}

/// `done` followed by the trees that `rest` gave.
pub open spec fn attach(done: Seq<Node>, rest: ParsedList) -> ParsedList {
    match rest {
        Ok((trees, end)) => Ok((done + trees, end)),
        Err(e) => Err(e),
    }
}

/// The model of a token has the token's kind.
pub proof fn lemma_model_kind(token: Token)
    ensures
        token@.kind == token.spec_kind(),
{
}

/// The models of trees, after one more tree.
pub proof fn lemma_nodes_push(trees: Seq<ASTNode>, tree: ASTNode)
    ensures
        nodes(trees.push(tree)) == nodes(trees) + seq![tree@],
{
    assert(nodes(trees.push(tree)) =~= nodes(trees) + seq![tree@]);
}

/// A parser over a sequence of tokens.
pub struct Parser {
    pub pos: usize,
    pub tokens: Vec<Token>,
}

impl Parser {
    /// The tokens as mathematical values.
    pub open spec fn stream(&self) -> Seq<TokenModel> {
        models(self.tokens@)
    }

    /// The parser's invariant: the position lies within the tokens or just
    /// behind them.
    pub open spec fn wf(&self) -> bool {
        self.pos <= self.tokens@.len()
    }

    /// A parser at the start of the tokens of `text`.
    pub fn new(text: &str) -> (r: Result<Parser, LexError>)
        requires
            text@.len() < u32::MAX,
        ensures
            match r {
                Ok(parser) => parser.pos == 0 && spec_tokenize(text@) == Ok::<Seq<TokenModel>, LexError>(
                    parser.stream(),
                ),
                Err(e) => spec_tokenize(text@) == Err::<Seq<TokenModel>, LexError>(e),
            },
    {
        let mut tokenizer = Tokenizer::new(text);
        match tokenizer.tokenize() {
            Ok(tokens) => Ok(Parser { tokens, pos: 0 }),
            Err(e) => Err(e),
        }
    }

    /// A parser at the start of `tokens`.
    pub fn from_tokens(tokens: Vec<Token>) -> (r: Parser)
        ensures
            r.pos == 0,
            r.tokens == tokens,
    {
        Parser { tokens, pos: 0 }
    }

    /// Parses the statements from the position to the end of the tokens.
    pub fn parse(&mut self) -> (r: Result<Vec<ASTNode>, ParseError>)
        requires
            old(self).wf(),
        ensures
            final(self).tokens == old(self).tokens,
            match r {
                Ok(trees) => program(old(self).stream(), old(self).pos as int) == Ok::<
                    Seq<Node>,
                    ParseError,
                >(nodes(trees@)),
                Err(e) => program(old(self).stream(), old(self).pos as int) == Err::<
                    Seq<Node>,
                    ParseError,
                >(e),
            },
    {
        reveal(program);
        let ghost t = self.stream();
        let ghost goal = program(t, self.pos as int);
        let mut trees: Vec<ASTNode> = Vec::new();
        while !self.is_eof()
            invariant
                self.wf(),
                self.tokens == old(self).tokens,
                t == old(self).stream(),
                goal == program(t, old(self).pos as int),
                goal == match program(t, self.pos as int) {
                    Ok(rest) => Ok::<Seq<Node>, ParseError>(nodes(trees@) + rest),
                    Err(e) => Err(e),
                },
            decreases self.tokens@.len() - self.pos,
        {
            reveal(program);
            let ghost done = nodes(trees@);
            match self.parse_expr_or_stmt() {
                Ok(tree) => {
                    proof {
                        lemma_nodes_push(trees@, tree);
                        match program(t, self.pos as int) {
                            Ok(rest) => {
                                assert(done + (seq![tree@] + rest) =~= (done + seq![tree@]) + rest);
                            },
                            Err(_) => {},
                        }
                    }
                    trees.push(tree);
                },
                Err(e) => {
                    return Err(e);
                },
            }
        }
        proof {
            assert(nodes(trees@) + Seq::<Node>::empty() =~= nodes(trees@));
        }
        Ok(trees)
    }

    /// The kind of the token at the position.
    fn kind_here(&self) -> (r: TokenKind)
        requires
            self.wf(),
        ensures
            r == kind_at(self.stream(), self.pos as int),
            r != TokenKind::EOF ==> self.pos < self.tokens@.len() && r == self.tokens@[self.pos as int].spec_kind(),
    {
        if self.pos < self.tokens.len() {
            proof {
                lemma_model_kind(self.tokens@[self.pos as int]);
            }
            self.tokens[self.pos].kind()
        } else {
            TokenKind::EOF
        }
    }

    /// The token at the position.
    fn current(&self) -> (r: Token)
        requires
            self.pos < self.tokens@.len(),
        ensures
            r == self.tokens@[self.pos as int],
            r@ == self.stream()[self.pos as int],
    {
        self.tokens[self.pos].clone()
    }

    /// Moves behind the token at the position.
    fn bump(&mut self)
        requires
            old(self).pos < old(self).tokens@.len(),
        ensures
            final(self).tokens == old(self).tokens,
            final(self).pos == old(self).pos + 1,
    {
        let n = self.tokens.len();
        self.pos = self.pos + 1;
    }

    /// Whether the tokens have run out, or the end-of-input token is next.
    fn is_eof(&self) -> (r: bool)
        requires
            self.wf(),
        ensures
            r == (kind_at(self.stream(), self.pos as int) == TokenKind::EOF),
    {
        self.kind_here() == TokenKind::EOF
    }

    /// The error for the token at the position.
    fn refuse(&self, expected: Option<TokenKind>) -> (r: ParseError)
        requires
            self.wf(),
        ensures
            r == unexpected(self.stream(), self.pos as int, expected),
    {
        ParseError { pos: self.pos, found: self.kind_here(), expected }
    }

    /// Takes the token at the position and moves behind it. With an
    /// expected kind, a token of another kind is refused; the end-of-input
    /// token is never taken.
    fn advance(&mut self, expected: Option<TokenKind>) -> (r: Result<Token, ParseError>)
        requires
            old(self).wf(),
        ensures
            final(self).wf(),
            final(self).tokens == old(self).tokens,
            match r {
                Ok(token) => {
                    &&& old(self).pos < old(self).tokens@.len()
                    &&& token == old(self).tokens@[old(self).pos as int]
                    &&& final(self).pos == old(self).pos + 1
                    &&& kind_at(old(self).stream(), old(self).pos as int) != TokenKind::EOF
                    &&& match expected {
                        Some(kind) => kind_at(old(self).stream(), old(self).pos as int) == kind,
                        None => true,
                    }
                },
                Err(e) => {
                    &&& final(self).pos == old(self).pos
                    &&& e == unexpected(old(self).stream(), old(self).pos as int, expected)
                    &&& match expected {
                        Some(kind) => kind_at(old(self).stream(), old(self).pos as int) != kind
                            || kind == TokenKind::EOF,
                        None => kind_at(old(self).stream(), old(self).pos as int) == TokenKind::EOF,
                    }
                },
            },
    {
        let found = self.kind_here();
        let fits = match expected {
            Some(kind) => found == kind,
            None => true,
        };
        if fits && found != TokenKind::EOF {
            let t = self.current();
            self.bump();
            Ok(t)
        } else {
            Err(self.refuse(expected))
        }
    }

    /// Whether a token stands at the position and the one behind it is of
    /// kind `token`.
    fn expect(&self, token: TokenKind) -> (r: bool)
        requires
            self.wf(),
        ensures
            r == (kind_at(self.stream(), self.pos as int) != TokenKind::EOF && kind_at(
                self.stream(),
                self.pos + 1,
            ) == token),
    {
        if self.is_eof() {
            return false;
        }
        let n = self.tokens.len();
        if self.pos + 1 < n {
            proof {
                lemma_model_kind(self.tokens@[self.pos + 1]);
            }
            self.tokens[self.pos + 1].kind() == token
        } else {
            token == TokenKind::EOF
        }
    }

    /// Whether `token` can start an expression statement.
    fn is_expr(&self, token: TokenKind) -> (r: bool)
        ensures
            r == starts_expr(token),
    {
        matches!(
            token,
            TokenKind::NumberLiteral | TokenKind::StringLiteral | TokenKind::BoolLiteral
                | TokenKind::LeftParen | TokenKind::Identifier | TokenKind::SubOp
                | TokenKind::AddOp
        )
    }
}

impl Parser {
    /// Parses one statement and the `;` that ends it.
    fn parse_expr_or_stmt(&mut self) -> (r: Result<ASTNode, ParseError>)
        requires
            old(self).wf(),
        ensures
            final(self).wf(),
            final(self).tokens == old(self).tokens,
            parsed(r, final(self).pos as int, statement(old(self).stream(), old(self).pos as int)),
            r is Ok ==> old(self).pos < final(self).pos,
        decreases old(self).tokens@.len() - old(self).pos, 15int,
    {
        reveal(statement);
        reveal(statement_form);
        reveal(declaration);
        reveal(conditional);
        reveal(reference);
        reveal(comparison);
        let kind = self.kind_here();
        let form = if kind == TokenKind::Identifier {
            let value = self.current().as_string();
            if value == String::from_str("let") {
                self.parse_var_declaration()
            } else if value == String::from_str("if") {
                self.parse_if_stmt()
            } else {
                self.parse_reference()
            }
        } else if self.is_expr(kind) {
            self.parse_bool_expression()
        } else {
            Err(self.refuse(None))
        };
        match form {
            Ok(node) => match self.advance(Some(TokenKind::SemiColon)) {
                Ok(_) => Ok(node),
                Err(e) => Err(e),
            },
            Err(e) => Err(e),
        }
    }

    /// Parses a primary expression.
    fn parse_expr(&mut self) -> (r: Result<ASTNode, ParseError>)
        requires
            old(self).wf(),
        ensures
            final(self).wf(),
            final(self).tokens == old(self).tokens,
            parsed(r, final(self).pos as int, primary(old(self).stream(), old(self).pos as int)),
            r is Ok ==> old(self).pos < final(self).pos,
        decreases old(self).tokens@.len() - old(self).pos, 3int,
    {
        reveal(primary);
        reveal(comparison);
        reveal(unary);
        reveal(declaration);
        reveal(reference);
        let kind = self.kind_here();
        match kind {
            TokenKind::LeftParen => {
                self.bump();
                let node = match self.parse_bool_expression() {
                    Ok(node) => node,
                    Err(e) => {
                        return Err(e);
                    },
                };
                match self.advance(Some(TokenKind::RightParen)) {
                    Ok(_) => Ok(node),
                    Err(e) => Err(e),
                }
            },
            TokenKind::NumberLiteral => {
                let value = self.current().as_f32();
                self.bump();
                Ok(ASTNode::Number(value))
            },
            TokenKind::BoolLiteral => {
                let value = self.current().as_bool();
                self.bump();
                Ok(ASTNode::Bool(value))
            },
            TokenKind::StringLiteral => {
                let value = self.current().as_string();
                self.bump();
                Ok(ASTNode::String(value))
            },
            TokenKind::SubOp | TokenKind::AddOp => self.parse_unary_expression(),
            TokenKind::Identifier => {
                let value = self.current().as_string();
                if value == String::from_str("let") {
                    self.parse_var_declaration()
                } else {
                    self.parse_reference()
                }
            },
            _ => Err(self.refuse(None)),
        }
    }

    /// Parses what the name at the position starts: a call, an assignment
    /// or a reference to the name.
    fn parse_reference(&mut self) -> (r: Result<ASTNode, ParseError>)
        requires
            old(self).wf(),
            kind_at(old(self).stream(), old(self).pos as int) == TokenKind::Identifier,
        ensures
            final(self).wf(),
            final(self).tokens == old(self).tokens,
            parsed(r, final(self).pos as int, reference(old(self).stream(), old(self).pos as int)),
            r is Ok ==> old(self).pos < final(self).pos,
        decreases old(self).tokens@.len() - old(self).pos, 2int,
    {
        reveal(reference);
        reveal(call);
        reveal(assignment);
        if self.expect(TokenKind::LeftParen) {
            self.parse_function()
        } else if self.expect(TokenKind::EqOp) {
            self.parse_var_assignment()
        } else {
            let name = self.current().as_string();
            self.bump();
            Ok(ASTNode::Identifier { name })
        }
    }

    /// Parses a name, `=` and the sum that is assigned.
    fn parse_var_assignment(&mut self) -> (r: Result<ASTNode, ParseError>)
        requires
            old(self).wf(),
        ensures
            final(self).wf(),
            final(self).tokens == old(self).tokens,
            parsed(r, final(self).pos as int, assignment(old(self).stream(), old(self).pos as int)),
            r is Ok ==> old(self).pos < final(self).pos,
        decreases old(self).tokens@.len() - old(self).pos, 1int,
    {
        reveal(assignment);
        reveal(sum);
        let var_name = match self.advance(Some(TokenKind::Identifier)) {
            Ok(token) => token,
            Err(e) => {
                return Err(e);
            },
        };
        match self.advance(Some(TokenKind::EqOp)) {
            Ok(_) => {},
            Err(e) => {
                return Err(e);
            },
        }
        match self.parse_sum_expression() {
            Ok(value) => Ok(ASTNode::VarAssignment { name: var_name.as_string(), value: Box::new(value) }),
            Err(e) => Err(e),
        }
    }

    /// Parses `let`, a name, `=` and the sum that the name is declared with.
    fn parse_var_declaration(&mut self) -> (r: Result<ASTNode, ParseError>)
        requires
            old(self).wf(),
        ensures
            final(self).wf(),
            final(self).tokens == old(self).tokens,
            parsed(r, final(self).pos as int, declaration(old(self).stream(), old(self).pos as int)),
            r is Ok ==> old(self).pos < final(self).pos,
        decreases old(self).tokens@.len() - old(self).pos, 1int,
    {
        reveal(declaration);
        reveal(sum);
        match self.advance(Some(TokenKind::Identifier)) {
            Ok(_) => {},
            Err(e) => {
                return Err(e);
            },
        }
        let var_name = match self.advance(Some(TokenKind::Identifier)) {
            Ok(token) => token,
            Err(e) => {
                return Err(e);
            },
        };
        match self.advance(Some(TokenKind::EqOp)) {
            Ok(_) => {},
            Err(e) => {
                return Err(e);
            },
        }
        match self.parse_sum_expression() {
            Ok(value) => Ok(ASTNode::VarDeclaration { name: var_name.as_string(), value: Box::new(value) }),
            Err(e) => Err(e),
        }
    }

    /// Parses a call: a name, `(`, the arguments and `)`.
    fn parse_function(&mut self) -> (r: Result<ASTNode, ParseError>)
        requires
            old(self).wf(),
        ensures
            final(self).wf(),
            final(self).tokens == old(self).tokens,
            parsed(r, final(self).pos as int, call(old(self).stream(), old(self).pos as int)),
            r is Ok ==> old(self).pos < final(self).pos,
        decreases old(self).tokens@.len() - old(self).pos, 1int,
    {
        reveal(call);
        reveal(arguments);
        let ident = match self.advance(Some(TokenKind::Identifier)) {
            Ok(token) => token,
            Err(e) => {
                return Err(e);
            },
        };
        match self.advance(Some(TokenKind::LeftParen)) {
            Ok(_) => {},
            Err(e) => {
                return Err(e);
            },
        }
        let args = match self.parse_args() {
            Ok(args) => args,
            Err(e) => {
                return Err(e);
            },
        };
        match self.advance(Some(TokenKind::RightParen)) {
            Ok(_) => {
                let node = ASTNode::FunctionCall { name: ident.as_string(), args };
                proof {
                    assert(node@ == Node::Call(ident@.text, nodes(args@))) by {
                        assert(node@->Call_1 =~= nodes(args@));
                    }
                }
                Ok(node)
            },
            Err(e) => Err(e),
        }
    }

    /// Parses the arguments of a call, up to the `)` without taking it.
    fn parse_args(&mut self) -> (r: Result<Vec<ASTNode>, ParseError>)
        requires
            old(self).wf(),
        ensures
            final(self).wf(),
            final(self).tokens == old(self).tokens,
            parsed_list(r, final(self).pos as int, arguments(old(self).stream(), old(self).pos as int)),
            r is Ok ==> old(self).pos <= final(self).pos,
        decreases old(self).tokens@.len() - old(self).pos, 12int,
    {
        reveal(arguments);
        reveal(sum);
        let ghost t = self.stream();
        let ghost start = self.pos as int;
        let mut args: Vec<ASTNode> = Vec::new();
        loop
            invariant
                self.wf(),
                self.tokens == old(self).tokens,
                t == old(self).stream(),
                start == old(self).pos,
                start <= self.pos,
                arguments(t, start) == attach(nodes(args@), arguments(t, self.pos as int)),
            decreases self.tokens@.len() - self.pos,
        {
            reveal(arguments);
            reveal(sum);
            let ghost done = nodes(args@);
            let kind = self.kind_here();
            if kind == TokenKind::EOF || kind == TokenKind::RightParen {
                proof {
                    assert(done + Seq::<Node>::empty() =~= done);
                }
                return Ok(args);
            }
            let arg = match self.parse_sum_expression() {
                Ok(arg) => arg,
                Err(e) => {
                    return Err(e);
                },
            };
            proof {
                lemma_nodes_push(args@, arg);
            }
            args.push(arg);
            if self.kind_here() == TokenKind::RightParen {
                return Ok(args);
            }
            match self.advance(Some(TokenKind::Comma)) {
                Ok(_) => {
                    proof {
                        match arguments(t, self.pos as int) {
                            Ok((rest, end)) => {
                                assert(done + (seq![arg@] + rest) =~= (done + seq![arg@]) + rest);
                            },
                            Err(_) => {},
                        }
                    }
                },
                Err(e) => {
                    return Err(e);
                },
            }
        }
    }

    /// Parses primaries joined by `^`.
    fn parse_pow_expression(&mut self) -> (r: Result<ASTNode, ParseError>)
        requires
            old(self).wf(),
        ensures
            final(self).wf(),
            final(self).tokens == old(self).tokens,
            parsed(r, final(self).pos as int, power(old(self).stream(), old(self).pos as int)),
            r is Ok ==> old(self).pos < final(self).pos,
        decreases old(self).tokens@.len() - old(self).pos, 5int,
    {
        reveal(power);
        reveal(power_rest);
        reveal(primary);
        let ghost t = self.stream();
        let ghost start = self.pos as int;
        let mut left = match self.parse_expr() {
            Ok(node) => node,
            Err(e) => {
                return Err(e);
            },
        };
        loop
            invariant
                self.wf(),
                self.tokens == old(self).tokens,
                t == old(self).stream(),
                start == old(self).pos,
                start < self.pos,
                power(t, start) == power_rest(t, self.pos as int, left@),
            decreases self.tokens@.len() - self.pos,
        {
            reveal(power);
            reveal(power_rest);
            reveal(primary);
            let kind = self.kind_here();
            if kind != TokenKind::PowOp {
                return Ok(left);
            }
            let operator = '^';
            match self.advance(Some(kind)) {
                Ok(_) => {},
                Err(e) => {
                    return Err(e);
                },
            }
            match self.parse_expr() {
                Ok(right) => {
                    left = ASTNode::BinaryExpression { left: Box::new(left), right: Box::new(right), operator };
                },
                Err(e) => {
                    return Err(e);
                },
            }
        }
    }

    /// Parses sums joined by `>` and `<`.
    fn parse_bool_expression(&mut self) -> (r: Result<ASTNode, ParseError>)
        requires
            old(self).wf(),
        ensures
            final(self).wf(),
            final(self).tokens == old(self).tokens,
            parsed(r, final(self).pos as int, comparison(old(self).stream(), old(self).pos as int)),
            r is Ok ==> old(self).pos < final(self).pos,
        decreases old(self).tokens@.len() - old(self).pos, 11int,
    {
        reveal(comparison);
        reveal(comparison_rest);
        reveal(sum);
        let ghost t = self.stream();
        let ghost start = self.pos as int;
        let mut left = match self.parse_sum_expression() {
            Ok(node) => node,
            Err(e) => {
                return Err(e);
            },
        };
        loop
            invariant
                self.wf(),
                self.tokens == old(self).tokens,
                t == old(self).stream(),
                start == old(self).pos,
                start < self.pos,
                comparison(t, start) == comparison_rest(t, self.pos as int, left@),
            decreases self.tokens@.len() - self.pos,
        {
            reveal(comparison);
            reveal(comparison_rest);
            reveal(sum);
            let kind = self.kind_here();
            if kind != TokenKind::GtOp && kind != TokenKind::LtOp {
                return Ok(left);
            }
            let operator = if kind == TokenKind::GtOp {
                '>'
            } else {
                '<'
            };
            match self.advance(Some(kind)) {
                Ok(_) => {},
                Err(e) => {
                    return Err(e);
                },
            }
            match self.parse_sum_expression() {
                Ok(right) => {
                    left = ASTNode::BinaryExpression { left: Box::new(left), right: Box::new(right), operator };
                },
                Err(e) => {
                    return Err(e);
                },
            }
        }
    }

    /// Parses products joined by `+` and `-`.
    fn parse_sum_expression(&mut self) -> (r: Result<ASTNode, ParseError>)
        requires
            old(self).wf(),
        ensures
            final(self).wf(),
            final(self).tokens == old(self).tokens,
            parsed(r, final(self).pos as int, sum(old(self).stream(), old(self).pos as int)),
            r is Ok ==> old(self).pos < final(self).pos,
        decreases old(self).tokens@.len() - old(self).pos, 9int,
    {
        reveal(sum);
        reveal(sum_rest);
        reveal(product);
        let ghost t = self.stream();
        let ghost start = self.pos as int;
        let mut left = match self.parse_mul_expression() {
            Ok(node) => node,
            Err(e) => {
                return Err(e);
            },
        };
        loop
            invariant
                self.wf(),
                self.tokens == old(self).tokens,
                t == old(self).stream(),
                start == old(self).pos,
                start < self.pos,
                sum(t, start) == sum_rest(t, self.pos as int, left@),
            decreases self.tokens@.len() - self.pos,
        {
            reveal(sum);
            reveal(sum_rest);
            reveal(product);
            let kind = self.kind_here();
            if kind != TokenKind::AddOp && kind != TokenKind::SubOp {
                return Ok(left);
            }
            let operator = if kind == TokenKind::AddOp {
                '+'
            } else {
                '-'
            };
            match self.advance(Some(kind)) {
                Ok(_) => {},
                Err(e) => {
                    return Err(e);
                },
            }
            match self.parse_mul_expression() {
                Ok(right) => {
                    left = ASTNode::BinaryExpression { left: Box::new(left), right: Box::new(right), operator };
                },
                Err(e) => {
                    return Err(e);
                },
            }
        }
    }

    /// Parses powers joined by `*`.
    fn parse_mul_expression(&mut self) -> (r: Result<ASTNode, ParseError>)
        requires
            old(self).wf(),
        ensures
            final(self).wf(),
            final(self).tokens == old(self).tokens,
            parsed(r, final(self).pos as int, product(old(self).stream(), old(self).pos as int)),
            r is Ok ==> old(self).pos < final(self).pos,
        decreases old(self).tokens@.len() - old(self).pos, 7int,
    {
        reveal(product);
        reveal(product_rest);
        reveal(power);
        let ghost t = self.stream();
        let ghost start = self.pos as int;
        let mut left = match self.parse_pow_expression() {
            Ok(node) => node,
            Err(e) => {
                return Err(e);
            },
        };
        loop
            invariant
                self.wf(),
                self.tokens == old(self).tokens,
                t == old(self).stream(),
                start == old(self).pos,
                start < self.pos,
                product(t, start) == product_rest(t, self.pos as int, left@),
            decreases self.tokens@.len() - self.pos,
        {
            reveal(product);
            reveal(product_rest);
            reveal(power);
            let kind = self.kind_here();
            if kind != TokenKind::MulOp {
                return Ok(left);
            }
            let operator = '*';
            match self.advance(Some(kind)) {
                Ok(_) => {},
                Err(e) => {
                    return Err(e);
                },
            }
            match self.parse_pow_expression() {
                Ok(right) => {
                    left = ASTNode::BinaryExpression { left: Box::new(left), right: Box::new(right), operator };
                },
                Err(e) => {
                    return Err(e);
                },
            }
        }
    }

    /// Parses a sign and the primary that it applies to.
    fn parse_unary_expression(&mut self) -> (r: Result<ASTNode, ParseError>)
        requires
            old(self).wf(),
        ensures
            final(self).wf(),
            final(self).tokens == old(self).tokens,
            parsed(r, final(self).pos as int, unary(old(self).stream(), old(self).pos as int)),
            r is Ok ==> old(self).pos < final(self).pos,
        decreases old(self).tokens@.len() - old(self).pos, 2int,
    {
        reveal(unary);
        reveal(primary);
        let kind = self.kind_here();
        if kind != TokenKind::SubOp && kind != TokenKind::AddOp {
            return Err(self.refuse(None));
        }
        let sign = if kind == TokenKind::SubOp {
            '-'
        } else {
            '+'
        };
        self.bump();
        match self.parse_expr() {
            Ok(expression) => Ok(ASTNode::UnaryExpression { sign, expr: Box::new(expression) }),
            Err(e) => Err(e),
        }
    }

    /// Parses `if`, the condition, `{`, the statements of the body and `}`.
    fn parse_if_stmt(&mut self) -> (r: Result<ASTNode, ParseError>)
        requires
            old(self).wf(),
        ensures
            final(self).wf(),
            final(self).tokens == old(self).tokens,
            parsed(r, final(self).pos as int, conditional(old(self).stream(), old(self).pos as int)),
            r is Ok ==> old(self).pos < final(self).pos,
        decreases old(self).tokens@.len() - old(self).pos, 13int,
    {
        reveal(conditional);
        reveal(primary);
        reveal(block);
        match self.advance(Some(TokenKind::Identifier)) {
            Ok(_) => {},
            Err(e) => {
                return Err(e);
            },
        }
        let expr = match self.parse_expr() {
            Ok(node) => node,
            Err(e) => {
                return Err(e);
            },
        };
        match self.advance(Some(TokenKind::LeftCurlyBrace)) {
            Ok(_) => {},
            Err(e) => {
                return Err(e);
            },
        }
        let true_block = match self.parse_block() {
            Ok(trees) => trees,
            Err(e) => {
                return Err(e);
            },
        };
        match self.advance(Some(TokenKind::RightCurlyBrace)) {
            Ok(_) => {
                let node = ASTNode::IfStmt { expr: Box::new(expr), true_block };
                proof {
                    assert(node@->If_1 =~= nodes(true_block@));
                }
                Ok(node)
            },
            Err(e) => Err(e),
        }
    }

    /// Parses the statements of a block, up to the `}` without taking it.
    fn parse_block(&mut self) -> (r: Result<Vec<ASTNode>, ParseError>)
        requires
            old(self).wf(),
        ensures
            final(self).wf(),
            final(self).tokens == old(self).tokens,
            parsed_list(r, final(self).pos as int, block(old(self).stream(), old(self).pos as int)),
            r is Ok ==> old(self).pos < final(self).pos,
        decreases old(self).tokens@.len() - old(self).pos, 16int,
    {
        reveal(block);
        reveal(statement);
        let ghost t = self.stream();
        let ghost start = self.pos as int;
        let mut true_block: Vec<ASTNode> = Vec::new();
        loop
            invariant
                self.wf(),
                self.tokens == old(self).tokens,
                t == old(self).stream(),
                start == old(self).pos,
                start <= self.pos,
                block(t, start) == attach(nodes(true_block@), block(t, self.pos as int)),
            decreases self.tokens@.len() - self.pos,
        {
            reveal(block);
            reveal(statement);
            let ghost done = nodes(true_block@);
            let token = match self.parse_expr_or_stmt() {
                Ok(node) => node,
                Err(e) => {
                    return Err(e);
                },
            };
            proof {
                lemma_nodes_push(true_block@, token);
                match block(t, self.pos as int) {
                    Ok((rest, end)) => {
                        assert(done + (seq![token@] + rest) =~= (done + seq![token@]) + rest);
                    },
                    Err(_) => {},
                }
            }
            true_block.push(token);
            if self.kind_here() == TokenKind::RightCurlyBrace {
                return Ok(true_block);
            }
        }
    }
}

} // verus!
