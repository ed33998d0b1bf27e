//! The tokenizer: from source text to the sequence of its tokens.
//!
//! Every character is first given its class by the lexical classifier; the
//! scan itself then reads classes and characters only. Positions count
//! characters of the text as it was handed in.

use super::panics::{unexpected_eof, unexpected_token, LexError};
use super::reg_exp::{classify, spec_classify, TokenRegEx};
use super::token::{Token, TokenKind, TokenModel};
use vstd::prelude::*;
use vstd::string::StrSliceExecFns;

verus! {

/// The classes of the characters of a text, one per character.
pub type Classes = Seq<Option<TokenRegEx>>;

/// Whether position `i` lies in the text and holds a character of `class`.
pub open spec fn is_class(cl: Classes, i: int, class: TokenRegEx) -> bool {
    0 <= i < cl.len() && cl[i] == Some(class)
}

/// The end of the run of characters of `class` that starts at `pos`.
pub open spec fn run_end(cl: Classes, class: TokenRegEx, pos: int) -> int
    decreases cl.len() - pos,
{
    if is_class(cl, pos, class) {
        run_end(cl, class, pos + 1)
    } else {
        pos
    }
}

/// The end of the run of digits and decimal points that starts at `pos`, or
/// the error for a second decimal point in it. `seen_point` says whether a
/// decimal point came before `pos`.
pub open spec fn number_end(cl: Classes, pos: int, seen_point: bool) -> Result<int, LexError>
    decreases cl.len() - pos,
{
    if is_class(cl, pos, TokenRegEx::Number) {
        number_end(cl, pos + 1, seen_point)
    } else if is_class(cl, pos, TokenRegEx::DecimalPoint) {
        if seen_point {
            Err(LexError::InvalidNumber { pos: pos as u32 })
        } else {
            number_end(cl, pos + 1, true)
        }
    } else {
        Ok(pos)
    }
}

/// The first position from `pos` on that holds `quote`, or the length of
/// the text where none does.
pub open spec fn quote_end(s: Seq<char>, quote: char, pos: int) -> int
    decreases s.len() - pos,
{
    if 0 <= pos < s.len() && s[pos] != quote {
        quote_end(s, quote, pos + 1)
    } else {
        pos
    }
}

/// The token that a run of letters spells.
pub open spec fn word_token(text: Seq<char>) -> TokenModel {
    if text == "true"@ {
        TokenModel::truth(true)
    } else if text == "false"@ {
        TokenModel::truth(false)
    } else {
        TokenModel::word(TokenKind::Identifier, text)
    }
}

/// The token that one character of `class` makes by itself, for the
/// classes of punctuation and operators.
pub open spec fn mark_of(class: TokenRegEx) -> Option<TokenKind> {
    match class {
        TokenRegEx::SemiColon => Some(TokenKind::SemiColon),
        TokenRegEx::LeftParen => Some(TokenKind::LeftParen),
        TokenRegEx::RightParen => Some(TokenKind::RightParen),
        TokenRegEx::LeftSqBrace => Some(TokenKind::LeftSqBrace),
        TokenRegEx::RightSqBrace => Some(TokenKind::RightSqBrace),
        TokenRegEx::LeftCurlyBrace => Some(TokenKind::LeftCurlyBrace),
        TokenRegEx::RightCurlyBrace => Some(TokenKind::RightCurlyBrace),
        TokenRegEx::EqOp => Some(TokenKind::EqOp),
        TokenRegEx::AddOp => Some(TokenKind::AddOp),
        TokenRegEx::SubOp => Some(TokenKind::SubOp),
        TokenRegEx::MulOp => Some(TokenKind::MulOp),
        TokenRegEx::DivOp => Some(TokenKind::DivOp),
        TokenRegEx::PowOp => Some(TokenKind::PowOp),
        TokenRegEx::GtOp => Some(TokenKind::GtOp),
        TokenRegEx::LtOp => Some(TokenKind::LtOp),
        TokenRegEx::Comma => Some(TokenKind::Comma),
        _ => None,
    }
}

/// The number literal that starts at `pos`, with the position behind it.
pub open spec fn number_at(s: Seq<char>, cl: Classes, pos: int) -> Result<(TokenModel, int), LexError> {
    match number_end(cl, pos, false) {
        Ok(end) => Ok((TokenModel::word(TokenKind::NumberLiteral, s.subrange(pos, end)), end)),
        Err(e) => Err(e),
    }
}

/// The token that starts at `pos`, with the position behind it, or the
/// reason why none starts there. `pos` lies in the text.
pub open spec fn token_at(s: Seq<char>, cl: Classes, pos: int) -> Result<(TokenModel, int), LexError> {
    match cl[pos] {
        Some(TokenRegEx::Char) => {
            let end = run_end(cl, TokenRegEx::Char, pos);
            Ok((word_token(s.subrange(pos, end)), end))
        },
        Some(TokenRegEx::Number) => number_at(s, cl, pos),
        Some(TokenRegEx::DecimalPoint) => if is_class(cl, pos + 1, TokenRegEx::Number) {
            number_at(s, cl, pos)
        } else {
            Err(LexError::UnexpectedToken { token: s[pos], pos: pos as u32 })
        },
        Some(TokenRegEx::SimpleQuote) | Some(TokenRegEx::DoubleQuote) => {
            let end = quote_end(s, s[pos], pos + 1);
            if end < s.len() {
                Ok((TokenModel::word(TokenKind::StringLiteral, s.subrange(pos + 1, end)), end + 1))
            } else {
                Err(LexError::UnexpectedEof { pos: s.len() as u32 })
            }
        },
        Some(TokenRegEx::NegationOp) => if is_class(cl, pos + 1, TokenRegEx::EqOp) {
            Ok((TokenModel::mark(TokenKind::NotEqOp), pos + 2))
        } else {
            Ok((TokenModel::mark(TokenKind::NegationOp), pos + 1))
        },
        Some(class) => match mark_of(class) {
            Some(kind) => Ok((TokenModel::mark(kind), pos + 1)),
            None => Err(LexError::UnexpectedToken { token: s[pos], pos: pos as u32 }),
        },
        None => Err(LexError::UnexpectedToken { token: s[pos], pos: pos as u32 }),
    }
}

/// `done` followed by what the rest of a scan gave.
pub open spec fn prepend(done: Seq<TokenModel>, rest: Result<Seq<TokenModel>, LexError>) -> Result<
    Seq<TokenModel>,
    LexError,
> {
    match rest {
        Ok(tokens) => Ok(done + tokens),
        Err(e) => Err(e),
    }
}

/// `number_end` stays within the text and does not go back.
pub proof fn lemma_number_end_bounds(cl: Classes, pos: int, seen_point: bool)
    requires
        0 <= pos <= cl.len(),
    ensures
        match number_end(cl, pos, seen_point) {
            Ok(end) => pos <= end <= cl.len() && (end == pos ==> !is_class(cl, pos, TokenRegEx::Number)
                && !is_class(cl, pos, TokenRegEx::DecimalPoint)),
            Err(_) => true,
        },
    decreases cl.len() - pos,
{
    if is_class(cl, pos, TokenRegEx::Number) {
        lemma_number_end_bounds(cl, pos + 1, seen_point);
    } else if is_class(cl, pos, TokenRegEx::DecimalPoint) && !seen_point {
        lemma_number_end_bounds(cl, pos + 1, true);
    }
}

/// `quote_end` stays within the text and does not go back.
pub proof fn lemma_quote_end_bounds(s: Seq<char>, quote: char, pos: int)
    requires
        0 <= pos <= s.len(),
    ensures
        pos <= quote_end(s, quote, pos) <= s.len(),
    decreases s.len() - pos,
{
    if pos < s.len() && s[pos] != quote {
        lemma_quote_end_bounds(s, quote, pos + 1);
    }
}

/// A token is at least one character long and ends within the text.
pub proof fn lemma_token_at_advances(s: Seq<char>, cl: Classes, pos: int)
    requires
        0 <= pos < s.len() == cl.len(),
    ensures
        match token_at(s, cl, pos) {
            Ok((_, next)) => pos < next <= s.len(),
            Err(_) => true,
        },
{
    lemma_run_end_bounds(cl, TokenRegEx::Char, pos + 1);
    lemma_number_end_bounds(cl, pos, false);
    lemma_quote_end_bounds(s, s[pos], pos + 1);
}

/// The tokens of the text from `pos` on, closed by the end-of-input token,
/// or the first error. White space before a token and before the end is
/// passed over.
pub open spec fn scan_from(s: Seq<char>, cl: Classes, pos: int) -> Result<Seq<TokenModel>, LexError>
    decreases s.len() - pos,
{
    let start = run_end(cl, TokenRegEx::EmptySpace, pos);
    if 0 <= pos <= start < s.len() == cl.len() {
        proof {
            lemma_token_at_advances(s, cl, start);
        }
        match token_at(s, cl, start) {
            Ok((token, next)) => prepend(seq![token], scan_from(s, cl, next)),
            Err(e) => Err(e),
        }
    } else {
        Ok(seq![TokenModel::mark(TokenKind::EOF)])
    }
}

/// The classes of the characters of `s`, each character classified alone.
pub open spec fn classes_of(s: Seq<char>) -> Classes {
    Seq::new(s.len(), |i: int| spec_classify(s.subrange(i, i + 1)))
}

/// The tokens of `s`, or the error that stops the scan.
pub open spec fn spec_tokenize(s: Seq<char>) -> Result<Seq<TokenModel>, LexError> {
    scan_from(s, classes_of(s), 0)
}

/// The models of a sequence of tokens.
pub open spec fn models(tokens: Seq<Token>) -> Seq<TokenModel> {
    tokens.map_values(|t: Token| t@)
}

/// Whether what a scan returned is what `expected` says.
pub open spec fn scanned(r: Result<Vec<Token>, LexError>, expected: Result<Seq<TokenModel>, LexError>) -> bool {
    match r {
        Ok(tokens) => expected == Ok::<Seq<TokenModel>, LexError>(models(tokens@)),
        Err(e) => expected == Err::<Seq<TokenModel>, LexError>(e),
    }
}

/// `run_end` stays within the text and does not go back.
pub proof fn lemma_run_end_bounds(cl: Classes, class: TokenRegEx, pos: int)
    requires
        0 <= pos <= cl.len(),
    ensures
        pos <= run_end(cl, class, pos) <= cl.len(),
        !is_class(cl, run_end(cl, class, pos), class),
    decreases cl.len() - pos,
{
    if is_class(cl, pos, class) {
        lemma_run_end_bounds(cl, class, pos + 1);
    }
}

/// A scanner over one text.
pub struct Tokenizer<'a> {
    pub pos: u32,
    pub text: &'a str,
    pub classes: Vec<Option<TokenRegEx>>,
}

impl<'a> Tokenizer<'a> {
    /// The scanner's invariant: one class per character, a length that a
    /// position can hold, and a position within the text.
    pub open spec fn wf(&self) -> bool {
        &&& self.classes@.len() == self.text@.len()
        &&& self.text@.len() < u32::MAX
        &&& self.pos <= self.text@.len()
    }

    /// A scanner at the start of `text`, whose characters are not yet
    /// classified.
    pub fn new(text: &'a str) -> (r: Self)
        ensures
            r.pos == 0,
            r.text@ == text@,
            r.classes@.len() == 0,
    {
        Tokenizer { pos: 0, text, classes: Vec::new() }
    }

    /// A scanner at the start of `text` with the given classes.
    pub fn with_classes(text: &'a str, classes: Vec<Option<TokenRegEx>>) -> (r: Self)
        ensures
            r.pos == 0,
            r.text@ == text@,
            r.classes == classes,
    {
        Tokenizer { pos: 0, text, classes }
    }

    /// Classifies the characters of the text and scans it from its start.
    pub fn tokenize(&mut self) -> (r: Result<Vec<Token>, LexError>)
        requires
            old(self).text@.len() < u32::MAX,
        ensures
            scanned(r, spec_tokenize(old(self).text@)),
            final(self).text@ == old(self).text@,
            final(self).classes@ == classes_of(old(self).text@),
    {
        let n = self.text.unicode_len();
        let mut classes: Vec<Option<TokenRegEx>> = Vec::new();
        let mut i: usize = 0;
        while i < n
            invariant
                n == self.text@.len(),
                i <= n,
                classes@.len() == i,
                forall|k: int| 0 <= k < i ==> classes@[k] == classes_of(self.text@)[k],
            decreases n - i,
        {
            let one = self.text.substring_char(i, i + 1);
            classes.push(classify(one));
            i += 1;
        }
        assert(classes@ =~= classes_of(self.text@));
        self.classes = classes;
        self.pos = 0;
        self.scan()
    }

    /// Scans the text from the scanner's position to its end.
    pub fn scan(&mut self) -> (r: Result<Vec<Token>, LexError>)
        requires
            old(self).wf(),
        ensures
            scanned(r, scan_from(old(self).text@, old(self).classes@, old(self).pos as int)),
            final(self).text@ == old(self).text@,
            final(self).classes == old(self).classes,
    {
        let ghost s = self.text@;
        let ghost cl = self.classes@;
        let ghost goal = scan_from(s, cl, self.pos as int);
        let mut tokens: Vec<Token> = Vec::new();
        loop
            invariant
                self.wf(),
                s == old(self).text@,
                cl == old(self).classes@,
                goal == scan_from(s, cl, old(self).pos as int),
                self.text@ == s,
                self.classes == old(self).classes,
                goal == prepend(models(tokens@), scan_from(s, cl, self.pos as int)),
            decreases s.len() - self.pos,
        {
            let ghost before = self.pos as int;
            let ghost done = models(tokens@);
            self.skip_empty_space();
            proof {
                lemma_run_end_bounds(cl, TokenRegEx::EmptySpace, before);
            }
            if self.is_eof() {
                tokens.push(Token::EOF);
                proof {
                    assert(models(tokens@) =~= done + seq![TokenModel::mark(TokenKind::EOF)]);
                }
                return Ok(tokens);
            }
            let ghost start = self.pos as int;
            match self.token() {
                Ok(token) => {
                    tokens.push(token);
                    proof {
                        let next = self.pos as int;
                        assert(models(tokens@) =~= done + seq![token@]);
                        match scan_from(s, cl, next) {
                            Ok(rest) => {
                                assert(done + (seq![token@] + rest) =~= (done + seq![token@]) + rest);
                            },
                            Err(_) => {},
                        }
                    }
                },
                Err(e) => {
                    return Err(e);
                },
            }
        }
    }

    /// Reads the token at the position, which holds no white space, and
    /// moves behind it.
    fn token(&mut self) -> (r: Result<Token, LexError>)
        requires
            old(self).wf(),
            old(self).pos < old(self).text@.len(),
        ensures
            final(self).wf(),
            final(self).text@ == old(self).text@,
            final(self).classes == old(self).classes,
            match r {
                Ok(token) => token_at(old(self).text@, old(self).classes@, old(self).pos as int) == Ok::<
                    (TokenModel, int),
                    LexError,
                >((token@, final(self).pos as int)) && old(self).pos < final(self).pos,
                Err(e) => token_at(old(self).text@, old(self).classes@, old(self).pos as int) == Err::<
                    (TokenModel, int),
                    LexError,
                >(e),
            },
    {
        let start = self.pos;
        match self.classes[start as usize] {
            Some(TokenRegEx::Char) => {
                let value = self.identifier();
                let yes = String::from_str("true");
                let no = String::from_str("false");
                if value == yes {
                    Ok(Token::BoolLiteral { value: true })
                } else if value == no {
                    Ok(Token::BoolLiteral { value: false })
                } else {
                    Ok(Token::Identifier { value })
                }
            },
            Some(TokenRegEx::Number) => {
                match self.number() {
                    Ok(value) => Ok(Token::NumberLiteral { value }),
                    Err(e) => Err(e),
                }
            },
            Some(TokenRegEx::DecimalPoint) => {
                if self.is(start + 1, TokenRegEx::Number) {
                    match self.number() {
                        Ok(value) => Ok(Token::NumberLiteral { value }),
                        Err(e) => Err(e),
                    }
                } else {
                    Err(unexpected_token(self.current(), &start))
                }
            },
            Some(TokenRegEx::SimpleQuote) | Some(TokenRegEx::DoubleQuote) => {
                let quote = self.current();
                match self.string(quote) {
                    Ok(value) => Ok(Token::StringLiteral { value }),
                    Err(e) => Err(e),
                }
            },
            Some(TokenRegEx::NegationOp) => {
                self.advance();
                if self.is(self.pos, TokenRegEx::EqOp) {
                    self.advance();
                    Ok(Token::NotEqOp)
                } else {
                    Ok(Token::NegationOp)
                }
            },
            Some(TokenRegEx::SemiColon) => {
                self.advance();
                Ok(Token::SemiColon)
            },
            Some(TokenRegEx::LeftParen) => {
                self.advance();
                Ok(Token::LeftParen)
            },
            Some(TokenRegEx::RightParen) => {
                self.advance();
                Ok(Token::RightParen)
            },
            Some(TokenRegEx::LeftSqBrace) => {
                self.advance();
                Ok(Token::LeftSqBrace)
            },
            Some(TokenRegEx::RightSqBrace) => {
                self.advance();
                Ok(Token::RightSqBrace)
            },
            Some(TokenRegEx::LeftCurlyBrace) => {
                self.advance();
                Ok(Token::LeftCurlyBrace)
            },
            Some(TokenRegEx::RightCurlyBrace) => {
                self.advance();
                Ok(Token::RightCurlyBrace)
            },
            Some(TokenRegEx::EqOp) => {
                self.advance();
                Ok(Token::EqOp)
            },
            Some(TokenRegEx::AddOp) => {
                self.advance();
                Ok(Token::AddOp)
            },
            Some(TokenRegEx::SubOp) => {
                self.advance();
                Ok(Token::SubOp)
            },
            Some(TokenRegEx::MulOp) => {
                self.advance();
                Ok(Token::MulOp)
            },
            Some(TokenRegEx::DivOp) => {
                self.advance();
                Ok(Token::DivOp)
            },
            Some(TokenRegEx::PowOp) => {
                self.advance();
                Ok(Token::PowOp)
            },
            Some(TokenRegEx::GtOp) => {
                self.advance();
                Ok(Token::GtOp)
            },
            Some(TokenRegEx::LtOp) => {
                self.advance();
                Ok(Token::LtOp)
            },
            Some(TokenRegEx::Comma) => {
                self.advance();
                Ok(Token::Comma)
            },
            Some(TokenRegEx::EmptySpace) | None => Err(unexpected_token(self.current(), &start)),
        }
    }

    /// Moves past the white space at the position.
    fn skip_empty_space(&mut self)
        requires
            old(self).wf(),
        ensures
            final(self).wf(),
            final(self).text@ == old(self).text@,
            final(self).classes == old(self).classes,
            final(self).pos == run_end(old(self).classes@, TokenRegEx::EmptySpace, old(self).pos as int),
    {
        while self.is(self.pos, TokenRegEx::EmptySpace)
            invariant
                self.wf(),
                self.text@ == old(self).text@,
                self.classes == old(self).classes,
                run_end(self.classes@, TokenRegEx::EmptySpace, self.pos as int) == run_end(
                    old(self).classes@,
                    TokenRegEx::EmptySpace,
                    old(self).pos as int,
                ),
            decreases self.text@.len() - self.pos,
        {
            self.advance();
        }
    }

    /// Moves one character on.
    fn advance(&mut self)
        requires
            old(self).wf(),
            old(self).pos < old(self).text@.len(),
        ensures
            final(self).wf(),
            final(self).text@ == old(self).text@,
            final(self).classes == old(self).classes,
            final(self).pos == old(self).pos + 1,
    {
        self.pos += 1;
    }

    /// The character at the position.
    fn current(&self) -> (r: char)
        requires
            self.wf(),
            self.pos < self.text@.len(),
        ensures
            r == self.text@[self.pos as int],
    {
        self.text.get_char(self.pos as usize)
    }

    /// Whether the character at `at` is of `class`; no character beyond
    /// the text is of any class.
    fn is(&self, at: u32, class: TokenRegEx) -> (r: bool)
        requires
            self.wf(),
        ensures
            r == is_class(self.classes@, at as int, class),
    {
        if (at as usize) < self.classes.len() {
            match self.classes[at as usize] {
                Some(found) => found == class,
                None => false,
            }
        } else {
            false
        }
    }

    /// Whether the position is the end of the text.
    fn is_eof(&self) -> (r: bool)
        requires
            self.wf(),
        ensures
            r == (self.pos as int >= self.text@.len()),
    {
        self.pos as usize >= self.classes.len()
    }

    /// The text from `from` to the position.
    fn taken(&self, from: u32) -> (r: String)
        requires
            self.wf(),
            from <= self.pos,
        ensures
            r@ == self.text@.subrange(from as int, self.pos as int),
    {
        String::from_str(self.text.substring_char(from as usize, self.pos as usize))
    }

    /// Reads the run of letters at the position.
    fn identifier(&mut self) -> (r: String)
        requires
            old(self).wf(),
            is_class(old(self).classes@, old(self).pos as int, TokenRegEx::Char),
        ensures
            final(self).wf(),
            final(self).text@ == old(self).text@,
            final(self).classes == old(self).classes,
            final(self).pos == run_end(old(self).classes@, TokenRegEx::Char, old(self).pos as int),
            final(self).pos > old(self).pos,
            r@ == old(self).text@.subrange(old(self).pos as int, final(self).pos as int),
    {
        let start = self.pos;
        while self.is(self.pos, TokenRegEx::Char)
            invariant
                self.wf(),
                self.text@ == old(self).text@,
                self.classes == old(self).classes,
                start == old(self).pos,
                start <= self.pos,
                self.pos == start ==> is_class(self.classes@, start as int, TokenRegEx::Char),
                run_end(self.classes@, TokenRegEx::Char, self.pos as int) == run_end(
                    old(self).classes@,
                    TokenRegEx::Char,
                    old(self).pos as int,
                ),
            decreases self.text@.len() - self.pos,
        {
            self.advance();
        }
        self.taken(start)
    }

    /// Reads the number literal at the position: digits with at most one
    /// decimal point.
    fn number(&mut self) -> (r: Result<String, LexError>)
        requires
            old(self).wf(),
            is_class(old(self).classes@, old(self).pos as int, TokenRegEx::Number) || is_class(
                old(self).classes@,
                old(self).pos as int,
                TokenRegEx::DecimalPoint,
            ),
        ensures
            final(self).wf(),
            final(self).text@ == old(self).text@,
            final(self).classes == old(self).classes,
            match r {
                Ok(value) => number_end(old(self).classes@, old(self).pos as int, false) == Ok::<
                    int,
                    LexError,
                >(final(self).pos as int) && value@ == old(self).text@.subrange(
                    old(self).pos as int,
                    final(self).pos as int,
                ) && final(self).pos > old(self).pos,
                Err(e) => number_end(old(self).classes@, old(self).pos as int, false) == Err::<
                    int,
                    LexError,
                >(e),
            },
    {
        let start = self.pos;
        let mut is_there_decimal_point = false;
        loop
            invariant
                self.wf(),
                self.text@ == old(self).text@,
                self.classes == old(self).classes,
                start == old(self).pos,
                start <= self.pos,
                self.pos == start ==> !is_there_decimal_point && (is_class(
                    self.classes@,
                    start as int,
                    TokenRegEx::Number,
                ) || is_class(self.classes@, start as int, TokenRegEx::DecimalPoint)),
                number_end(self.classes@, self.pos as int, is_there_decimal_point) == number_end(
                    old(self).classes@,
                    old(self).pos as int,
                    false,
                ),
            decreases self.text@.len() - self.pos,
        {
            if self.is(self.pos, TokenRegEx::Number) {
                self.advance();
            } else if self.is(self.pos, TokenRegEx::DecimalPoint) {
                if is_there_decimal_point {
                    return Err(LexError::InvalidNumber { pos: self.pos });
                }
                is_there_decimal_point = true;
                self.advance();
            } else {
                return Ok(self.taken(start));
            }
        }
    }

    /// Reads the string literal whose opening quote, `quote_type`, is at
    /// the position.
    fn string(&mut self, quote_type: char) -> (r: Result<String, LexError>)
        requires
            old(self).wf(),
            old(self).pos < old(self).text@.len(),
        ensures
            final(self).wf(),
            final(self).text@ == old(self).text@,
            final(self).classes == old(self).classes,
            ({
                let s = old(self).text@;
                let end = quote_end(s, quote_type, old(self).pos + 1);
                match r {
                    Ok(value) => end < s.len() && value@ == s.subrange(old(self).pos + 1, end)
                        && final(self).pos == end + 1 && final(self).pos > old(self).pos,
                    Err(e) => end >= s.len() && e == (LexError::UnexpectedEof { pos: s.len() as u32 }),
                }
            }),
    {
        self.advance();
        let start = self.pos;
        loop
            invariant
                self.wf(),
                self.text@ == old(self).text@,
                self.classes == old(self).classes,
                start == old(self).pos + 1,
                start <= self.pos,
                quote_end(self.text@, quote_type, self.pos as int) == quote_end(
                    old(self).text@,
                    quote_type,
                    old(self).pos + 1,
                ),
            decreases self.text@.len() - self.pos,
        {
            if self.is_eof() {
                return Err(unexpected_eof(&self.pos));
            }
            if self.current() == quote_type {
                let value = self.taken(start);
                self.advance();
                return Ok(value);
            }
            self.advance();
        }
    }
}

/// Scans `text`, whose characters have the given classes.
pub fn scan(text: &str, classes: Vec<Option<TokenRegEx>>) -> (r: Result<Vec<Token>, LexError>)
    requires
        classes@.len() == text@.len() < u32::MAX,
    ensures
        scanned(r, scan_from(text@, classes@, 0)),
{
    let mut tokenizer = Tokenizer::with_classes(text, classes);
    tokenizer.scan()
}

} // verus!
