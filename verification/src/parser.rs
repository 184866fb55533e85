//! The parser: from tokens to a syntax tree, by recursive descent.
//!
//! The grammar, lowest precedence first:
//!
//! ```text
//! expression  := equality
//! equality    := comparison ( ("!=" | "==") comparison )*
//! comparison  := term ( (">" | ">=" | "<" | "<=") term )*
//! term        := factor ( ("-" | "+") factor )*
//! factor      := unary ( ("/" | "*") unary )*
//! unary       := ("!" | "-") unary | primary
//! primary     := NUMBER | STRING | "true" | "false" | "nil" | "(" expression ")"
//! ```
//!
//! The spec functions `parse_primary`, `parse_unary`, `parse_level` and
//! `parse_rest` say what each rule makes of the tokens from a position on:
//! the expression and the position behind it, or the error. `Parser::parse`
//! returns what `parse_all` says.

use crate::expression::Expr;
use crate::token::{Literal, Token, TokenType};
use vstd::prelude::*;

verus! {

/// What the parser was looking for when it met a token that it could not use.
#[derive(Debug, Clone, Copy, PartialEq, Eq, Structural)]
pub enum Expected {
    /// The start of an expression: a literal, `(`, `!` or `-`.
    Expression,
    /// The `)` that closes a grouping.
    RightParen,
    /// The end of input behind the expression.
    EndOfInput,
}

/// A parse error: what was expected, the kind of the token found in its
/// place, and the line of that token.
#[derive(Debug, Clone, Copy, PartialEq, Eq, Structural)]
pub struct ParseError {
    pub expected: Expected,
    pub found: TokenType,
    pub line: u32,
}

/// The binary rules of the grammar, lowest precedence first.
pub enum Level {
    Equality,
    Comparison,
    Term,
    Factor,
}

impl Level {
    /// The operators of the rule.
    pub open spec fn operators(self, kind: TokenType) -> bool {
        match self {
            Level::Equality => kind == TokenType::BangEqual || kind == TokenType::EqualEqual,
            Level::Comparison => kind == TokenType::Greater || kind == TokenType::GreaterEqual
                || kind == TokenType::Less || kind == TokenType::LessEqual,
            Level::Term => kind == TokenType::Minus || kind == TokenType::Plus,
            Level::Factor => kind == TokenType::Slash || kind == TokenType::Star,
        }
    }

    /// How far the rule is from `unary`, for termination.
    pub open spec fn rank(self) -> int {
        match self {
            Level::Equality => 4,
            Level::Comparison => 3,
            Level::Term => 2,
            Level::Factor => 1,
        }
    }
}

/// The kind of the token at `pos`; behind the last token, the end of input.
pub open spec fn kind_at(tokens: Seq<Token>, pos: int) -> TokenType {
    if 0 <= pos < tokens.len() {
        tokens[pos].token_type
    } else {
        TokenType::Eof
    }
}

/// The line of the token at `pos`; behind the last token, the line of the
/// last token, and 1 if there is none.
pub open spec fn line_at(tokens: Seq<Token>, pos: int) -> u32 {
    if 0 <= pos < tokens.len() {
        tokens[pos].line
    } else if tokens.len() > 0 {
        tokens.last().line
    } else {
        1
    }
}

/// The error of meeting the token at `pos` where `expected` was looked for.
pub open spec fn error_at(tokens: Seq<Token>, pos: int, expected: Expected) -> ParseError {
    ParseError { expected, found: kind_at(tokens, pos), line: line_at(tokens, pos) }
}

/// What a rule makes of the tokens: an expression and the position behind
/// it, or an error.
pub type Parsed = Result<(Expr, int), ParseError>;

/// `primary := NUMBER | STRING | "true" | "false" | "nil" | "(" expression ")"`.
/// A number or string token is a literal with the value that it carries.
pub open spec fn parse_primary(tokens: Seq<Token>, pos: int) -> Parsed
    decreases tokens.len() - pos, 0int,
{
    match kind_at(tokens, pos) {
        TokenType::False => Ok((Expr::Literal(Literal::Boolean(false)), pos + 1)),
        TokenType::True => Ok((Expr::Literal(Literal::Boolean(true)), pos + 1)),
        TokenType::Nil => Ok((Expr::Literal(Literal::Nil), pos + 1)),
        TokenType::Number | TokenType::StringLiteral => match tokens[pos].literal {
            Some(value) => Ok((Expr::Literal(value), pos + 1)),
            None => Err(error_at(tokens, pos, Expected::Expression)),
        },
        TokenType::LeftParen => match parse_level(tokens, pos + 1, Level::Equality) {
            Ok((inner, end)) => if kind_at(tokens, end) == TokenType::RightParen {
                Ok((Expr::Grouping(Box::new(inner)), end + 1))
            } else {
                Err(error_at(tokens, end, Expected::RightParen))
            },
            Err(e) => Err(e),
        },
        _ => Err(error_at(tokens, pos, Expected::Expression)),
    }
}

/// `unary := ("!" | "-") unary | primary`.
pub open spec fn parse_unary(tokens: Seq<Token>, pos: int) -> Parsed
    decreases tokens.len() - pos, 1int,
{
    if kind_at(tokens, pos).prefix() {
        match parse_unary(tokens, pos + 1) {
            Ok((operand, end)) => Ok((Expr::Unary(tokens[pos], Box::new(operand)), end)),
            Err(e) => Err(e),
        }
    } else {
        parse_primary(tokens, pos)
    }
}

/// An operand of a binary rule: the rule of the next higher precedence.
pub open spec fn parse_operand(tokens: Seq<Token>, pos: int, level: Level) -> Parsed
    decreases tokens.len() - pos, 2 * level.rank(),
{
    match level {
        Level::Equality => parse_level(tokens, pos, Level::Comparison),
        Level::Comparison => parse_level(tokens, pos, Level::Term),
        Level::Term => parse_level(tokens, pos, Level::Factor),
        Level::Factor => parse_unary(tokens, pos),
    }
}

/// A binary rule: an operand, then operators and operands as long as an
/// operator of the rule follows.
pub open spec fn parse_level(tokens: Seq<Token>, pos: int, level: Level) -> Parsed
    decreases tokens.len() - pos, 2 * level.rank() + 1,
{
    match parse_operand(tokens, pos, level) {
        Ok((left, end)) => if pos < end <= tokens.len() {
            parse_rest(tokens, end, level, left)
        } else {
            Ok((left, end))
        },
        Err(e) => Err(e),
    }
}

/// The rest of a binary rule behind the operand `left`: while an operator of
/// the rule follows, it and the operand behind it make, with what stands to
/// their left, the new left operand. So the operators of one rule associate
/// to the left. (An operand is never empty; the comparison of positions is
/// there to show that the definition terminates.)
pub open spec fn parse_rest(tokens: Seq<Token>, pos: int, level: Level, left: Expr) -> Parsed
    decreases tokens.len() - pos, 0int,
{
    if 0 <= pos < tokens.len() && level.operators(tokens[pos].token_type) {
        match parse_operand(tokens, pos + 1, level) {
            Ok((right, end)) => if pos < end <= tokens.len() {
                parse_rest(
                    tokens,
                    end,
                    level,
                    Expr::Binary(Box::new(left), tokens[pos], Box::new(right)),
                )
            } else {
                Ok((left, pos))
            },
            Err(e) => Err(e),
        }
    } else {
        Ok((left, pos))
    }
}

/// One expression and nothing behind it but the end of input.
pub open spec fn parse_all(tokens: Seq<Token>, pos: int) -> Parsed {
    match parse_level(tokens, pos, Level::Equality) {
        Ok((expr, end)) => if kind_at(tokens, end) == TokenType::Eof {
            Ok((expr, end))
        } else {
            Err(error_at(tokens, end, Expected::EndOfInput))
        },
        Err(e) => Err(e),
    }
}

/// Whether what was parsed from `pos` is an expression with sound operators
/// that ends behind `pos` and inside the tokens.
pub open spec fn sound(tokens: Seq<Token>, pos: int, parsed: Parsed) -> bool {
    parsed matches Ok((expr, end)) ==> expr.well_formed() && pos < end <= tokens.len()
}

/// The spec functions of the grammar, for the proof that they are sound.
enum Rule {
    Primary,
    Unary,
    Operand,
    Level,
    Rest,
}

impl Rule {
    /// The second part of the measure by which the spec function of the rule
    /// terminates.
    spec fn rank(self, level: Level) -> int {
        match self {
            Rule::Primary | Rule::Rest => 0,
            Rule::Unary => 1,
            Rule::Operand => 2 * level.rank(),
            Rule::Level => 2 * level.rank() + 1,
        }
    }
}

/// Every rule consumes at least one token, ends inside the tokens, and
/// builds only operators that may stand where they stand. The rest of a
/// binary rule may consume nothing, and what it builds is sound if what
/// stands to its left is.
proof fn lemma_parse_sound(tokens: Seq<Token>, pos: int, rule: Rule, level: Level, left: Expr)
    requires
        0 <= pos,
        rule is Rest ==> left.well_formed() && pos <= tokens.len(),
    ensures
        rule is Primary ==> sound(tokens, pos, parse_primary(tokens, pos)),
        rule is Unary ==> sound(tokens, pos, parse_unary(tokens, pos)),
        rule is Operand ==> sound(tokens, pos, parse_operand(tokens, pos, level)),
        rule is Level ==> sound(tokens, pos, parse_level(tokens, pos, level)),
        rule is Rest ==> (parse_rest(tokens, pos, level, left) matches Ok((expr, end))
            ==> expr.well_formed() && pos <= end <= tokens.len()),
    decreases tokens.len() - pos, rule.rank(level),
{
    match rule {
        Rule::Primary => {
            if kind_at(tokens, pos) == TokenType::LeftParen {
                lemma_parse_sound(tokens, pos + 1, Rule::Level, Level::Equality, left);
            }
        },
        Rule::Unary => {
            if kind_at(tokens, pos).prefix() {
                lemma_parse_sound(tokens, pos + 1, Rule::Unary, level, left);
            } else {
                lemma_parse_sound(tokens, pos, Rule::Primary, level, left);
            }
        },
        Rule::Operand => {
            match level {
                Level::Equality => lemma_parse_sound(
                    tokens,
                    pos,
                    Rule::Level,
                    Level::Comparison,
                    left,
                ),
                Level::Comparison => lemma_parse_sound(tokens, pos, Rule::Level, Level::Term, left),
                Level::Term => lemma_parse_sound(tokens, pos, Rule::Level, Level::Factor, left),
                Level::Factor => lemma_parse_sound(tokens, pos, Rule::Unary, level, left),
            }
        },
        Rule::Level => {
            lemma_parse_sound(tokens, pos, Rule::Operand, level, left);
            if let Ok((first, end)) = parse_operand(tokens, pos, level) {
                lemma_parse_sound(tokens, end, Rule::Rest, level, first);
            }
        },
        Rule::Rest => {
            if pos < tokens.len() && level.operators(tokens[pos].token_type) {
                lemma_parse_sound(tokens, pos + 1, Rule::Operand, level, left);
                if let Ok((right, end)) = parse_operand(tokens, pos + 1, level) {
                    lemma_parse_sound(
                        tokens,
                        end,
                        Rule::Rest,
                        level,
                        Expr::Binary(Box::new(left), tokens[pos], Box::new(right)),
                    );
                }
            }
        },
    }
}

/// An operand of a binary rule is never empty, and its operators are sound.
pub proof fn lemma_operand_sound(tokens: Seq<Token>, pos: int, level: Level)
    requires
        0 <= pos,
    ensures
        sound(tokens, pos, parse_operand(tokens, pos, level)),
{
    lemma_parse_sound(tokens, pos, Rule::Operand, level, Expr::Literal(Literal::Nil));
}

/// What the parser returns consumes at least one token and ends on the end
/// of input, and every operator in it is one that the grammar puts there.
pub proof fn lemma_parse_all_sound(tokens: Seq<Token>, pos: int)
    requires
        0 <= pos,
    ensures
        parse_all(tokens, pos) matches Ok((expr, end)) ==> expr.well_formed() && pos < end
            && kind_at(tokens, end) == TokenType::Eof,
{
    lemma_parse_sound(tokens, pos, Rule::Level, Level::Equality, Expr::Literal(Literal::Nil));
}

/// The parser: the tokens and the position of the next one.
pub struct Parser {
    tokens: Vec<Token>,
    current: usize,
}

impl Parser {
    /// The tokens that the parser reads.
    pub closed spec fn tokens(&self) -> Seq<Token> {
        self.tokens@
    }

    /// The position of the next token.
    pub closed spec fn position(&self) -> int {
        self.current as int
    }

    /// A parser that stands before the first of `tokens`.
    pub fn new(tokens: Vec<Token>) -> (p: Parser)
        ensures
            p.tokens() == tokens@,
            p.position() == 0,
    {
        return Parser { tokens, current: 0 };
    }

    /// Parses one expression, which has to take up all tokens to the end of
    /// input. On an error the parser is left where it was.
    pub fn parse(&mut self) -> (r: Result<Box<Expr>, ParseError>)
        ensures
            final(self).tokens() == old(self).tokens(),
            match parse_all(old(self).tokens(), old(self).position()) {
                Ok((expr, end)) => r == Ok::<Box<Expr>, ParseError>(Box::new(expr))
                    && expr.well_formed() && final(self).position() == end,
                Err(e) => r == Err::<Box<Expr>, ParseError>(e) && final(self).position() == old(
                    self,
                ).position(),
            },
    {
        let start: usize = self.current;
        proof {
            lemma_parse_all_sound(self.tokens@, self.current as int);
        }
        match self.expression() {
            Ok(expr) => {
                if self.is_next(&[TokenType::Eof]) || self.current >= self.tokens.len() {
                    Ok(expr)
                } else {
                    let e = self.error(Expected::EndOfInput);
                    self.current = start;
                    Err(e)
                }
            },
            Err(e) => {
                self.current = start;
                Err(e)
            },
        }
    }

    /// The error of meeting the next token where `expected` was looked for.
    fn error(&self, expected: Expected) -> (e: ParseError)
        ensures
            e == error_at(self.tokens@, self.current as int, expected),
    {
        if self.current < self.tokens.len() {
            ParseError {
                expected,
                found: self.tokens[self.current].token_type,
                line: self.tokens[self.current].line,
            }
        } else if self.tokens.len() > 0 {
            ParseError {
                expected,
                found: TokenType::Eof,
                line: self.tokens[self.tokens.len() - 1].line,
            }
        } else {
            ParseError { expected, found: TokenType::Eof, line: 1 }
        }
    }

    /// Whether the next token is of one of the kinds `expected`.
    fn is_next(&self, expected: &[TokenType]) -> (r: bool)
        ensures
            r == (self.current < self.tokens@.len() && expected@.contains(
                self.tokens@[self.current as int].token_type,
            )),
            r ==> self.current < usize::MAX,
    {
        if self.current >= self.tokens.len() {
            return false;
        }
        let kind = self.tokens[self.current].token_type;
        let mut i: usize = 0;
        while i < expected.len()
            invariant
                i <= expected@.len(),
                self.current < self.tokens@.len() <= usize::MAX,
                kind == self.tokens@[self.current as int].token_type,
                forall|j: int| 0 <= j < i ==> expected@[j] != kind,
            decreases expected.len() - i,
        {
            if kind == expected[i] {
                assert(expected@[i as int] == kind);
                return true;
            }
            i += 1;
        }
        return false;
    }

    /// `expression := equality`
    fn expression(&mut self) -> (r: Result<Box<Expr>, ParseError>)
        ensures
            final(self).tokens == old(self).tokens,
            old(self).current <= final(self).current,
            match parse_level(old(self).tokens@, old(self).current as int, Level::Equality) {
                Ok((expr, end)) => r == Ok::<Box<Expr>, ParseError>(Box::new(expr))
                    && final(self).current == end,
                Err(e) => r == Err::<Box<Expr>, ParseError>(e),
            },
        decreases old(self).tokens@.len() - old(self).current, 10int,
    {
        return self.equality();
    }

    /// `equality := comparison ( ("!=" | "==") comparison )*`
    fn equality(&mut self) -> (r: Result<Box<Expr>, ParseError>)
        ensures
            final(self).tokens == old(self).tokens,
            old(self).current <= final(self).current,
            match parse_level(old(self).tokens@, old(self).current as int, Level::Equality) {
                Ok((expr, end)) => r == Ok::<Box<Expr>, ParseError>(Box::new(expr))
                    && final(self).current == end,
                Err(e) => r == Err::<Box<Expr>, ParseError>(e),
            },
        decreases old(self).tokens@.len() - old(self).current, 9int,
    {
        let ghost tokens = self.tokens@;
        let ghost pos: int = self.current as int;
        proof {
            lemma_operand_sound(tokens, pos, Level::Equality);
        }
        let mut expr = self.comparison()?;
        while self.is_next(&[TokenType::BangEqual, TokenType::EqualEqual])
            invariant
                self.tokens == old(self).tokens,
                tokens == self.tokens@,
                pos == old(self).current,
                pos < self.current,
                parse_level(tokens, pos, Level::Equality) == parse_rest(
                    tokens,
                    self.current as int,
                    Level::Equality,
                    *expr,
                ),
            decreases tokens.len() - self.current,
        {
            let op = self.tokens[self.current].clone();
            self.current += 1;
            proof {
                lemma_operand_sound(tokens, self.current as int, Level::Equality);
            }
            let right = self.comparison()?;
            expr = Box::new(Expr::Binary(expr, op, right));
        }
        return Ok(expr);
    }

    /// `comparison := term ( (">" | ">=" | "<" | "<=") term )*`
    fn comparison(&mut self) -> (r: Result<Box<Expr>, ParseError>)
        ensures
            final(self).tokens == old(self).tokens,
            old(self).current <= final(self).current,
            match parse_level(old(self).tokens@, old(self).current as int, Level::Comparison) {
                Ok((expr, end)) => r == Ok::<Box<Expr>, ParseError>(Box::new(expr))
                    && final(self).current == end,
                Err(e) => r == Err::<Box<Expr>, ParseError>(e),
            },
        decreases old(self).tokens@.len() - old(self).current, 7int,
    {
        let ghost tokens = self.tokens@;
        let ghost pos: int = self.current as int;
        proof {
            lemma_operand_sound(tokens, pos, Level::Comparison);
        }
        let mut expr = self.term()?;
        while self.is_next(
            &[
                TokenType::Greater,
                TokenType::GreaterEqual,
                TokenType::Less,
                TokenType::LessEqual,
            ],
        )
            invariant
                self.tokens == old(self).tokens,
                tokens == self.tokens@,
                pos == old(self).current,
                pos < self.current,
                parse_level(tokens, pos, Level::Comparison) == parse_rest(
                    tokens,
                    self.current as int,
                    Level::Comparison,
                    *expr,
                ),
            decreases tokens.len() - self.current,
        {
            let op = self.tokens[self.current].clone();
            self.current += 1;
            proof {
                lemma_operand_sound(tokens, self.current as int, Level::Comparison);
            }
            let right = self.term()?;
            expr = Box::new(Expr::Binary(expr, op, right));
        }
        return Ok(expr);
    }

    /// `term := factor ( ("-" | "+") factor )*`
    fn term(&mut self) -> (r: Result<Box<Expr>, ParseError>)
        ensures
            final(self).tokens == old(self).tokens,
            old(self).current <= final(self).current,
            match parse_level(old(self).tokens@, old(self).current as int, Level::Term) {
                Ok((expr, end)) => r == Ok::<Box<Expr>, ParseError>(Box::new(expr))
                    && final(self).current == end,
                Err(e) => r == Err::<Box<Expr>, ParseError>(e),
            },
        decreases old(self).tokens@.len() - old(self).current, 5int,
    {
        let ghost tokens = self.tokens@;
        let ghost pos: int = self.current as int;
        proof {
            lemma_operand_sound(tokens, pos, Level::Term);
        }
        let mut expr = self.factor()?;
        while self.is_next(&[TokenType::Minus, TokenType::Plus])
            invariant
                self.tokens == old(self).tokens,
                tokens == self.tokens@,
                pos == old(self).current,
                pos < self.current,
                parse_level(tokens, pos, Level::Term) == parse_rest(
                    tokens,
                    self.current as int,
                    Level::Term,
                    *expr,
                ),
            decreases tokens.len() - self.current,
        {
            let op = self.tokens[self.current].clone();
            self.current += 1;
            proof {
                lemma_operand_sound(tokens, self.current as int, Level::Term);
            }
            let right = self.factor()?;
            expr = Box::new(Expr::Binary(expr, op, right));
        }
        return Ok(expr);
    }

    /// `factor := unary ( ("/" | "*") unary )*`
    fn factor(&mut self) -> (r: Result<Box<Expr>, ParseError>)
        ensures
            final(self).tokens == old(self).tokens,
            old(self).current <= final(self).current,
            match parse_level(old(self).tokens@, old(self).current as int, Level::Factor) {
                Ok((expr, end)) => r == Ok::<Box<Expr>, ParseError>(Box::new(expr))
                    && final(self).current == end,
                Err(e) => r == Err::<Box<Expr>, ParseError>(e),
            },
        decreases old(self).tokens@.len() - old(self).current, 3int,
    {
        let ghost tokens = self.tokens@;
        let ghost pos: int = self.current as int;
        proof {
            lemma_operand_sound(tokens, pos, Level::Factor);
        }
        let mut expr = self.unary()?;
        while self.is_next(&[TokenType::Slash, TokenType::Star])
            invariant
                self.tokens == old(self).tokens,
                tokens == self.tokens@,
                pos == old(self).current,
                pos < self.current,
                parse_level(tokens, pos, Level::Factor) == parse_rest(
                    tokens,
                    self.current as int,
                    Level::Factor,
                    *expr,
                ),
            decreases tokens.len() - self.current,
        {
            let op = self.tokens[self.current].clone();
            self.current += 1;
            proof {
                lemma_operand_sound(tokens, self.current as int, Level::Factor);
            }
            let right = self.unary()?;
            expr = Box::new(Expr::Binary(expr, op, right));
        }
        return Ok(expr);
    }

    /// `unary := ("!" | "-") unary | primary`
    fn unary(&mut self) -> (r: Result<Box<Expr>, ParseError>)
        ensures
            final(self).tokens == old(self).tokens,
            old(self).current <= final(self).current,
            match parse_unary(old(self).tokens@, old(self).current as int) {
                Ok((expr, end)) => r == Ok::<Box<Expr>, ParseError>(Box::new(expr))
                    && final(self).current == end,
                Err(e) => r == Err::<Box<Expr>, ParseError>(e),
            },
        decreases old(self).tokens@.len() - old(self).current, 1int,
    {
        if self.is_next(&[TokenType::Bang, TokenType::Minus]) {
            let op = self.tokens[self.current].clone();
            self.current += 1;
            let right = self.unary()?;
            return Ok(Box::new(Expr::Unary(op, right)));
        }
        return self.primary();
    }

    /// `primary := NUMBER | STRING | "true" | "false" | "nil" | "(" expression ")"`
    fn primary(&mut self) -> (r: Result<Box<Expr>, ParseError>)
        ensures
            final(self).tokens == old(self).tokens,
            old(self).current <= final(self).current,
            match parse_primary(old(self).tokens@, old(self).current as int) {
                Ok((expr, end)) => r == Ok::<Box<Expr>, ParseError>(Box::new(expr))
                    && final(self).current == end,
                Err(e) => r == Err::<Box<Expr>, ParseError>(e),
            },
        decreases old(self).tokens@.len() - old(self).current, 0int,
    {
        if self.current >= self.tokens.len() {
            return Err(self.error(Expected::Expression));
        }
        match self.tokens[self.current].token_type {
            TokenType::False => {
                self.current += 1;
                return Ok(Box::new(Expr::Literal(Literal::Boolean(false))));
            },
            TokenType::True => {
                self.current += 1;
                return Ok(Box::new(Expr::Literal(Literal::Boolean(true))));
            },
            TokenType::Nil => {
                self.current += 1;
                return Ok(Box::new(Expr::Literal(Literal::Nil)));
            },
            TokenType::Number | TokenType::StringLiteral => {
                match &self.tokens[self.current].literal {
                    Some(value) => {
                        let value = value.clone();
                        self.current += 1;
                        return Ok(Box::new(Expr::Literal(value)));
                    },
                    None => {
                        return Err(self.error(Expected::Expression));
                    },
                }
            },
            TokenType::LeftParen => {
                self.current += 1;
                let expr = self.expression()?;
                if !self.is_next(&[TokenType::RightParen]) {
                    return Err(self.error(Expected::RightParen));
                }
                self.current += 1;
                return Ok(Box::new(Expr::Grouping(expr)));
            },
            _ => {
                return Err(self.error(Expected::Expression));
            },
        }
    }
}

} // verus!
