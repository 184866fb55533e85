//! The whole way from a line of source text to a value or a diagnostic.

use crate::expression::Expr;
use crate::interpreter::{
    binary_result,
    evaluates,
    unary_result,
    Computes,
    Interpreter,
    Outcome,
    TypeError,
};
use crate::number;
use crate::number::Arithmetic;
use crate::parser::{
    kind_at,
    parse_all,
    parse_level,
    parse_operand,
    parse_primary,
    parse_rest,
    parse_unary,
    Level,
    ParseError,
    Parser,
};
use crate::scanner::{
    lemma_numeral_step,
    lexemes,
    prepend,
    spelled,
    spells,
    step,
    LexError,
    LexErrorKind,
    Lexeme,
    Reads,
    Scanned,
    Scanner,
    Step,
};
use crate::text::{decimal, digit};
use crate::token::{Literal, Token, TokenType, Value};
use vstd::prelude::*;

verus! {

/// Why a line has no value: the error of the stage that failed.
#[derive(Debug, Clone, Copy, PartialEq, Eq, Structural)]
pub enum Diagnostic {
    Lex(LexError),
    Parse(ParseError),
    Type(TypeError),
}

/// What was made of a line that has a value: its tokens, its syntax tree
/// and the value.
#[derive(Debug)]
pub struct Evaluation {
    pub tokens: Vec<Token>,
    pub expr: Box<Expr>,
    pub value: Literal,
}

/// Whether `out` is a result of scanning, parsing and evaluating `src`:
/// the error of the first stage that fails, or else the tokens that spell
/// the lexemes of `src`, the expression that they parse to, and a value that
/// the expression evaluates to.
pub open spec fn runs(parse: Reads, arith: Computes, src: Seq<char>, out: Result<
    Evaluation,
    Diagnostic,
>) -> bool {
    match lexemes(src, 0, 1) {
        Err((kind, line)) => out == Err::<Evaluation, Diagnostic>(
            Diagnostic::Lex(LexError { kind, line: line as u32 }),
        ),
        Ok(units) => match out {
            Ok(done) => {
                &&& spelled(parse, src, done.tokens@, units)
                &&& parse_all(done.tokens@, 0) matches Ok((expr, _))
                &&& *done.expr == expr
                &&& evaluates(arith, expr, Ok(done.value@))
            },
            Err(Diagnostic::Lex(_)) => false,
            Err(Diagnostic::Parse(e)) => exists|tokens: Seq<Token>|
                spelled(parse, src, tokens, units) && #[trigger] parse_all(tokens, 0) == Err::<
                    (Expr, int),
                    ParseError,
                >(e),
            Err(Diagnostic::Type(e)) => exists|tokens: Seq<Token>|
                spelled(parse, src, tokens, units) && (#[trigger] parse_all(tokens, 0) matches Ok(
                    (expr, _),
                ) && evaluates(arith, expr, Err(e))),
        },
    }
}

/// A copy of the tokens.
fn copy(tokens: &Vec<Token>) -> (r: Vec<Token>)
    ensures
        r@ == tokens@,
{
    let mut r: Vec<Token> = Vec::new();
    let mut i: usize = 0;
    while i < tokens.len()
        invariant
            i <= tokens.len(),
            r@ == tokens@.take(i as int),
        decreases tokens.len() - i,
    {
        r.push(tokens[i].clone());
        assert(tokens@.take(i as int).push(tokens@[i as int]) == tokens@.take(i + 1));
        i += 1;
    }
    assert(tokens@.take(tokens.len() as int) == tokens@);
    r
}

/// Scans, parses and evaluates one line of source text. Number literals
/// are read by `parse_number` and arithmetic is done by `arith`.
pub fn run<P: Fn(String) -> u64, A: Fn(Arithmetic, u64, u64) -> u64>(
    source_code: &str,
    parse_number: P,
    arith: A,
) -> (r: Result<Evaluation, Diagnostic>)
    requires
        source_code@.len() < u32::MAX,
        forall|text: String| crate::text::decimal(text@) ==> call_requires(parse_number, (text,)),
        forall|operation: Arithmetic, a: u64, b: u64| call_requires(arith, (operation, a, b)),
    ensures
        runs(
            crate::scanner::read_by(parse_number),
            crate::interpreter::computed_by(arith),
            source_code@,
            r,
        ),
{
    let mut scanner = Scanner::new(source_code, parse_number);
    let ghost src = scanner.source@;
    let ghost reads = scanner.reads();
    match scanner.scan_tokens() {
        Err(e) => {
            return Err(Diagnostic::Lex(e));
        },
        Ok(()) => {},
    }
    let tokens = copy(&scanner.tokens);
    let ghost units = lexemes(src, 0, 1)->Ok_0;
    assert(tokens@.skip(0) == tokens@);
    let mut parser = Parser::new(scanner.tokens);
    let expr = match parser.parse() {
        Err(e) => {
            assert(parse_all(tokens@, 0) == Err::<(Expr, int), ParseError>(e));
            return Err(Diagnostic::Parse(e));
        },
        Ok(expr) => expr,
    };
    let interpreter = Interpreter { arith };
    match interpreter.interpret(&expr) {
        Err(e) => {
            assert(parse_all(tokens@, 0) is Ok);
            return Err(Diagnostic::Type(e));
        },
        Ok(value) => Ok(Evaluation { tokens, expr, value }),
    }
}

/// Whether the text starts with a minus sign.
pub open spec fn negative(text: Seq<char>) -> bool {
    text.len() > 0 && text[0] == '-'
}

/// The text without the minus sign that it may start with.
pub open spec fn unsigned(text: Seq<char>) -> Seq<char> {
    if negative(text) {
        text.skip(1)
    } else {
        text
    }
}

/// A decimal numeral, with or without a minus sign before it.
pub open spec fn numeral(text: Seq<char>) -> bool {
    decimal(unsigned(text))
}

/// The number that `text` stands for if its digits stand for `bits`.
pub open spec fn with_sign(text: Seq<char>, bits: u64) -> u64 {
    if negative(text) {
        number::negated(bits)
    } else {
        bits
    }
}

/// The source of a sum: two numerals with `+` between them.
pub open spec fn sum_source(first: Seq<char>, second: Seq<char>) -> Seq<char> {
    first + seq!['+'] + second
}

/// The lexemes of a numeral that stands at `at` on the first line: a number,
/// behind `-` if the numeral has a minus sign.
pub open spec fn numeral_lexemes(text: Seq<char>, at: int) -> Seq<Lexeme> {
    if negative(text) {
        seq![
            Lexeme { kind: TokenType::Minus, start: at, end: at + 1, line: 1 },
            Lexeme { kind: TokenType::Number, start: at + 1, end: at + text.len(), line: 1 },
        ]
    } else {
        seq![Lexeme { kind: TokenType::Number, start: at, end: at + text.len(), line: 1 }]
    }
}

/// The lexemes of a sum of two numerals: those of the first, `+`, those of
/// the second, and the end of input, all on the first line.
pub open spec fn sum_lexemes(first: Seq<char>, second: Seq<char>) -> Seq<Lexeme> {
    let plus = first.len() as int;
    let end = plus + 1 + second.len();
    numeral_lexemes(first, 0) + seq![
        Lexeme { kind: TokenType::Plus, start: plus, end: plus + 1, line: 1 },
    ] + numeral_lexemes(second, plus + 1) + seq![
        Lexeme { kind: TokenType::Eof, start: end, end, line: 1 },
    ]
}

/// `units` in front of what was scanned behind them.
pub open spec fn prepend_all(units: Seq<Lexeme>, rest: Scanned) -> Scanned {
    match rest {
        Ok(more) => Ok(units + more),
        Err(e) => Err(e),
    }
}

/// Where a numeral stands in the source, and neither a digit nor a point
/// follows it, the scanner finds its lexemes and goes on behind it.
pub proof fn lemma_numeral_scans(src: Seq<char>, at: int, text: Seq<char>)
    requires
        numeral(text),
        0 <= at,
        at + text.len() <= src.len(),
        src.subrange(at, at + text.len()) == text,
        at + text.len() < src.len() ==> !digit(src[at + text.len()]) && src[at + text.len()]
            != '.',
    ensures
        lexemes(src, at, 1) == prepend_all(
            numeral_lexemes(text, at),
            lexemes(src, at + text.len(), 1),
        ),
{
    let end = at + text.len();
    let rest = lexemes(src, end, 1);
    if negative(text) {
        assert(src[at] == text[0]);
        assert(src.subrange(at + 1, end) == text.skip(1));
        lemma_numeral_step(src, at + 1, end);
        assert(step(src, at) == (Step::Token { kind: TokenType::Minus, end: at + 1, lines: 0 }));
        let minus = Lexeme { kind: TokenType::Minus, start: at, end: at + 1, line: 1 };
        let digits = Lexeme { kind: TokenType::Number, start: at + 1, end, line: 1 };
        assert(lexemes(src, at + 1, 1) == prepend(digits, rest));
        assert(lexemes(src, at, 1) == prepend(minus, prepend(digits, rest)));
        if let Ok(more) = rest {
            assert(seq![minus] + (seq![digits] + more) == seq![minus, digits] + more);
        }
    } else {
        lemma_numeral_step(src, at, end);
        let digits = Lexeme { kind: TokenType::Number, start: at, end, line: 1 };
        assert(lexemes(src, at, 1) == prepend(digits, rest));
    }
}

/// Two numerals with `+` between them are scanned as the first numeral, `+`
/// and the second numeral.
pub proof fn lemma_sum_scans(first: Seq<char>, second: Seq<char>)
    requires
        numeral(first),
        numeral(second),
    ensures
        lexemes(sum_source(first, second), 0, 1) == Ok::<Seq<Lexeme>, (LexErrorKind, int)>(
            sum_lexemes(first, second),
        ),
{
    let src = sum_source(first, second);
    let plus = first.len() as int;
    let end = src.len() as int;
    assert(src.subrange(0, plus) == first);
    assert(src.subrange(plus + 1, end) == second);
    assert(src[plus] == '+');
    lemma_numeral_scans(src, 0, first);
    lemma_numeral_scans(src, plus + 1, second);
    let sign = Lexeme { kind: TokenType::Plus, start: plus, end: plus + 1, line: 1 };
    let last = Lexeme { kind: TokenType::Eof, start: end, end, line: 1 };
    assert(step(src, plus) == (Step::Token { kind: TokenType::Plus, end: plus + 1, lines: 0 }));
    assert(lexemes(src, end, 1) == Ok::<Seq<Lexeme>, (LexErrorKind, int)>(seq![last]));
    assert(lexemes(src, plus, 1) == prepend(sign, lexemes(src, plus + 1, 1)));
    let a = numeral_lexemes(first, 0);
    let b = numeral_lexemes(second, plus + 1);
    assert(a + (seq![sign] + (b + seq![last])) == a + seq![sign] + b + seq![last]);
}

/// The expression of a numeral whose tokens start at `at`: the literal of
/// its number token, behind the minus sign if it has one.
pub open spec fn numeral_expr(tokens: Seq<Token>, at: int, minus: bool) -> Expr {
    if minus {
        Expr::Unary(tokens[at], Box::new(Expr::Literal(tokens[at + 1].literal->0)))
    } else {
        Expr::Literal(tokens[at].literal->0)
    }
}

/// The number of tokens of a numeral.
pub open spec fn width(minus: bool) -> int {
    if minus {
        2
    } else {
        1
    }
}

/// Whether the tokens of a numeral stand at `at`: a number token with a
/// value, behind `-` if `minus`.
pub open spec fn numeral_at(tokens: Seq<Token>, at: int, minus: bool) -> bool {
    let digits = at + width(minus) - 1;
    &&& 0 <= at
    &&& digits < tokens.len()
    &&& minus ==> tokens[at].token_type == TokenType::Minus
    &&& tokens[digits].token_type == TokenType::Number
    &&& tokens[digits].literal is Some
}

/// The tokens of a numeral, with no `*` or `/` behind them, parse to the
/// expression of the numeral as an operand of `+`.
pub proof fn lemma_numeral_parses(tokens: Seq<Token>, at: int, minus: bool)
    requires
        numeral_at(tokens, at, minus),
        !Level::Factor.operators(kind_at(tokens, at + width(minus))),
    ensures
        parse_operand(tokens, at, Level::Term) == Ok::<(Expr, int), ParseError>(
            (numeral_expr(tokens, at, minus), at + width(minus)),
        ),
{
    let end = at + width(minus);
    let digits = end - 1;
    let literal = Expr::Literal(tokens[digits].literal->0);
    let expr = numeral_expr(tokens, at, minus);
    assert(parse_primary(tokens, digits) == Ok::<(Expr, int), ParseError>((literal, end)));
    assert(parse_unary(tokens, digits) == Ok::<(Expr, int), ParseError>((literal, end)));
    assert(parse_unary(tokens, at) == Ok::<(Expr, int), ParseError>((expr, end)));
    assert(parse_operand(tokens, at, Level::Factor) == Ok::<(Expr, int), ParseError>(
        (expr, end),
    ));
    assert(parse_rest(tokens, end, Level::Factor, expr) == Ok::<(Expr, int), ParseError>(
        (expr, end),
    ));
    assert(parse_level(tokens, at, Level::Factor) == Ok::<(Expr, int), ParseError>((expr, end)));
}

/// The expression of the sum of two numerals whose tokens are `tokens`.
pub open spec fn sum_expr(tokens: Seq<Token>, first: bool, second: bool) -> Expr {
    let plus = width(first);
    Expr::Binary(
        Box::new(numeral_expr(tokens, 0, first)),
        tokens[plus],
        Box::new(numeral_expr(tokens, plus + 1, second)),
    )
}

/// The tokens of a numeral, `+`, the tokens of a numeral and the end of
/// input parse to the sum of the two numerals.
pub proof fn lemma_sum_parses(tokens: Seq<Token>, first: bool, second: bool)
    requires
        tokens.len() == width(first) + width(second) + 2,
        numeral_at(tokens, 0, first),
        tokens[width(first)].token_type == TokenType::Plus,
        numeral_at(tokens, width(first) + 1, second),
        tokens.last().token_type == TokenType::Eof,
    ensures
        parse_all(tokens, 0) == Ok::<(Expr, int), ParseError>(
            (sum_expr(tokens, first, second), tokens.len() - 1),
        ),
{
    let plus = width(first);
    let end = tokens.len() - 1;
    let left = numeral_expr(tokens, 0, first);
    let right = numeral_expr(tokens, plus + 1, second);
    let sum = sum_expr(tokens, first, second);
    lemma_numeral_parses(tokens, 0, first);
    lemma_numeral_parses(tokens, plus + 1, second);
    assert(parse_rest(tokens, end, Level::Term, sum) == Ok::<(Expr, int), ParseError>((sum, end)));
    assert(parse_rest(tokens, plus, Level::Term, left) == Ok::<(Expr, int), ParseError>(
        (sum, end),
    ));
    assert(parse_level(tokens, 0, Level::Term) == Ok::<(Expr, int), ParseError>((sum, end)));
    assert(parse_operand(tokens, 0, Level::Comparison) == Ok::<(Expr, int), ParseError>(
        (sum, end),
    ));
    assert(parse_rest(tokens, end, Level::Comparison, sum) == Ok::<(Expr, int), ParseError>(
        (sum, end),
    ));
    assert(parse_level(tokens, 0, Level::Comparison) == Ok::<(Expr, int), ParseError>(
        (sum, end),
    ));
    assert(parse_operand(tokens, 0, Level::Equality) == Ok::<(Expr, int), ParseError>(
        (sum, end),
    ));
    assert(parse_rest(tokens, end, Level::Equality, sum) == Ok::<(Expr, int), ParseError>(
        (sum, end),
    ));
    assert(parse_level(tokens, 0, Level::Equality) == Ok::<(Expr, int), ParseError>((sum, end)));
}

/// The expression of a numeral evaluates to the number of its number token,
/// negated if the numeral has a minus sign, and to nothing else.
pub proof fn lemma_numeral_evaluates(
    arith: Computes,
    tokens: Seq<Token>,
    at: int,
    minus: bool,
    out: Outcome,
)
    requires
        numeral_at(tokens, at, minus),
        tokens[at + width(minus) - 1].value() is Some,
        tokens[at + width(minus) - 1].value()->0 is Number,
        evaluates(arith, numeral_expr(tokens, at, minus), out),
    ensures
        out == Ok::<Value, TypeError>(
            Value::Number(
                if minus {
                    number::negated(tokens[at + 1].value()->0->Number_0)
                } else {
                    tokens[at].value()->0->Number_0
                },
            ),
        ),
{
    if minus {
        let v = choose|v: Outcome|
            evaluates(arith, Expr::Literal(tokens[at + 1].literal->0), v) && out
                == #[trigger] unary_result(tokens[at].token_type, v);
    }
}

/// Whether `value` is a number that the arithmetic computes as the sum of
/// two numbers that are read from the two numerals: each from its digits,
/// and negated if the numeral has a minus sign.
pub open spec fn sum_of(
    parse: Reads,
    arith: Computes,
    first: Seq<char>,
    second: Seq<char>,
    value: Value,
) -> bool {
    value matches Value::Number(c) && exists|a: u64, b: u64|
        parse(unsigned(first), a) && parse(unsigned(second), b) && #[trigger] arith(
            Arithmetic::Add,
            with_sign(first, a),
            with_sign(second, b),
            c,
        )
}

/// Whether the number token of a numeral at `at` carries a number that is
/// read from the digits of the numeral.
pub open spec fn reads_numeral(parse: Reads, tokens: Seq<Token>, at: int, text: Seq<char>) -> bool {
    let digits = tokens[at + width(negative(text)) - 1];
    &&& numeral_at(tokens, at, negative(text))
    &&& digits.value() matches Some(Value::Number(bits))
    &&& parse(unsigned(text), bits)
}

/// Tokens that spell the lexemes of the sum of two numerals are the tokens
/// of the first numeral, `+`, the tokens of the second numeral and the end
/// of input.
pub proof fn lemma_sum_tokens(
    parse: Reads,
    first: Seq<char>,
    second: Seq<char>,
    tokens: Seq<Token>,
)
    requires
        numeral(first),
        numeral(second),
        spelled(parse, sum_source(first, second), tokens, sum_lexemes(first, second)),
    ensures
        tokens.len() == width(negative(first)) + width(negative(second)) + 2,
        reads_numeral(parse, tokens, 0, first),
        tokens[width(negative(first))].token_type == TokenType::Plus,
        reads_numeral(parse, tokens, width(negative(first)) + 1, second),
        tokens.last().token_type == TokenType::Eof,
{
    let src = sum_source(first, second);
    let units = sum_lexemes(first, second);
    let plus = width(negative(first));
    let end = plus + 1 + width(negative(second));
    let digits = plus - 1;
    let others = end - 1;
    assert(units.len() == end + 1);
    assert(src.subrange(0, first.len() as int) == first);
    assert(src.subrange(first.len() as int + 1, src.len() as int) == second);
    assert(spells(parse, src, tokens[0], units[0]));
    assert(spells(parse, src, tokens[digits], units[digits]));
    assert(spells(parse, src, tokens[plus], units[plus]));
    assert(spells(parse, src, tokens[plus + 1], units[plus + 1]));
    assert(spells(parse, src, tokens[others], units[others]));
    assert(spells(parse, src, tokens[end], units[end]));
    assert(tokens[digits].lexeme@ == unsigned(first));
    assert(tokens[others].lexeme@ == unsigned(second));
}

/// The expression of the sum of two numerals evaluates to a sum of the
/// numerals and to nothing else.
pub proof fn lemma_sum_evaluates(
    parse: Reads,
    arith: Computes,
    first: Seq<char>,
    second: Seq<char>,
    tokens: Seq<Token>,
    out: Outcome,
)
    requires
        reads_numeral(parse, tokens, 0, first),
        reads_numeral(parse, tokens, width(negative(first)) + 1, second),
        tokens[width(negative(first))].token_type == TokenType::Plus,
        evaluates(arith, sum_expr(tokens, negative(first), negative(second)), out),
    ensures
        out is Ok,
        sum_of(parse, arith, first, second, out->Ok_0),
{
    let plus = width(negative(first));
    let a = tokens[plus - 1].value()->0->Number_0;
    let b = tokens[plus + width(negative(second))].value()->0->Number_0;
    let left = numeral_expr(tokens, 0, negative(first));
    let right = numeral_expr(tokens, plus + 1, negative(second));
    let (l, r) = choose|l: Outcome, r: Outcome|
        evaluates(arith, left, l) && (l is Ok ==> evaluates(arith, right, r))
            && #[trigger] binary_result(arith, TokenType::Plus, l, r, out);
    lemma_numeral_evaluates(arith, tokens, 0, negative(first), l);
    lemma_numeral_evaluates(arith, tokens, plus + 1, negative(second), r);
    let c = out->Ok_0->Number_0;
    assert(arith(Arithmetic::Add, with_sign(first, a), with_sign(second, b), c));
}

/// The sum of two numerals has a value, and never an error: the number that
/// the arithmetic computes as the sum of the two numbers that are read from
/// the numerals.
pub proof fn lemma_sum_of_numerals(
    parse: Reads,
    arith: Computes,
    first: Seq<char>,
    second: Seq<char>,
    out: Result<Evaluation, Diagnostic>,
)
    requires
        numeral(first),
        numeral(second),
        runs(parse, arith, sum_source(first, second), out),
    ensures
        out matches Ok(done) && sum_of(parse, arith, first, second, done.value@),
{
    let src = sum_source(first, second);
    let units = sum_lexemes(first, second);
    lemma_sum_scans(first, second);
    match out {
        Ok(done) => {
            lemma_sum_tokens(parse, first, second, done.tokens@);
            lemma_sum_parses(done.tokens@, negative(first), negative(second));
            lemma_sum_evaluates(
                parse,
                arith,
                first,
                second,
                done.tokens@,
                Ok::<Value, TypeError>(done.value@),
            );
        },
        Err(Diagnostic::Lex(_)) => {},
        Err(Diagnostic::Parse(e)) => {
            let tokens = choose|tokens: Seq<Token>|
                spelled(parse, src, tokens, units) && #[trigger] parse_all(tokens, 0) == Err::<
                    (Expr, int),
                    ParseError,
                >(e);
            lemma_sum_tokens(parse, first, second, tokens);
            lemma_sum_parses(tokens, negative(first), negative(second));
        },
        Err(Diagnostic::Type(e)) => {
            let tokens = choose|tokens: Seq<Token>|
                spelled(parse, src, tokens, units) && (#[trigger] parse_all(tokens, 0) matches Ok(
                    (expr, _),
                ) && evaluates(arith, expr, Err(e)));
            lemma_sum_tokens(parse, first, second, tokens);
            lemma_sum_parses(tokens, negative(first), negative(second));
            lemma_sum_evaluates(parse, arith, first, second, tokens, Err::<Value, TypeError>(e));
        },
    }
}

} // verus!
