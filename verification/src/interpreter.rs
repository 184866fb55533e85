//! The evaluator: from a syntax tree to a value.
//!
//! The evaluator computes sums, differences, products and quotients of
//! numbers by an arithmetic that it is given, and everything else itself.
//! What it returns is stated by `evaluates`, a relation, because nothing is
//! known of the arithmetic but what it says of itself. Where the arithmetic
//! is a function, so is the evaluation: `value`. A division by zero is no
//! error of the evaluator: its result is what the arithmetic computes.

use crate::expression::{Expr, Visitor};
use crate::number;
use crate::number::Arithmetic;
use crate::token::{BinaryOperator, Literal, Token, TokenType, Value, ValueKind};
use vstd::prelude::*;
use vstd::string::StringExecFns;

verus! {

/// An operator met operands of a kind that it does not work on.
#[derive(Debug, Clone, Copy, PartialEq, Eq, Structural)]
pub enum TypeError {
    Unary { operator: TokenType, operand: ValueKind },
    Binary { operator: TokenType, left: ValueKind, right: ValueKind },
}

/// What an evaluation ends in, as contracts see it.
pub type Outcome = Result<Value, TypeError>;

/// The outcome of an evaluation that returned `r`.
pub open spec fn outcome(r: Result<Literal, TypeError>) -> Outcome {
    match r {
        Ok(value) => Ok(value@),
        Err(e) => Err(e),
    }
}

/// The result of a prefix operator on a value: `-` negates a number and
/// works on nothing else; `!` gives whether the value is not truthy.
pub open spec fn unary_outcome(operator: TokenType, operand: Value) -> Outcome {
    if operator == TokenType::Minus {
        match operand {
            Value::Number(bits) => Ok(Value::Number(number::negated(bits))),
            _ => Err(TypeError::Unary { operator, operand: operand.kind() }),
        }
    } else {
        Ok(Value::Boolean(!operand.truthy()))
    }
}

/// The error of an infix operator that does not work on its operands.
pub open spec fn mismatch(operator: TokenType, left: Value, right: Value) -> Outcome {
    Err(TypeError::Binary { operator, left: left.kind(), right: right.kind() })
}

/// What an arithmetic computes, as a relation: whether it may return the
/// last number for the operation on the first two.
pub type Computes = spec_fn(Arithmetic, u64, u64, u64) -> bool;

/// What the executable arithmetic `f` computes.
pub open spec fn computed_by<F: Fn(Arithmetic, u64, u64) -> u64>(f: F) -> Computes {
    |operation: Arithmetic, a: u64, b: u64, c: u64| call_ensures(f, (operation, a, b), c)
}

/// Whether `out` is a result of arithmetic on two values: on two numbers what
/// `arith` computes for them, and on anything else an error.
pub open spec fn arithmetic_outcome(
    arith: Computes,
    operator: TokenType,
    operation: Arithmetic,
    left: Value,
    right: Value,
    out: Outcome,
) -> bool {
    match (left, right) {
        (Value::Number(a), Value::Number(b)) => out matches Ok(Value::Number(c)) && arith(
            operation,
            a,
            b,
            c,
        ),
        _ => out == mismatch(operator, left, right),
    }
}

/// The result of a comparison of two values: of two numbers whether they
/// compare so, and of anything else an error.
pub open spec fn comparison_outcome(
    operator: TokenType,
    compare: spec_fn(u64, u64) -> bool,
    left: Value,
    right: Value,
) -> Outcome {
    match (left, right) {
        (Value::Number(a), Value::Number(b)) => Ok(Value::Boolean(compare(a, b))),
        _ => mismatch(operator, left, right),
    }
}

/// Whether `out` is a result of an infix operator on two values. `+` also
/// joins two strings, the left one first. `==` and `!=` work on all values.
/// `/` is arithmetic like `-` and `*`, whatever the divisor.
pub open spec fn binary_outcome(
    arith: Computes,
    operator: TokenType,
    left: Value,
    right: Value,
    out: Outcome,
) -> bool {
    match operator.binary_operator() {
        Some(BinaryOperator::Add) => match (left, right) {
            (Value::Str(a), Value::Str(b)) => out == Ok::<Value, TypeError>(Value::Str(a + b)),
            _ => arithmetic_outcome(arith, operator, Arithmetic::Add, left, right, out),
        },
        Some(BinaryOperator::Subtract) => arithmetic_outcome(
            arith,
            operator,
            Arithmetic::Subtract,
            left,
            right,
            out,
        ),
        Some(BinaryOperator::Multiply) => arithmetic_outcome(
            arith,
            operator,
            Arithmetic::Multiply,
            left,
            right,
            out,
        ),
        Some(BinaryOperator::Divide) => arithmetic_outcome(
            arith,
            operator,
            Arithmetic::Divide,
            left,
            right,
            out,
        ),
        Some(BinaryOperator::Greater) => out == comparison_outcome(
            operator,
            |a: u64, b: u64| number::less(b, a),
            left,
            right,
        ),
        Some(BinaryOperator::GreaterEqual) => out == comparison_outcome(
            operator,
            |a: u64, b: u64| number::less_or_equal(b, a),
            left,
            right,
        ),
        Some(BinaryOperator::Less) => out == comparison_outcome(
            operator,
            |a: u64, b: u64| number::less(a, b),
            left,
            right,
        ),
        Some(BinaryOperator::LessEqual) => out == comparison_outcome(
            operator,
            |a: u64, b: u64| number::less_or_equal(a, b),
            left,
            right,
        ),
        Some(BinaryOperator::Equal) => out == Ok::<Value, TypeError>(
            Value::Boolean(left.same(right)),
        ),
        Some(BinaryOperator::NotEqual) => out == Ok::<Value, TypeError>(
            Value::Boolean(!left.same(right)),
        ),
        _ => false,
    }
}

/// The result of a prefix operator on what its operand yielded: an error of
/// the operand is the result.
pub open spec fn unary_result(operator: TokenType, operand: Outcome) -> Outcome {
    match operand {
        Ok(value) => unary_outcome(operator, value),
        Err(e) => Err(e),
    }
}

/// Whether `out` is a result of an infix operator on what its operands
/// yielded: an error of the left operand is the result, else one of the right.
pub open spec fn binary_result(
    arith: Computes,
    operator: TokenType,
    left: Outcome,
    right: Outcome,
    out: Outcome,
) -> bool {
    match left {
        Ok(a) => match right {
            Ok(b) => binary_outcome(arith, operator, a, b, out),
            Err(e) => out == Err::<Value, TypeError>(e),
        },
        Err(e) => out == Err::<Value, TypeError>(e),
    }
}

/// Whether `out` is a result of evaluating `expr` with the arithmetic
/// `arith`. A literal yields its value and a grouping what its inside yields.
/// An operator yields its result on what its operands yield. The left operand
/// is evaluated first, and the right one only if the left one yielded a value.
pub open spec fn evaluates(arith: Computes, expr: Expr, out: Outcome) -> bool
    decreases expr,
{
    match expr {
        Expr::Literal(value) => out == Ok::<Value, TypeError>(value@),
        Expr::Grouping(inner) => evaluates(arith, *inner, out),
        Expr::Unary(operator, operand) => exists|v: Outcome|
            evaluates(arith, *operand, v) && out == #[trigger] unary_result(
                operator.token_type,
                v,
            ),
        Expr::Binary(left, operator, right) => exists|l: Outcome, r: Outcome|
            evaluates(arith, *left, l) && (l is Ok ==> evaluates(arith, *right, r))
                && #[trigger] binary_result(arith, operator.token_type, l, r, out),
    }
}

/// Whether the arithmetic computes one number at most for each operation on
/// two numbers.
pub open spec fn single_valued(arith: Computes) -> bool {
    forall|operation: Arithmetic, a: u64, b: u64, c: u64, d: u64|
        #[trigger] arith(operation, a, b, c) && #[trigger] arith(operation, a, b, d) ==> c == d
}

/// With an arithmetic that computes one number at most for each operation on
/// two numbers, an infix operator has one result at most on two values.
pub proof fn lemma_one_binary_outcome(
    arith: Computes,
    operator: TokenType,
    left: Value,
    right: Value,
    first: Outcome,
    second: Outcome,
)
    requires
        single_valued(arith),
        binary_outcome(arith, operator, left, right, first),
        binary_outcome(arith, operator, left, right, second),
    ensures
        first == second,
{
}

/// With an arithmetic that computes one number at most for each operation on
/// two numbers, an expression has one outcome at most.
pub proof fn lemma_one_outcome(arith: Computes, expr: Expr, first: Outcome, second: Outcome)
    requires
        single_valued(arith),
        evaluates(arith, expr, first),
        evaluates(arith, expr, second),
    ensures
        first == second,
    decreases expr,
{
    match expr {
        Expr::Literal(_) => {},
        Expr::Grouping(inner) => {
            lemma_one_outcome(arith, *inner, first, second);
        },
        Expr::Unary(operator, operand) => {
            let v = choose|v: Outcome|
                evaluates(arith, *operand, v) && first == #[trigger] unary_result(
                    operator.token_type,
                    v,
                );
            let w = choose|w: Outcome|
                evaluates(arith, *operand, w) && second == #[trigger] unary_result(
                    operator.token_type,
                    w,
                );
            lemma_one_outcome(arith, *operand, v, w);
        },
        Expr::Binary(left, operator, right) => {
            let (l, r) = choose|l: Outcome, r: Outcome|
                evaluates(arith, *left, l) && (l is Ok ==> evaluates(arith, *right, r))
                    && #[trigger] binary_result(arith, operator.token_type, l, r, first);
            let (m, s) = choose|m: Outcome, s: Outcome|
                evaluates(arith, *left, m) && (m is Ok ==> evaluates(arith, *right, s))
                    && #[trigger] binary_result(arith, operator.token_type, m, s, second);
            lemma_one_outcome(arith, *left, l, m);
            if l is Ok {
                lemma_one_outcome(arith, *right, r, s);
                if r is Ok {
                    lemma_one_binary_outcome(
                        arith,
                        operator.token_type,
                        l->Ok_0,
                        r->Ok_0,
                        first,
                        second,
                    );
                }
            }
        },
    }
}

/// An arithmetic that is a function: the number that it computes for each
/// operation on two numbers.
pub type Oracle = spec_fn(Arithmetic, u64, u64) -> u64;

/// The arithmetic that computes what `oracle` says and nothing else.
pub open spec fn computed_as(oracle: Oracle) -> Computes {
    |operation: Arithmetic, a: u64, b: u64, c: u64| c == oracle(operation, a, b)
}

/// The result of arithmetic on two values, computed as `oracle` says.
pub open spec fn arithmetic_value(
    oracle: Oracle,
    operator: TokenType,
    operation: Arithmetic,
    left: Value,
    right: Value,
) -> Outcome {
    match (left, right) {
        (Value::Number(a), Value::Number(b)) => Ok(Value::Number(oracle(operation, a, b))),
        _ => mismatch(operator, left, right),
    }
}

/// The result of an infix operator on two values, arithmetic computed as
/// `oracle` says.
pub open spec fn binary_value(oracle: Oracle, operator: TokenType, left: Value, right: Value)
    -> Outcome {
    match operator.binary_operator() {
        Some(BinaryOperator::Add) => match (left, right) {
            (Value::Str(a), Value::Str(b)) => Ok(Value::Str(a + b)),
            _ => arithmetic_value(oracle, operator, Arithmetic::Add, left, right),
        },
        Some(BinaryOperator::Subtract) => arithmetic_value(
            oracle,
            operator,
            Arithmetic::Subtract,
            left,
            right,
        ),
        Some(BinaryOperator::Multiply) => arithmetic_value(
            oracle,
            operator,
            Arithmetic::Multiply,
            left,
            right,
        ),
        Some(BinaryOperator::Divide) => arithmetic_value(
            oracle,
            operator,
            Arithmetic::Divide,
            left,
            right,
        ),
        Some(BinaryOperator::Greater) => comparison_outcome(
            operator,
            |a: u64, b: u64| number::less(b, a),
            left,
            right,
        ),
        Some(BinaryOperator::GreaterEqual) => comparison_outcome(
            operator,
            |a: u64, b: u64| number::less_or_equal(b, a),
            left,
            right,
        ),
        Some(BinaryOperator::Less) => comparison_outcome(
            operator,
            |a: u64, b: u64| number::less(a, b),
            left,
            right,
        ),
        Some(BinaryOperator::LessEqual) => comparison_outcome(
            operator,
            |a: u64, b: u64| number::less_or_equal(a, b),
            left,
            right,
        ),
        Some(BinaryOperator::NotEqual) => Ok(Value::Boolean(!left.same(right))),
        _ => Ok(Value::Boolean(left.same(right))),
    }
}

/// What an expression evaluates to, arithmetic computed as `oracle` says.
pub open spec fn value(oracle: Oracle, expr: Expr) -> Outcome
    decreases expr,
{
    match expr {
        Expr::Literal(literal) => Ok(literal@),
        Expr::Grouping(inner) => value(oracle, *inner),
        Expr::Unary(operator, operand) => unary_result(
            operator.token_type,
            value(oracle, *operand),
        ),
        Expr::Binary(left, operator, right) => match value(oracle, *left) {
            Ok(a) => match value(oracle, *right) {
                Ok(b) => binary_value(oracle, operator.token_type, a, b),
                Err(e) => Err(e),
            },
            Err(e) => Err(e),
        },
    }
}

/// With an arithmetic that is a function, an expression evaluates to its
/// value and to nothing else.
pub proof fn lemma_evaluates_to_value(oracle: Oracle, expr: Expr, out: Outcome)
    requires
        expr.well_formed(),
    ensures
        evaluates(computed_as(oracle), expr, out) <==> out == value(oracle, expr),
    decreases expr,
{
    let arith = computed_as(oracle);
    match expr {
        Expr::Literal(_) => {},
        Expr::Grouping(inner) => {
            lemma_evaluates_to_value(oracle, *inner, out);
        },
        Expr::Unary(operator, operand) => {
            let v = value(oracle, *operand);
            lemma_evaluates_to_value(oracle, *operand, v);
            if evaluates(arith, expr, out) {
                let w = choose|w: Outcome|
                    evaluates(arith, *operand, w) && out == #[trigger] unary_result(
                        operator.token_type,
                        w,
                    );
                lemma_evaluates_to_value(oracle, *operand, w);
            }
            if out == value(oracle, expr) {
                assert(out == unary_result(operator.token_type, v));
            }
        },
        Expr::Binary(left, operator, right) => {
            let l = value(oracle, *left);
            let r = value(oracle, *right);
            lemma_evaluates_to_value(oracle, *left, l);
            lemma_evaluates_to_value(oracle, *right, r);
            if evaluates(arith, expr, out) {
                let (m, s) = choose|m: Outcome, s: Outcome|
                    evaluates(arith, *left, m) && (m is Ok ==> evaluates(arith, *right, s))
                        && #[trigger] binary_result(arith, operator.token_type, m, s, out);
                lemma_evaluates_to_value(oracle, *left, m);
                if m is Ok {
                    lemma_evaluates_to_value(oracle, *right, s);
                }
            }
            if out == value(oracle, expr) {
                assert(binary_result(arith, operator.token_type, l, r, out));
            }
        },
    }
}

/// Whether two outcomes are the same error, or values of one kind.
pub open spec fn alike(first: Outcome, second: Outcome) -> bool {
    match (first, second) {
        (Ok(a), Ok(b)) => a.kind() == b.kind(),
        (Err(e), Err(f)) => e == f,
        _ => false,
    }
}

/// Two evaluations of one expression, with whatever arithmetic, end alike:
/// in the same error, or in values of one kind. So whether an operator meets
/// operands that it does not work on is decided by the expression alone.
pub proof fn lemma_outcomes_alike(
    arith: Computes,
    other: Computes,
    expr: Expr,
    first: Outcome,
    second: Outcome,
)
    requires
        expr.well_formed(),
        evaluates(arith, expr, first),
        evaluates(other, expr, second),
    ensures
        alike(first, second),
    decreases expr,
{
    match expr {
        Expr::Literal(_) => {},
        Expr::Grouping(inner) => {
            lemma_outcomes_alike(arith, other, *inner, first, second);
        },
        Expr::Unary(operator, operand) => {
            let v = choose|v: Outcome|
                evaluates(arith, *operand, v) && first == #[trigger] unary_result(
                    operator.token_type,
                    v,
                );
            let w = choose|w: Outcome|
                evaluates(other, *operand, w) && second == #[trigger] unary_result(
                    operator.token_type,
                    w,
                );
            lemma_outcomes_alike(arith, other, *operand, v, w);
        },
        Expr::Binary(left, operator, right) => {
            let (l, r) = choose|l: Outcome, r: Outcome|
                evaluates(arith, *left, l) && (l is Ok ==> evaluates(arith, *right, r))
                    && #[trigger] binary_result(arith, operator.token_type, l, r, first);
            let (m, s) = choose|m: Outcome, s: Outcome|
                evaluates(other, *left, m) && (m is Ok ==> evaluates(other, *right, s))
                    && #[trigger] binary_result(other, operator.token_type, m, s, second);
            lemma_outcomes_alike(arith, other, *left, l, m);
            if l is Ok {
                lemma_outcomes_alike(arith, other, *right, r, s);
            }
        },
    }
}

/// Whether a value counts as true: everything does but `Nil` and `false`.
pub fn is_truthy(literal: &Literal) -> (r: bool)
    ensures
        r == literal@.truthy(),
{
    match literal {
        Literal::Nil => false,
        Literal::Boolean(b) => *b,
        _ => true,
    }
}

/// Whether two values are equal: of one variant, with equal payloads.
pub fn is_equal(a: &Literal, b: &Literal) -> (r: bool)
    ensures
        r == a@.same(b@),
{
    *a == *b
}

/// The evaluator, with the arithmetic that it computes sums, differences,
/// products and quotients of numbers by.
pub struct Interpreter<F> {
    /// Applies an operation to two numbers, each given and returned by its
    /// binary64 encoding.
    pub arith: F,
}

impl<F: Fn(Arithmetic, u64, u64) -> u64> Interpreter<F> {
    /// What the arithmetic of the evaluator computes.
    pub open spec fn computes(&self) -> Computes {
        computed_by(self.arith)
    }

    /// The arithmetic accepts every operation on every two numbers.
    pub open spec fn ready(&self) -> bool {
        forall|operation: Arithmetic, a: u64, b: u64|
            call_requires(self.arith, (operation, a, b))
    }

    /// Evaluates an expression.
    pub fn interpret(&self, expr: &Box<Expr>) -> (r: Result<Literal, TypeError>)
        requires
            self.ready(),
            expr.well_formed(),
        ensures
            evaluates(self.computes(), **expr, outcome(r)),
    {
        expr.accept(self)
    }

    /// Evaluates a node by the method that is meant for it.
    fn evaluate(&self, expr: &Expr) -> (r: Result<Literal, TypeError>)
        requires
            self.ready(),
            expr.well_formed(),
        ensures
            evaluates(self.computes(), *expr, outcome(r)),
        decreases *expr, 1int,
    {
        match expr {
            Expr::Literal(literal) => self.visit_literal(literal),
            Expr::Grouping(inner) => self.visit_grouping(inner),
            Expr::Binary(left, operator, right) => self.visit_binary(left, operator, right),
            Expr::Unary(operator, operand) => self.visit_unary(operator, operand),
        }
    }

    /// Applies a prefix operator to a value.
    fn unary(&self, operator: &Token, operand: Literal) -> (r: Result<Literal, TypeError>)
        requires
            operator.token_type.prefix(),
        ensures
            outcome(r) == unary_outcome(operator.token_type, operand@),
    {
        match operator.token_type {
            TokenType::Minus => {
                if let Literal::Number(value) = operand {
                    return Ok(Literal::Number(number::negate(value)));
                }
                Err(TypeError::Unary { operator: operator.token_type, operand: operand.kind() })
            },
            _ => Ok(Literal::Boolean(!is_truthy(&operand))),
        }
    }

    /// Applies an arithmetic operation to two values.
    fn apply(&self, operator: &Token, operation: Arithmetic, left: &Literal, right: &Literal)
        -> (r: Result<Literal, TypeError>)
        requires
            self.ready(),
        ensures
            arithmetic_outcome(
                self.computes(),
                operator.token_type,
                operation,
                left@,
                right@,
                outcome(r),
            ),
    {
        if let Literal::Number(value_left) = left {
            if let Literal::Number(value_right) = right {
                let result: u64 = (self.arith)(operation, *value_left, *value_right);
                return Ok(Literal::Number(result));
            }
        }
        Err(
            TypeError::Binary {
                operator: operator.token_type,
                left: left.kind(),
                right: right.kind(),
            },
        )
    }

    /// Applies an infix operator to two values.
    fn binary(&self, operator: &Token, left: Literal, right: Literal) -> (r: Result<
        Literal,
        TypeError,
    >)
        requires
            self.ready(),
            operator.token_type.infix(),
        ensures
            binary_outcome(self.computes(), operator.token_type, left@, right@, outcome(r)),
    {
        let mismatch = TypeError::Binary {
            operator: operator.token_type,
            left: left.kind(),
            right: right.kind(),
        };
        match operator.token_type.as_binary_operator() {
            Some(BinaryOperator::Subtract) => self.apply(
                operator,
                Arithmetic::Subtract,
                &left,
                &right,
            ),
            Some(BinaryOperator::Multiply) => self.apply(
                operator,
                Arithmetic::Multiply,
                &left,
                &right,
            ),
            Some(BinaryOperator::Divide) => self.apply(
                operator,
                Arithmetic::Divide,
                &left,
                &right,
            ),
            Some(BinaryOperator::Add) => {
                if let Literal::Str(value_left) = &left {
                    if let Literal::Str(value_right) = &right {
                        let mut result = value_left.clone();
                        result.append(value_right.as_str());
                        return Ok(Literal::Str(result));
                    }
                }
                self.apply(operator, Arithmetic::Add, &left, &right)
            },
            Some(BinaryOperator::Greater) => {
                if let Literal::Number(value_left) = left {
                    if let Literal::Number(value_right) = right {
                        return Ok(Literal::Boolean(number::is_less(value_right, value_left)));
                    }
                }
                Err(mismatch)
            },
            Some(BinaryOperator::GreaterEqual) => {
                if let Literal::Number(value_left) = left {
                    if let Literal::Number(value_right) = right {
                        return Ok(
                            Literal::Boolean(number::is_less_or_equal(value_right, value_left)),
                        );
                    }
                }
                Err(mismatch)
            },
            Some(BinaryOperator::Less) => {
                if let Literal::Number(value_left) = left {
                    if let Literal::Number(value_right) = right {
                        return Ok(Literal::Boolean(number::is_less(value_left, value_right)));
                    }
                }
                Err(mismatch)
            },
            Some(BinaryOperator::LessEqual) => {
                if let Literal::Number(value_left) = left {
                    if let Literal::Number(value_right) = right {
                        return Ok(
                            Literal::Boolean(number::is_less_or_equal(value_left, value_right)),
                        );
                    }
                }
                Err(mismatch)
            },
            Some(BinaryOperator::NotEqual) => Ok(Literal::Boolean(!is_equal(&left, &right))),
            _ => Ok(Literal::Boolean(is_equal(&left, &right))),
        }
    }
}

impl<F: Fn(Arithmetic, u64, u64) -> u64> Visitor<Result<Literal, TypeError>> for Interpreter<F> {
    open spec fn accepts(&self, expr: Expr) -> bool {
        self.ready() && expr.well_formed()
    }

    open spec fn yields(&self, expr: Expr, r: Result<Literal, TypeError>) -> bool {
        evaluates(self.computes(), expr, outcome(r))
    }

    fn visit_literal(&self, literal: &Literal) -> (r: Result<Literal, TypeError>) {
        Ok(literal.clone())
    }

    fn visit_grouping(&self, expr: &Box<Expr>) -> (r: Result<Literal, TypeError>)
        decreases Expr::Grouping(*expr), 0int,
    {
        self.evaluate(expr)
    }

    fn visit_unary(&self, operator: &Token, right: &Box<Expr>) -> (r: Result<Literal, TypeError>)
        decreases Expr::Unary(*operator, *right), 0int,
    {
        let right = self.evaluate(right);
        let ghost operand = outcome(right);
        let r = match right {
            Ok(value) => self.unary(operator, value),
            Err(e) => Err(e),
        };
        assert(outcome(r) == unary_result(operator.token_type, operand));
        r
    }

    fn visit_binary(&self, left: &Box<Expr>, operator: &Token, right: &Box<Expr>) -> (r: Result<
        Literal,
        TypeError,
    >)
        decreases Expr::Binary(*left, *operator, *right), 0int,
    {
        let left = self.evaluate(left);
        let ghost l = outcome(left);
        match left {
            Ok(a) => {
                let right = self.evaluate(right);
                let ghost r = outcome(right);
                match right {
                    Ok(b) => {
                        let result = self.binary(operator, a, b);
                        assert(binary_result(
                            self.computes(),
                            operator.token_type,
                            l,
                            r,
                            outcome(result),
                        ));
                        result
                    },
                    Err(e) => {
                        assert(binary_result(
                            self.computes(),
                            operator.token_type,
                            l,
                            r,
                            Err::<Value, TypeError>(e),
                        ));
                        Err(e)
                    },
                }
            },
            Err(e) => {
                assert(binary_result(
                    self.computes(),
                    operator.token_type,
                    l,
                    l,
                    Err::<Value, TypeError>(e),
                ));
                Err(e)
            },
        }
    }
}

} // verus!
