use rlox::expression::{Expr, Visitor};
use rlox::interpreter::{is_equal, is_truthy, Interpreter, TypeError};
use rlox::number::Arithmetic;
use rlox::token::{Literal, Token, TokenType, ValueKind};

fn arithmetic(operation: Arithmetic, a: u64, b: u64) -> u64 {
    let (a, b) = (f64::from_bits(a), f64::from_bits(b));
    let result = match operation {
        Arithmetic::Add => a + b,
        Arithmetic::Subtract => a - b,
        Arithmetic::Multiply => a * b,
        Arithmetic::Divide => a / b,
    };
    result.to_bits()
}

fn number(value: f64) -> Literal {
    Literal::Number(value.to_bits())
}

fn text(value: &str) -> Literal {
    Literal::Str(value.to_string())
}

fn literal(value: Literal) -> Box<Expr> {
    Box::new(Expr::Literal(value))
}

fn operator(token_type: TokenType, lexeme: &str) -> Token {
    Token { token_type, lexeme: lexeme.to_string(), literal: None, line: 1 }
}

fn binary(left: Literal, token_type: TokenType, right: Literal) -> Result<Literal, TypeError> {
    let interpreter = Interpreter { arith: arithmetic };
    let expr = Box::new(Expr::Binary(literal(left), operator(token_type, "?"), literal(right)));
    interpreter.interpret(&expr)
}

fn unary(token_type: TokenType, operand: Literal) -> Result<Literal, TypeError> {
    let interpreter = Interpreter { arith: arithmetic };
    let expr = Box::new(Expr::Unary(operator(token_type, "?"), literal(operand)));
    interpreter.interpret(&expr)
}

#[test]
fn test_literal() {
    let interpreter = Interpreter { arith: arithmetic };
    let literal = number(42.0);
    assert_eq!(interpreter.visit_literal(&literal), Ok(number(42.0)));
}

#[test]
fn test_unary_minus() {
    let interpreter = Interpreter { arith: arithmetic };
    let expr = Expr::Unary(
        Token {
            token_type: TokenType::Minus,
            lexeme: "-".to_string(),
            literal: None,
            line: 1,
        },
        Box::new(Expr::Literal(number(10.0))),
    );
    assert_eq!(expr.accept(&interpreter), Ok(number(-10.0)));
}

#[test]
fn test_unary_not() {
    let interpreter = Interpreter { arith: arithmetic };
    let expr = Expr::Unary(
        Token {
            token_type: TokenType::Bang,
            lexeme: "!".to_string(),
            literal: None,
            line: 1,
        },
        Box::new(Expr::Literal(Literal::Boolean(true))),
    );
    assert_eq!(expr.accept(&interpreter), Ok(Literal::Boolean(false)));
}

#[test]
fn test_binary_addition() {
    let interpreter = Interpreter { arith: arithmetic };
    let expr = Expr::Binary(
        Box::new(Expr::Literal(number(5.0))),
        Token {
            token_type: TokenType::Plus,
            lexeme: "+".to_string(),
            literal: None,
            line: 1,
        },
        Box::new(Expr::Literal(number(3.0))),
    );
    assert_eq!(expr.accept(&interpreter), Ok(number(8.0)));
}

#[test]
fn test_binary_multiplication() {
    let interpreter = Interpreter { arith: arithmetic };
    let expr = Expr::Binary(
        Box::new(Expr::Literal(number(4.0))),
        Token {
            token_type: TokenType::Star,
            lexeme: "*".to_string(),
            literal: None,
            line: 1,
        },
        Box::new(Expr::Literal(number(2.0))),
    );
    assert_eq!(expr.accept(&interpreter), Ok(number(8.0)));
}

#[test]
fn literal_and_grouping_yield_the_value() {
    let interpreter = Interpreter { arith: arithmetic };
    assert_eq!(interpreter.interpret(&literal(text("abc"))), Ok(text("abc")));
    assert_eq!(interpreter.interpret(&literal(Literal::Nil)), Ok(Literal::Nil));
    let grouped = Box::new(Expr::Grouping(Box::new(Expr::Grouping(literal(number(1.5))))));
    assert_eq!(interpreter.interpret(&grouped), Ok(number(1.5)));
    assert_eq!(interpreter.visit_grouping(&literal(Literal::Boolean(true))), Ok(Literal::Boolean(true)));
}

#[test]
fn arithmetic_on_two_numbers() {
    assert_eq!(binary(number(5.0), TokenType::Minus, number(3.0)), Ok(number(2.0)));
    assert_eq!(binary(number(5.0), TokenType::Star, number(2.0)), Ok(number(10.0)));
    assert_eq!(binary(number(5.0), TokenType::Slash, number(2.0)), Ok(number(2.5)));
    assert_eq!(binary(number(0.1), TokenType::Plus, number(0.2)), Ok(number(0.1 + 0.2)));
    assert_eq!(binary(number(3.0), TokenType::Minus, number(5.0)), Ok(number(-2.0)));
}

#[test]
fn division_by_zero_follows_the_number_format() {
    assert_eq!(binary(number(1.0), TokenType::Slash, number(0.0)), Ok(number(f64::INFINITY)));
    assert_eq!(binary(number(-1.0), TokenType::Slash, number(0.0)), Ok(number(f64::NEG_INFINITY)));
    let quotient = binary(number(0.0), TokenType::Slash, number(0.0)).unwrap();
    match quotient {
        Literal::Number(bits) => assert!(f64::from_bits(bits).is_nan()),
        other => panic!("not a number: {:?}", other),
    }
}

#[test]
fn plus_joins_two_strings_left_first() {
    assert_eq!(binary(text("ab"), TokenType::Plus, text("cd")), Ok(text("abcd")));
    assert_eq!(binary(text(""), TokenType::Plus, text("x")), Ok(text("x")));
}

#[test]
fn arithmetic_on_other_operands_is_a_type_error() {
    assert_eq!(
        binary(text("a"), TokenType::Plus, number(1.0)),
        Err(TypeError::Binary {
            operator: TokenType::Plus,
            left: ValueKind::Str,
            right: ValueKind::Number
        })
    );
    assert_eq!(
        binary(number(1.0), TokenType::Plus, text("a")),
        Err(TypeError::Binary {
            operator: TokenType::Plus,
            left: ValueKind::Number,
            right: ValueKind::Str
        })
    );
    assert_eq!(
        binary(Literal::Nil, TokenType::Minus, number(1.0)),
        Err(TypeError::Binary {
            operator: TokenType::Minus,
            left: ValueKind::Nil,
            right: ValueKind::Number
        })
    );
    assert_eq!(
        binary(text("a"), TokenType::Star, text("b")),
        Err(TypeError::Binary {
            operator: TokenType::Star,
            left: ValueKind::Str,
            right: ValueKind::Str
        })
    );
    assert_eq!(
        binary(number(1.0), TokenType::Slash, Literal::Boolean(true)),
        Err(TypeError::Binary {
            operator: TokenType::Slash,
            left: ValueKind::Number,
            right: ValueKind::Boolean
        })
    );
}

#[test]
fn comparison_of_two_numbers() {
    assert_eq!(binary(number(2.0), TokenType::Greater, number(1.0)), Ok(Literal::Boolean(true)));
    assert_eq!(binary(number(1.0), TokenType::Greater, number(1.0)), Ok(Literal::Boolean(false)));
    assert_eq!(binary(number(1.0), TokenType::GreaterEqual, number(1.0)), Ok(Literal::Boolean(true)));
    assert_eq!(binary(number(0.5), TokenType::GreaterEqual, number(1.0)), Ok(Literal::Boolean(false)));
    assert_eq!(binary(number(-2.0), TokenType::Less, number(-1.0)), Ok(Literal::Boolean(true)));
    assert_eq!(binary(number(-1.0), TokenType::Less, number(-2.0)), Ok(Literal::Boolean(false)));
    assert_eq!(binary(number(-1.0), TokenType::LessEqual, number(-1.0)), Ok(Literal::Boolean(true)));
    assert_eq!(binary(number(3.0), TokenType::LessEqual, number(-1.0)), Ok(Literal::Boolean(false)));
    assert_eq!(binary(number(f64::NAN), TokenType::LessEqual, number(f64::NAN)), Ok(Literal::Boolean(false)));
    assert_eq!(binary(number(-0.0), TokenType::Less, number(0.0)), Ok(Literal::Boolean(false)));
}

#[test]
fn comparison_of_other_operands_is_a_type_error() {
    for kind in [TokenType::Greater, TokenType::GreaterEqual, TokenType::Less, TokenType::LessEqual] {
        assert_eq!(
            binary(text("a"), kind, text("b")),
            Err(TypeError::Binary { operator: kind, left: ValueKind::Str, right: ValueKind::Str })
        );
        assert_eq!(
            binary(number(1.0), kind, Literal::Nil),
            Err(TypeError::Binary { operator: kind, left: ValueKind::Number, right: ValueKind::Nil })
        );
        assert_eq!(
            binary(Literal::Boolean(true), kind, number(1.0)),
            Err(TypeError::Binary {
                operator: kind,
                left: ValueKind::Boolean,
                right: ValueKind::Number
            })
        );
    }
}

#[test]
fn equality_compares_variant_and_payload() {
    assert_eq!(binary(number(1.0), TokenType::EqualEqual, number(1.0)), Ok(Literal::Boolean(true)));
    assert_eq!(binary(number(1.0), TokenType::EqualEqual, number(2.0)), Ok(Literal::Boolean(false)));
    assert_eq!(binary(number(1.0), TokenType::EqualEqual, text("1")), Ok(Literal::Boolean(false)));
    assert_eq!(binary(text("1"), TokenType::EqualEqual, text("1")), Ok(Literal::Boolean(true)));
    assert_eq!(binary(Literal::Nil, TokenType::EqualEqual, Literal::Nil), Ok(Literal::Boolean(true)));
    assert_eq!(binary(Literal::Nil, TokenType::EqualEqual, Literal::Boolean(false)), Ok(Literal::Boolean(false)));
    assert_eq!(binary(number(0.0), TokenType::EqualEqual, Literal::Boolean(false)), Ok(Literal::Boolean(false)));
    assert_eq!(binary(number(1.0), TokenType::BangEqual, text("1")), Ok(Literal::Boolean(true)));
    assert_eq!(binary(text("a"), TokenType::BangEqual, text("a")), Ok(Literal::Boolean(false)));
    assert_eq!(binary(number(0.0), TokenType::EqualEqual, number(-0.0)), Ok(Literal::Boolean(true)));
    assert_eq!(binary(number(f64::NAN), TokenType::EqualEqual, number(f64::NAN)), Ok(Literal::Boolean(false)));
    assert_eq!(binary(number(f64::NAN), TokenType::BangEqual, number(f64::NAN)), Ok(Literal::Boolean(true)));
}

#[test]
fn unary_minus_needs_a_number() {
    assert_eq!(unary(TokenType::Minus, number(0.0)), Ok(number(-0.0)));
    assert_eq!(unary(TokenType::Minus, number(-2.5)), Ok(number(2.5)));
    assert_eq!(
        unary(TokenType::Minus, text("a")),
        Err(TypeError::Unary { operator: TokenType::Minus, operand: ValueKind::Str })
    );
    assert_eq!(
        unary(TokenType::Minus, Literal::Nil),
        Err(TypeError::Unary { operator: TokenType::Minus, operand: ValueKind::Nil })
    );
    assert_eq!(
        unary(TokenType::Minus, Literal::Boolean(true)),
        Err(TypeError::Unary { operator: TokenType::Minus, operand: ValueKind::Boolean })
    );
}

#[test]
fn bang_negates_truthiness() {
    assert_eq!(unary(TokenType::Bang, Literal::Nil), Ok(Literal::Boolean(true)));
    assert_eq!(unary(TokenType::Bang, Literal::Boolean(false)), Ok(Literal::Boolean(true)));
    assert_eq!(unary(TokenType::Bang, Literal::Boolean(true)), Ok(Literal::Boolean(false)));
    assert_eq!(unary(TokenType::Bang, number(0.0)), Ok(Literal::Boolean(false)));
    assert_eq!(unary(TokenType::Bang, text("")), Ok(Literal::Boolean(false)));
    assert_eq!(unary(TokenType::Bang, Literal::Identifier("x".to_string())), Ok(Literal::Boolean(false)));
}

#[test]
fn truthiness_and_equality_of_values() {
    assert!(!is_truthy(&Literal::Nil));
    assert!(!is_truthy(&Literal::Boolean(false)));
    assert!(is_truthy(&Literal::Boolean(true)));
    assert!(is_truthy(&number(0.0)));
    assert!(is_truthy(&number(f64::NAN)));
    assert!(is_truthy(&text("")));
    assert!(is_equal(&text("a"), &text("a")));
    assert!(!is_equal(&text("a"), &Literal::Identifier("a".to_string())));
    assert!(!is_equal(&number(1.0), &Literal::Boolean(true)));
    assert!(is_equal(&Literal::Boolean(false), &Literal::Boolean(false)));
}

#[test]
fn left_operand_is_evaluated_first_and_its_error_wins() {
    let interpreter = Interpreter { arith: arithmetic };
    let bad_left = Box::new(Expr::Unary(operator(TokenType::Minus, "-"), literal(text("l"))));
    let bad_right = Box::new(Expr::Unary(operator(TokenType::Minus, "-"), literal(Literal::Nil)));
    let expr = Box::new(Expr::Binary(bad_left, operator(TokenType::Plus, "+"), bad_right));
    assert_eq!(
        interpreter.interpret(&expr),
        Err(TypeError::Unary { operator: TokenType::Minus, operand: ValueKind::Str })
    );
    let good_left = literal(number(1.0));
    let bad_right = Box::new(Expr::Unary(operator(TokenType::Minus, "-"), literal(Literal::Nil)));
    let expr = Box::new(Expr::Binary(good_left, operator(TokenType::EqualEqual, "=="), bad_right));
    assert_eq!(
        interpreter.interpret(&expr),
        Err(TypeError::Unary { operator: TokenType::Minus, operand: ValueKind::Nil })
    );
}

#[test]
fn arithmetic_is_done_by_the_given_operation() {
    let interpreter = Interpreter { arith: |_: Arithmetic, a: u64, b: u64| a ^ b };
    let expr = Box::new(Expr::Binary(
        literal(Literal::Number(6)),
        operator(TokenType::Plus, "+"),
        literal(Literal::Number(3)),
    ));
    assert_eq!(interpreter.interpret(&expr), Ok(Literal::Number(5)));
    let calls = std::cell::RefCell::new(Vec::new());
    let interpreter = Interpreter {
        arith: |operation: Arithmetic, a: u64, b: u64| {
            calls.borrow_mut().push((operation, a, b));
            0
        },
    };
    let inner = Box::new(Expr::Binary(
        literal(Literal::Number(1)),
        operator(TokenType::Star, "*"),
        literal(Literal::Number(2)),
    ));
    let expr = Box::new(Expr::Binary(inner, operator(TokenType::Slash, "/"), literal(Literal::Number(3))));
    assert_eq!(interpreter.interpret(&expr), Ok(Literal::Number(0)));
    assert_eq!(
        *calls.borrow(),
        vec![(Arithmetic::Multiply, 1, 2), (Arithmetic::Divide, 0, 3)]
    );
}

#[test]
fn well_formed_trees_have_sound_operators() {
    let sum = Expr::Binary(literal(number(1.0)), operator(TokenType::Plus, "+"), literal(number(2.0)));
    assert!(sum.is_well_formed());
    let not = Expr::Unary(operator(TokenType::Bang, "!"), Box::new(sum));
    assert!(not.is_well_formed());
    assert!(Expr::Grouping(Box::new(not)).is_well_formed());
    let and = Expr::Binary(literal(Literal::Nil), operator(TokenType::And, "and"), literal(Literal::Nil));
    assert!(!and.is_well_formed());
    let plus = Expr::Unary(operator(TokenType::Plus, "+"), literal(number(1.0)));
    assert!(!plus.is_well_formed());
    let nested = Expr::Grouping(Box::new(Expr::Binary(
        literal(Literal::Nil),
        operator(TokenType::Star, "*"),
        Box::new(Expr::Unary(operator(TokenType::Comma, ","), literal(Literal::Nil))),
    )));
    assert!(!nested.is_well_formed());
}

struct Depth;

impl Visitor<usize> for Depth {
    fn visit_literal(&self, _literal: &Literal) -> usize {
        1
    }

    fn visit_grouping(&self, expr: &Box<Expr>) -> usize {
        1 + expr.accept(self)
    }

    fn visit_binary(&self, left: &Box<Expr>, _operator: &Token, right: &Box<Expr>) -> usize {
        1 + left.accept(self).max(right.accept(self))
    }

    fn visit_unary(&self, _operator: &Token, right: &Box<Expr>) -> usize {
        1 + right.accept(self)
    }
}

#[test]
fn accept_hands_each_node_to_its_method() {
    let expr = Expr::Binary(
        Box::new(Expr::Grouping(literal(Literal::Nil))),
        operator(TokenType::Plus, "+"),
        Box::new(Expr::Unary(
            operator(TokenType::Minus, "-"),
            Box::new(Expr::Grouping(literal(number(1.0)))),
        )),
    );
    assert_eq!(expr.accept(&Depth), 4);
    assert_eq!(Expr::Literal(Literal::Nil).accept(&Depth), 1);
}
