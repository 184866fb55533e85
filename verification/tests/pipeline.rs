use rlox::ast_printer::AstPrinter;
use rlox::interpreter::{Interpreter, TypeError};
use rlox::number::Arithmetic;
use rlox::parser::{Expected, ParseError, Parser};
use rlox::pipeline::{run, Diagnostic};
use rlox::scanner::{LexError, LexErrorKind, Scanner};
use rlox::token::{Literal, TokenType, ValueKind};

fn read_double(text: String) -> u64 {
    text.parse::<f64>().unwrap().to_bits()
}

fn print_double(bits: u64) -> String {
    f64::from_bits(bits).to_string()
}

fn arithmetic(operation: Arithmetic, a: u64, b: u64) -> u64 {
    let (a, b) = (f64::from_bits(a), f64::from_bits(b));
    let result = match operation {
        Arithmetic::Add => a + b,
        Arithmetic::Subtract => a - b,
        Arithmetic::Multiply => a * b,
        Arithmetic::Divide => a / b,
    };
    result.to_bits()
}

fn number(value: f64) -> Literal {
    Literal::Number(value.to_bits())
}

fn evaluate(source: &str) -> Result<Literal, TypeError> {
    let mut scanner = Scanner::new(source, read_double);
    scanner.scan_tokens().unwrap();
    let expr = Parser::new(scanner.tokens).parse().unwrap();
    Interpreter { arith: arithmetic }.interpret(&expr)
}

fn render(source: &str) -> String {
    let mut scanner = Scanner::new(source, read_double);
    scanner.scan_tokens().unwrap();
    let expr = Parser::new(scanner.tokens).parse().unwrap();
    AstPrinter { format_number: print_double }.print(&expr)
}

#[test]
fn scan_five_plus_two() {
    let mut scanner = Scanner::new("5+2", read_double);
    scanner.scan_tokens().unwrap();
    let tokens = scanner.tokens;
    let kinds: Vec<TokenType> = tokens.iter().map(|t| t.token_type).collect();
    assert_eq!(kinds, vec![TokenType::Number, TokenType::Plus, TokenType::Number, TokenType::Eof]);
    assert_eq!(tokens[0].literal, Some(number(5.0)));
    assert_eq!(tokens[2].literal, Some(number(2.0)));
}

#[test]
fn evaluate_difference_and_product() {
    assert_eq!(evaluate("5-3"), Ok(number(2.0)));
    assert_eq!(evaluate("5*2"), Ok(number(10.0)));
}

#[test]
fn render_sum_and_nested_grouping() {
    assert_eq!(render("5+2"), "(+ 5 2)");
    assert_eq!(render("(2 + 3*4)"), "(grouping (+ 2 (* 3 4)))");
}

#[test]
fn evaluate_truthiness() {
    assert_eq!(evaluate("!nil"), Ok(Literal::Boolean(true)));
    assert_eq!(evaluate("!false"), Ok(Literal::Boolean(true)));
    assert_eq!(evaluate("!0"), Ok(Literal::Boolean(false)));
}

#[test]
fn evaluate_equality_across_kinds() {
    assert_eq!(evaluate("1==\"1\""), Ok(Literal::Boolean(false)));
    assert_eq!(evaluate("1!=\"1\""), Ok(Literal::Boolean(true)));
    assert_eq!(evaluate("nil==false"), Ok(Literal::Boolean(false)));
}

#[test]
fn scan_empty_source() {
    let mut scanner = Scanner::new("", read_double);
    scanner.scan_tokens().unwrap();
    assert_eq!(scanner.tokens.len(), 1);
    assert_eq!(scanner.tokens[0].token_type, TokenType::Eof);
}

#[test]
fn evaluate_sum_of_decimals() {
    let cases: [(f64, f64); 13] = [
        (-1.5, 2.0),
        (1.0, -2.0),
        (-0.5, -0.25),
        (-0.0, 0.0),
        (1e300, -1e-7),
        (0.0, 0.0),
        (1.0, 2.0),
        (0.1, 0.2),
        (1.5, 2.25),
        (123456789.0, 0.000001),
        (1e15, 1.0),
        (0.5, 0.25),
        (9007199254740992.0, 1.0),
    ];
    for (a, b) in cases {
        let source = format!("{}+{}", a, b);
        assert_eq!(evaluate(&source), Ok(number(a + b)), "{}", source);
    }
}

#[test]
fn evaluate_nested_expressions() {
    assert_eq!(evaluate("1+2+3"), Ok(number(6.0)));
    assert_eq!(evaluate("10-4-3"), Ok(number(3.0)));
    assert_eq!(evaluate("2+3*4"), Ok(number(14.0)));
    assert_eq!(evaluate("(2+3)*4"), Ok(number(20.0)));
    assert_eq!(evaluate("-(1+2)"), Ok(number(-3.0)));
    assert_eq!(evaluate("1/0"), Ok(number(f64::INFINITY)));
    assert_eq!(evaluate("\"a\"+\"b\"+\"c\""), Ok(Literal::Str("abc".to_string())));
    assert_eq!(evaluate("1<2 == 2>1"), Ok(Literal::Boolean(true)));
    assert_eq!(evaluate("!(1>=2)"), Ok(Literal::Boolean(true)));
    assert_eq!(evaluate("\"a\" == \"a\""), Ok(Literal::Boolean(true)));
}

#[test]
fn evaluate_type_errors() {
    assert_eq!(
        evaluate("1+\"a\""),
        Err(TypeError::Binary {
            operator: TokenType::Plus,
            left: ValueKind::Number,
            right: ValueKind::Str
        })
    );
    assert_eq!(
        evaluate("-nil"),
        Err(TypeError::Unary { operator: TokenType::Minus, operand: ValueKind::Nil })
    );
    assert_eq!(
        evaluate("1 + (true < 2)"),
        Err(TypeError::Binary {
            operator: TokenType::Less,
            left: ValueKind::Boolean,
            right: ValueKind::Number
        })
    );
}

#[test]
fn run_gives_tokens_tree_and_value() {
    let done = run("1 + 2 * 3", read_double, arithmetic).unwrap();
    assert_eq!(done.tokens.len(), 6);
    assert_eq!(done.tokens[1].token_type, TokenType::Plus);
    assert_eq!(AstPrinter { format_number: print_double }.print(&done.expr), "(+ 1 (* 2 3))");
    assert_eq!(done.value, number(7.0));
}

#[test]
fn run_gives_the_error_of_the_stage_that_fails() {
    assert_eq!(
        run("1 + $", read_double, arithmetic).unwrap_err(),
        Diagnostic::Lex(LexError { kind: LexErrorKind::UnexpectedCharacter('$'), line: 1 })
    );
    assert_eq!(
        run("(1 + ", read_double, arithmetic).unwrap_err(),
        Diagnostic::Parse(ParseError {
            expected: Expected::Expression,
            found: TokenType::Eof,
            line: 1
        })
    );
    assert_eq!(
        run("1 + nil\n", read_double, arithmetic).unwrap_err(),
        Diagnostic::Type(TypeError::Binary {
            operator: TokenType::Plus,
            left: ValueKind::Number,
            right: ValueKind::Nil
        })
    );
    assert_eq!(
        run("\"a\" $ (", read_double, arithmetic).unwrap_err(),
        Diagnostic::Lex(LexError { kind: LexErrorKind::UnexpectedCharacter('$'), line: 1 })
    );
}

#[test]
fn run_reads_a_line_with_its_newline() {
    let done = run("5-3\n", read_double, arithmetic).unwrap();
    assert_eq!(done.value, number(2.0));
    assert_eq!(done.tokens.last().unwrap().line, 2);
}
