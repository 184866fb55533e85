use rlox::ast_printer::AstPrinter;
use rlox::expression::{Expr, Visitor};
use rlox::token::{Literal, Token, TokenType};

fn print_double(bits: u64) -> String {
    f64::from_bits(bits).to_string()
}

fn number(value: f64) -> Literal {
    Literal::Number(value.to_bits())
}

#[test]
fn test_binary_op() {
    let ast_printer = AstPrinter { format_number: print_double };
    let text = ast_printer.visit_binary(
        &Box::new(Expr::Literal(number(5.0))),
        &Token::new(TokenType::Plus, String::from("+"), None, 1),
        &Box::new(Expr::Literal(number(2.0))),
    );
    assert_eq!(text, "(+ 5 2)");

    let text = ast_printer.visit_binary(
        &Box::new(Expr::Literal(number(5.2))),
        &Token::new(TokenType::Plus, String::from("+"), None, 1),
        &Box::new(Expr::Literal(number(2.5))),
    );
    assert_eq!(text, "(+ 5.2 2.5)");

    let text = ast_printer.visit_binary(
        &Box::new(Expr::Literal(number(5.2))),
        &Token::new(TokenType::Minus, String::from("-"), None, 1),
        &Box::new(Expr::Literal(number(2.5))),
    );
    assert_eq!(text, "(- 5.2 2.5)");
}

#[test]
fn test_complex_op() {
    let ast_printer = AstPrinter { format_number: print_double };

    let multiply = Box::new(Expr::Binary(
        Box::new(Expr::Literal(number(5.0))),
        Token::new(TokenType::Star, String::from("*"), None, 1),
        Box::new(Expr::Literal(number(2.0))),
    ));

    let subtract = Box::new(Expr::Binary(
        Box::new(Expr::Literal(number(10.0))),
        Token::new(TokenType::Minus, String::from("-"), None, 1),
        Box::new(Expr::Literal(number(3.0))),
    ));

    let text = ast_printer.visit_binary(
        &multiply,
        &Token::new(TokenType::Plus, String::from("+"), None, 1),
        &subtract,
    );

    assert_eq!(text, "(+ (* 5 2) (- 10 3))");

    let negate = Box::new(Expr::Unary(
        Token::new(TokenType::Minus, String::from("-"), None, 1),
        Box::new(Expr::Literal(number(5.0))),
    ));

    let text = ast_printer.visit_binary(
        &negate,
        &Token::new(TokenType::Star, String::from("*"), None, 1),
        &Box::new(Expr::Literal(number(3.0))),
    );

    assert_eq!(text, "(* (- 5) 3)");
}

#[test]
fn more_complex_grouping() {
    let ast_printer = AstPrinter { format_number: print_double };

    let multiply = Box::new(Expr::Binary(
        Box::new(Expr::Literal(number(3.0))),
        Token::new(TokenType::Star, String::from("*"), None, 1),
        Box::new(Expr::Literal(number(4.0))),
    ));

    let addition = Box::new(Expr::Binary(
        Box::new(Expr::Literal(number(2.0))),
        Token::new(TokenType::Plus, String::from("+"), None, 1),
        multiply,
    ));

    let grouped = Box::new(Expr::Grouping(addition));

    let text = ast_printer.print(&grouped);
    assert_eq!(text, "(grouping (+ 2 (* 3 4)))");

    let inner_group = Box::new(Expr::Grouping(Box::new(Expr::Literal(number(42.0)))));

    let outer_group = Box::new(Expr::Grouping(inner_group));

    let text = ast_printer.print(&outer_group);
    assert_eq!(text, "(grouping (grouping 42))");
}

#[test]
fn print_each_kind_of_literal() {
    let ast_printer = AstPrinter { format_number: print_double };
    assert_eq!(ast_printer.visit_literal(&Literal::Nil), "nil");
    assert_eq!(ast_printer.visit_literal(&Literal::Boolean(true)), "true");
    assert_eq!(ast_printer.visit_literal(&Literal::Boolean(false)), "false");
    assert_eq!(ast_printer.visit_literal(&Literal::Str("a b".to_string())), "\"a b\"");
    assert_eq!(ast_printer.visit_literal(&Literal::Identifier("foo".to_string())), "Identifier(foo)");
    assert_eq!(ast_printer.visit_literal(&number(0.5)), "0.5");
    assert_eq!(Literal::Str(String::new()).to_text(&print_double), "\"\"");
    assert_eq!(number(-1.5).to_text(&print_double), "-1.5");
}

#[test]
fn print_unary_and_accept() {
    let ast_printer = AstPrinter { format_number: print_double };
    let not = Expr::Unary(
        Token::new(TokenType::Bang, String::from("!"), None, 1),
        Box::new(Expr::Literal(Literal::Boolean(true))),
    );
    assert_eq!(not.accept(&ast_printer), "(! true)");
    let text = ast_printer.visit_unary(
        &Token::new(TokenType::Minus, String::from("-"), None, 1),
        &Box::new(Expr::Grouping(Box::new(Expr::Literal(Literal::Nil)))),
    );
    assert_eq!(text, "(- (grouping nil))");
    assert_eq!(
        ast_printer.visit_grouping(&Box::new(Expr::Literal(Literal::Str("x".to_string())))),
        "(grouping \"x\")"
    );
}

#[test]
fn print_uses_the_given_number_format() {
    let ast_printer = AstPrinter { format_number: |bits: u64| format!("<{}>", bits) };
    let expr = Box::new(Expr::Unary(
        Token::new(TokenType::Minus, String::from("-"), None, 1),
        Box::new(Expr::Literal(Literal::Number(7))),
    ));
    assert_eq!(ast_printer.print(&expr), "(- <7>)");
}
