//! The printer: a syntax tree as text in prefix form, each operator with
//! its operands in one pair of parentheses.
//!
//! Numbers are printed by a function that the printer is given. What the
//! printer returns is stated by `renders`, a relation, because nothing is
//! known of that function but what it says of itself. Where the printing of
//! numbers is a function, so is the rendering: `rendering`.

use crate::expression::{Expr, Visitor};
use crate::token::{
    lemma_literal_printing,
    literal_printing,
    literal_text,
    printed_as,
    printed_by,
    Format,
    Literal,
    Prints,
    Token,
};
use vstd::prelude::*;
use vstd::string::StringExecFns;

verus! {

/// The parts, each with a blank before it.
pub open spec fn spaced(parts: Seq<Seq<char>>) -> Seq<char>
    decreases parts.len(),
{
    if parts.len() == 0 {
        Seq::empty()
    } else {
        spaced(parts.drop_last()) + seq![' '] + parts.last()
    }
}

/// `(`, the name, each part with a blank before it, and `)`.
pub open spec fn parenthesized(name: Seq<char>, parts: Seq<Seq<char>>) -> Seq<char> {
    seq!['('] + name + spaced(parts) + seq![')']
}

/// A name and one operand in parentheses.
pub open spec fn around_one(name: Seq<char>, a: Seq<char>) -> Seq<char> {
    parenthesized(name, seq![a])
}

/// A name and two operands in parentheses.
pub open spec fn around_two(name: Seq<char>, a: Seq<char>, b: Seq<char>) -> Seq<char> {
    parenthesized(name, seq![a, b])
}

/// The texts of strings.
pub open spec fn texts(parts: Seq<String>) -> Seq<Seq<char>> {
    Seq::new(parts.len(), |i: int| parts[i]@)
}

/// Whether `text` is a rendering of `expr`, numbers printed as `format` says. A
/// literal is rendered as its value is. A grouping is the name `grouping`
/// with its inside, and an operator its lexeme with its operands, in
/// parentheses.
pub open spec fn renders(format: Prints, expr: Expr, text: Seq<char>) -> bool
    decreases expr,
{
    match expr {
        Expr::Literal(value) => literal_text(format, value@, text),
        Expr::Grouping(inner) => exists|a: Seq<char>|
            renders(format, *inner, a) && text == #[trigger] around_one("grouping"@, a),
        Expr::Binary(left, operator, right) => exists|a: Seq<char>, b: Seq<char>|
            renders(format, *left, a) && renders(format, *right, b) && text
                == #[trigger] around_two(operator.lexeme@, a, b),
        Expr::Unary(operator, operand) => exists|a: Seq<char>|
            renders(format, *operand, a) && text == #[trigger] around_one(operator.lexeme@, a),
    }
}

/// The rendering of `expr`, numbers printed as `format` says.
pub open spec fn rendering(format: Format, expr: Expr) -> Seq<char>
    decreases expr,
{
    match expr {
        Expr::Literal(value) => literal_printing(format, value@),
        Expr::Grouping(inner) => around_one("grouping"@, rendering(format, *inner)),
        Expr::Binary(left, operator, right) => around_two(
            operator.lexeme@,
            rendering(format, *left),
            rendering(format, *right),
        ),
        Expr::Unary(operator, operand) => around_one(
            operator.lexeme@,
            rendering(format, *operand),
        ),
    }
}

/// Where the printing of numbers is a function, an expression has one
/// rendering.
pub proof fn lemma_renders_to_rendering(format: Format, expr: Expr, text: Seq<char>)
    ensures
        renders(printed_as(format), expr, text) <==> text == rendering(format, expr),
    decreases expr,
{
    let prints = printed_as(format);
    match expr {
        Expr::Literal(value) => {
            lemma_literal_printing(format, value@, text);
        },
        Expr::Grouping(inner) => {
            let a = rendering(format, *inner);
            lemma_renders_to_rendering(format, *inner, a);
            if renders(prints, expr, text) {
                let b = choose|b: Seq<char>|
                    renders(prints, *inner, b) && text == #[trigger] around_one("grouping"@, b);
                lemma_renders_to_rendering(format, *inner, b);
            }
            if text == rendering(format, expr) {
                assert(text == around_one("grouping"@, a));
            }
        },
        Expr::Binary(left, operator, right) => {
            let a = rendering(format, *left);
            let b = rendering(format, *right);
            lemma_renders_to_rendering(format, *left, a);
            lemma_renders_to_rendering(format, *right, b);
            if renders(prints, expr, text) {
                let (c, d) = choose|c: Seq<char>, d: Seq<char>|
                    renders(prints, *left, c) && renders(prints, *right, d) && text
                        == #[trigger] around_two(operator.lexeme@, c, d);
                lemma_renders_to_rendering(format, *left, c);
                lemma_renders_to_rendering(format, *right, d);
            }
            if text == rendering(format, expr) {
                assert(text == around_two(operator.lexeme@, a, b));
            }
        },
        Expr::Unary(operator, operand) => {
            let a = rendering(format, *operand);
            lemma_renders_to_rendering(format, *operand, a);
            if renders(prints, expr, text) {
                let b = choose|b: Seq<char>|
                    renders(prints, *operand, b) && text == #[trigger] around_one(
                        operator.lexeme@,
                        b,
                    );
                lemma_renders_to_rendering(format, *operand, b);
            }
            if text == rendering(format, expr) {
                assert(text == around_one(operator.lexeme@, a));
            }
        },
    }
}

/// The printer, with what it prints numbers by.
pub struct AstPrinter<F> {
    /// Prints a number, given by its binary64 encoding.
    pub format_number: F,
}

impl<F: Fn(u64) -> String> AstPrinter<F> {
    /// How the printer prints numbers.
    pub open spec fn prints(&self) -> Prints {
        printed_by(self.format_number)
    }

    /// The printer of numbers accepts every number.
    pub open spec fn ready(&self) -> bool {
        forall|bits: u64| call_requires(self.format_number, (bits,))
    }

    /// Renders an expression.
    pub fn print(&self, expr: &Box<Expr>) -> (r: String)
        requires
            self.ready(),
        ensures
            renders(self.prints(), **expr, r@),
    {
        expr.accept(self)
    }

    /// Renders a node by the method that is meant for it.
    fn render(&self, expr: &Expr) -> (r: String)
        requires
            self.ready(),
        ensures
            renders(self.prints(), *expr, r@),
        decreases *expr, 1int,
    {
        match expr {
            Expr::Literal(literal) => self.visit_literal(literal),
            Expr::Grouping(inner) => self.visit_grouping(inner),
            Expr::Binary(left, operator, right) => self.visit_binary(left, operator, right),
            Expr::Unary(operator, operand) => self.visit_unary(operator, operand),
        }
    }

    /// Puts a name and the renderings of operands in parentheses.
    fn parenthesize(&self, name: &str, parts: &Vec<String>) -> (r: String)
        ensures
            r@ == parenthesized(name@, texts(parts@)),
    {
        proof {
            reveal_strlit("(");
            reveal_strlit(" ");
            reveal_strlit(")");
        }
        let mut builder = String::new();
        builder.append("(");
        builder.append(name);
        let ghost head = builder@;
        assert(head == seq!['('] + name@);
        let mut i: usize = 0;
        while i < parts.len()
            invariant
                i <= parts.len(),
                builder@ == head + spaced(texts(parts@).take(i as int)),
            decreases parts.len() - i,
        {
            builder.append(" ");
            builder.append(parts[i].as_str());
            proof {
                let done = texts(parts@).take(i + 1);
                assert(done.drop_last() == texts(parts@).take(i as int));
                assert(done.last() == parts@[i as int]@);
                reveal_strlit(" ");
                assert(" "@ == seq![' ']);
            }
            i += 1;
        }
        assert(texts(parts@).take(parts.len() as int) == texts(parts@));
        builder.append(")");
        assert(")"@ == seq![')']);
        return builder;
    }
}

impl<F: Fn(u64) -> String> Visitor<String> for AstPrinter<F> {
    open spec fn accepts(&self, expr: Expr) -> bool {
        self.ready()
    }

    open spec fn yields(&self, expr: Expr, r: String) -> bool {
        renders(self.prints(), expr, r@)
    }

    fn visit_literal(&self, expr: &Literal) -> (r: String) {
        expr.to_text(&self.format_number)
    }

    fn visit_grouping(&self, expr: &Box<Expr>) -> (r: String)
        decreases Expr::Grouping(*expr), 0int,
    {
        assert(Expr::Grouping(*expr)->Grouping_0 == *expr);
        let inner = self.render(expr);
        let mut parts: Vec<String> = Vec::new();
        parts.push(inner);
        let ghost a = parts@[0]@;
        let r = self.parenthesize("grouping", &parts);
        assert(texts(parts@) == seq![a]);
        assert(r@ == around_one("grouping"@, a));
        r
    }

    fn visit_binary(&self, left: &Box<Expr>, operator: &Token, right: &Box<Expr>) -> (r: String)
        decreases Expr::Binary(*left, *operator, *right), 0int,
    {
        assert(Expr::Binary(*left, *operator, *right)->Binary_0 == *left);
        assert(Expr::Binary(*left, *operator, *right)->Binary_2 == *right);
        let first = self.render(left);
        let second = self.render(right);
        let mut parts: Vec<String> = Vec::new();
        parts.push(first);
        parts.push(second);
        let ghost a = parts@[0]@;
        let ghost b = parts@[1]@;
        let r = self.parenthesize(operator.lexeme.as_str(), &parts);
        assert(texts(parts@) == seq![a, b]);
        assert(r@ == around_two(operator.lexeme@, a, b));
        r
    }

    fn visit_unary(&self, operator: &Token, right: &Box<Expr>) -> (r: String)
        decreases Expr::Unary(*operator, *right), 0int,
    {
        assert(Expr::Unary(*operator, *right)->Unary_1 == *right);
        let operand = self.render(right);
        let mut parts: Vec<String> = Vec::new();
        parts.push(operand);
        let ghost a = parts@[0]@;
        let r = self.parenthesize(operator.lexeme.as_str(), &parts);
        assert(texts(parts@) == seq![a]);
        assert(r@ == around_one(operator.lexeme@, a));
        r
    }
}

} // verus!
