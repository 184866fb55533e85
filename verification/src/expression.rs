//! The syntax tree of an expression, and visitors of it.

use crate::token::{Literal, Token};
use vstd::prelude::*;

verus! {

/// An expression. Each node owns its operands.
#[derive(Debug)]
pub enum Expr {
    Literal(Literal),
    Grouping(Box<Expr>),
    Binary(Box<Expr>, Token, Box<Expr>),
    Unary(Token, Box<Expr>),
}

impl Expr {
    /// Whether every operator in the tree is one that may stand where it
    /// stands. The parser builds no other trees.
    pub open spec fn well_formed(self) -> bool
        decreases self,
    {
        match self {
            Expr::Literal(_) => true,
            Expr::Grouping(inner) => inner.well_formed(),
            Expr::Binary(left, operator, right) => operator.token_type.infix()
                && left.well_formed() && right.well_formed(),
            Expr::Unary(operator, operand) => operator.token_type.prefix()
                && operand.well_formed(),
        }
    }

    /// Tells whether every operator in the tree may stand where it stands.
    pub fn is_well_formed(&self) -> (r: bool)
        ensures
            r == self.well_formed(),
        decreases self,
    {
        match self {
            Expr::Literal(_) => true,
            Expr::Grouping(inner) => inner.is_well_formed(),
            Expr::Binary(left, operator, right) => operator.token_type.is_infix()
                && left.is_well_formed() && right.is_well_formed(),
            Expr::Unary(operator, operand) => operator.token_type.is_prefix()
                && operand.is_well_formed(),
        }
    }

    /// Hands the node to the method of `visitor` that is meant for it.
    pub fn accept<T: Visitor<R>, R>(&self, visitor: &T) -> (r: R)
        requires
            visitor.accepts(*self),
        ensures
            visitor.yields(*self, r),
    {
        match self {
            Expr::Literal(literal) => visitor.visit_literal(literal),
            Expr::Grouping(expr) => visitor.visit_grouping(expr),
            Expr::Binary(left, op, right) => visitor.visit_binary(left, op, right),
            Expr::Unary(op, right) => visitor.visit_unary(op, right),
        }
    }
}

/// Something that computes an `R` from an expression, with one method for
/// each kind of node. What it computes is stated by `yields`, on the nodes
/// that `accepts` admits.
pub trait Visitor<R> {
    /// The nodes that the visitor can be handed: all of them, unless the
    /// visitor says otherwise.
    open spec fn accepts(&self, expr: Expr) -> bool {
        true
    }

    /// Whether `r` is a result of the visitor for `expr`. A visitor that
    /// does not say what it computes may return anything.
    open spec fn yields(&self, expr: Expr, r: R) -> bool {
        true
    }

    /// Visits a literal.
    fn visit_literal(&self, literal: &Literal) -> (r: R)
        requires
            self.accepts(Expr::Literal(*literal)),
        ensures
            self.yields(Expr::Literal(*literal), r),
    ;

    /// Visits a grouping, given its inside.
    fn visit_grouping(&self, expr: &Box<Expr>) -> (r: R)
        requires
            self.accepts(Expr::Grouping(*expr)),
        ensures
            self.yields(Expr::Grouping(*expr), r),
    ;

    /// Visits an infix operator with its two operands.
    fn visit_binary(&self, left: &Box<Expr>, operator: &Token, right: &Box<Expr>) -> (r: R)
        requires
            self.accepts(Expr::Binary(*left, *operator, *right)),
        ensures
            self.yields(Expr::Binary(*left, *operator, *right), r),
    ;

    /// Visits a prefix operator with its operand.
    fn visit_unary(&self, operator: &Token, right: &Box<Expr>) -> (r: R)
        requires
            self.accepts(Expr::Unary(*operator, *right)),
        ensures
            self.yields(Expr::Unary(*operator, *right), r),
    ;
}

} // verus!
