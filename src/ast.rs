//! The abstract syntax tree that the parser builds and the evaluator walks.

use vstd::prelude::*;
use crate::token::{Identifier, Literal, Operator, Token, UnaryOperator};

verus! {

/// A declaration: a variable declaration, or a statement.
#[derive(Debug, PartialEq)]
pub enum Decl {
    /// `var name = initializer;`; `var name;` has `nil` as its initializer.
    Var { name: Token<Identifier>, initializer: Expression },
    Statement(Stmt),
}

/// A statement.
#[derive(Debug, PartialEq)]
pub enum Stmt {
    /// `expression;`
    Expression(Expression),
    /// `print expression;`
    Print(Expression),
}

/// An expression. Each node owns its subexpressions.
#[derive(Debug, PartialEq)]
pub enum Expression {
    Literal(Literal),
    /// An expression in parentheses.
    Grouping(Box<Expression>),
    Unary { operator: Token<UnaryOperator>, right: Box<Expression> },
    Binary { left: Box<Expression>, operator: Token<Operator>, right: Box<Expression> },
    Identifier(Identifier),
}

} // verus!
