//! The syntax tree that a parser hands to the builder.

use vstd::prelude::*;

use crate::lexer::Location;

verus! {

/// A function definition: its name, parameter names and body.
#[derive(Debug)]
pub struct Function {
    pub name: String,
    pub arguments: Vec<String>,
    pub stmts: Vec<Statement>,
}

impl Function {
    pub fn new(name: &str, arguments: Vec<String>, stmts: Vec<Statement>) -> (r: Function)
        ensures
            r.name@ == name@,
            r.arguments == arguments,
            r.stmts == stmts,
    {
        Function { name: name.to_owned(), arguments, stmts }
    }
}

#[derive(Debug)]
pub enum Statement {
    Expr(Expr),
    Return(Expr),
    Assign(Expr, Expr),
    Declare(String, Expr),
    If(Expr, Vec<Statement>),
    While(Expr, Vec<Statement>),
}

/// An expression with the span of source text it was parsed from.
#[derive(Debug)]
pub struct Expr {
    pub kind: ExprKind,
    pub start: Location,
    pub end: Location,
}

#[derive(Debug)]
pub enum ExprKind {
    Number(i32),
    Char(char),
    String(String),
    Array(Vec<Expr>),
    BinaryOp(Box<Expr>, BinaryOpCode, Box<Expr>),
    UnaryOp(UnaryOpCode, Box<Expr>),
    Call(String, Vec<Expr>),
    Identifier(String),
    Subscription(Box<Expr>, Box<Expr>),
    Error,
}

impl Expr {
    pub fn new_binary_op(start: Location, lhs: Expr, op: BinaryOpCode, rhs: Expr, end: Location) -> (r: Expr)
        ensures
            r == (Expr { kind: ExprKind::BinaryOp(Box::new(lhs), op, Box::new(rhs)), start, end }),
    {
        Expr { kind: ExprKind::BinaryOp(Box::new(lhs), op, Box::new(rhs)), start, end }
    }

    pub fn new_unary_op(start: Location, op: UnaryOpCode, expr: Expr, end: Location) -> (r: Expr)
        ensures
            r == (Expr { kind: ExprKind::UnaryOp(op, Box::new(expr)), start, end }),
    {
        Expr { kind: ExprKind::UnaryOp(op, Box::new(expr)), start, end }
    }

    pub fn new_subscription(start: Location, array_expr: Expr, subscript_expr: Expr, end: Location) -> (r: Expr)
        ensures
            r == (Expr {
                kind: ExprKind::Subscription(Box::new(array_expr), Box::new(subscript_expr)),
                start,
                end,
            }),
    {
        Expr { kind: ExprKind::Subscription(Box::new(array_expr), Box::new(subscript_expr)), start, end }
    }

    pub fn new_number(start: Location, n: i32, end: Location) -> (r: Expr)
        ensures
            r == (Expr { kind: ExprKind::Number(n), start, end }),
    {
        Expr { kind: ExprKind::Number(n), start, end }
    }

    pub fn new_string(start: Location, s: &str, end: Location) -> (r: Expr)
        ensures
            r.kind matches ExprKind::String(t) && t@ == s@,
            r.start == start,
            r.end == end,
    {
        Expr { kind: ExprKind::String(s.to_owned()), start, end }
    }

    pub fn new_char(start: Location, c: char, end: Location) -> (r: Expr)
        ensures
            r == (Expr { kind: ExprKind::Char(c), start, end }),
    {
        Expr { kind: ExprKind::Char(c), start, end }
    }

    pub fn new_array(start: Location, exprs: Vec<Expr>, end: Location) -> (r: Expr)
        ensures
            r == (Expr { kind: ExprKind::Array(exprs), start, end }),
    {
        Expr { kind: ExprKind::Array(exprs), start, end }
    }

    pub fn new_call(start: Location, func: &str, exprs: Vec<Expr>, end: Location) -> (r: Expr)
        ensures
            r.kind matches ExprKind::Call(f, args) && f@ == func@ && args == exprs,
            r.start == start,
            r.end == end,
    {
        Expr { kind: ExprKind::Call(func.to_owned(), exprs), start, end }
    }

    pub fn new_identifier(start: Location, name: &str, end: Location) -> (r: Expr)
        ensures
            r.kind matches ExprKind::Identifier(n) && n@ == name@,
            r.start == start,
            r.end == end,
    {
        Expr { kind: ExprKind::Identifier(name.to_owned()), start, end }
    }
}

#[derive(Clone, Copy, PartialEq, Eq, Debug, Structural)]
pub enum BinaryOpCode {
    Mul,
    Div,
    Add,
    Sub,
    Mod,
    BoolOr,
    BoolAnd,
    LessThan,
    MoreThan,
    LessThanOrEqual,
    MoreThanOrEqual,
    Equal,
    NotEqual,
    BitOr,
    BitXor,
    BitAnd,
    LeftShift,
    RightShift,
}

#[derive(Clone, Copy, PartialEq, Eq, Debug, Structural)]
pub enum UnaryOpCode {
    Neg,
    Plus,
    BitNot,
    BoolNot,
}

} // verus!
