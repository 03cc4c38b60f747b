//! The abstract syntax tree the parser produces and the compiler consumes.

use vstd::prelude::*;

use crate::token::Token;

verus! {

/// A whole program: its declarations in source order.
#[derive(Debug)]
pub struct Program {
    pub declarations: Vec<DeclarationWithLineNo>,
}

/// A declaration together with the source line it begins on.
#[derive(Debug)]
pub struct DeclarationWithLineNo {
    pub decl: Declaration,
    pub lineno: u16,
}

#[derive(Debug)]
pub enum Declaration {
    FunDecl(FunDecl),
    LetDecl(LetDecl),
    Statement(Statement),
}

#[derive(Debug)]
pub struct FunDecl {
    pub name: Token,
    pub params: Vec<Token>,
    pub body: Vec<DeclarationWithLineNo>,
}

#[derive(Debug)]
pub struct LetDecl {
    pub identifier: Token,
    pub initializer: Option<Expr>,
}

#[derive(Debug)]
pub enum Statement {
    ExprStmt(Expr),
    IfStmt(IfStmt),
    PrintStmt(Expr),
    ReturnStmt(ReturnStmt),
    WhileStmt(WhileStmt),
    Block(Vec<DeclarationWithLineNo>),
}

#[derive(Debug)]
pub enum Expr {
    Literal(Literal),
    Unary(Unary),
    Binary(Binary),
    Call(Call),
    Grouping(Grouping),
    Variable(Variable),
    Assignment(Assignment),
    Logical(Logical),
    Get(Get),
    SetProp(SetProp),
}

/// A literal.  A number literal carries its source text; see
/// [`crate::token::TokenType`].
#[derive(Debug)]
pub enum Literal {
    Number(String),
    Str(String),
    True,
    False,
    Null,
}

#[derive(Debug)]
pub struct Call {
    pub callee: Box<Expr>,
    pub paren: Token,
    pub arguments: Vec<Expr>,
}

#[derive(Debug)]
pub struct Grouping {
    pub expression: Box<Expr>,
}

#[derive(Debug)]
pub struct Variable {
    pub name: Token,
}

#[derive(Debug)]
pub struct Unary {
    pub operator: Token,
    pub right: Box<Expr>,
}

#[derive(Debug)]
pub struct Binary {
    pub left: Box<Expr>,
    pub operator: Token,
    pub right: Box<Expr>,
}

#[derive(Debug)]
pub struct Logical {
    pub left: Box<Expr>,
    pub operator: Token,
    pub right: Box<Expr>,
}

/// A property read, `object.name`.
#[derive(Debug)]
pub struct Get {
    pub object: Box<Expr>,
    pub name: Token,
}

/// A property write, `object.name = value`.
#[derive(Debug)]
pub struct SetProp {
    pub object: Box<Expr>,
    pub name: Token,
    pub value: Box<Expr>,
}

#[derive(Debug)]
pub struct Assignment {
    pub name: Token,
    pub value: Box<Expr>,
}

#[derive(Debug)]
pub struct Super {
    pub keyword: Token,
    pub method: Token,
}

#[derive(Debug)]
pub struct IfStmt {
    pub condition: Expr,
    pub then_branch: Box<Statement>,
    pub else_branch: Option<Box<Statement>>,
}

#[derive(Debug)]
pub struct WhileStmt {
    pub condition: Expr,
    pub body: Box<Statement>,
}

#[derive(Debug)]
pub struct ReturnStmt {
    pub token: Token,
    pub expr: Option<Expr>,
}

} // verus!
