use vstd::prelude::*;
use crate::object::Type;

verus! {

/// A literal value in source.
#[derive(Debug, Clone, PartialEq)]
pub enum Literal {
    Int(i32),
    Boolean(bool),
    String(String),
}

/// A binary operation, carrying the operand type resolved by analysis.
#[derive(Debug, Clone, PartialEq)]
pub enum BinaryOp {
    Plus(Option<Type>),
    GratherThan(Option<Type>),
}

/// An expression of the type-annotated tree. Operands are pushed by preceding expression statements.
#[derive(Debug, Clone, PartialEq)]
pub enum Expression {
    Literal(Literal),
    FunctionCall(String),
    BinaryOp(BinaryOp),
    Identifier(String),
    Return(Option<Type>),
}

/// A named, typed parameter.
#[derive(Debug, Clone, PartialEq)]
pub struct Param {
    pub name: String,
    pub type_: Type,
}

#[derive(Debug, Clone, PartialEq)]
pub struct VariableDeclaration {
    pub name: String,
    pub type_: Type,
}

#[derive(Debug)]
pub struct FunctionDeclaration {
    pub name: String,
    pub params: Vec<Param>,
    pub return_type: Type,
    pub body: Vec<Statement>,
}

/// A statement. `If` carries no condition: it branches on the value on top of the operand stack.
#[derive(Debug)]
pub enum Statement {
    If(Vec<Statement>, Option<Vec<Statement>>),
    Expression(Expression),
    FunctionDeclaration(FunctionDeclaration),
    VariableDeclaration(VariableDeclaration),
    Assignment(Option<String>),
}

pub type BlockStatement = Vec<Statement>;

pub type AST = Vec<Statement>;

} // verus!
