use vstd::prelude::*;

verus! {

/// The untyped expression tree of the arithmetic front end.
pub type AST = Vec<Statment>;

#[derive(Debug)]
pub enum Literal {
    Int(i32),
    String(String),
}

#[derive(Debug)]
pub enum Infix {
    Plus,
}

impl Infix {
    /// The operator as written in source.
    pub fn symbol(&self) -> (r: String)
        ensures
            r@ == "+"@,
    {
        match self {
            Infix::Plus => "+".to_string(),
        }
    }
}

#[derive(Debug)]
pub enum Expression {
    Literal(Literal),
    Infix(Box<Expression>, Infix, Box<Expression>),
}

#[derive(Debug)]
pub enum Statment {
    Expression(Expression),
}

/// Binding strength of infix operators, weakest first.
#[derive(Debug, PartialEq, PartialOrd)]
pub enum Precedence {
    Lowest,
    Additive,
}

} // verus!
