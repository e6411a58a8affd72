use vstd::prelude::*;

verus! {

/// A lexical token of the source language.
#[derive(Debug, Clone, PartialEq)]
pub enum Token {
    Illegal(char),
    Eof,
    Int(i32),
    String(String),
    Identifier(String),
    Plus,
    Minus,
    Dot,
    Arrow,
    Comma,
    Lparen,
    Rparen,
    Semicolon,
    FunctionDeclarator,
    If,
    Else,
    Return,
    TypeInteger,
    TypeString,
    TypeBoolean,
    True,
    False,
    GratherThan,
    Equal,
}

/// The ASCII digits of `n`, most significant first, without leading zeros.
pub open spec fn digits_of(n: nat) -> Seq<char>
    decreases n,
{
    if n < 10 {
        seq!["0123456789"@[n as int]]
    } else {
        digits_of(n / 10).push("0123456789"@[(n % 10) as int])
    }
}

/// The decimal text of `x`: a minus sign for negatives, then the digits of its absolute value.
pub open spec fn decimal_text(x: i32) -> Seq<char> {
    if x < 0 {
        seq!['-'] + digits_of((-(x as int)) as nat)
    } else {
        digits_of(x as nat)
    }
}

/// Relies on `i32::to_string` (its `Display` impl): decimal, with a leading `-` for negatives.
#[verifier::external_body]
fn int_text(x: i32) -> (r: String)
    ensures
        r@ == decimal_text(x),
{
    x.to_string()
}

/// Relies on `char::to_string` (its `Display` impl): the one character as a string.
#[verifier::external_body]
fn char_text(c: char) -> (r: String)
    ensures
        r@ == seq![c],
{
    c.to_string()
}

/// The message text for an illegal character.
fn illegal_text(c: char) -> (r: String)
    ensures
        r@ == "[Illegal Token] "@.push(c),
{
    let mut s = "[Illegal Token] ".to_string();
    let t = char_text(c);
    s.append(t.as_str());
    proof {
        assert(s@ =~= "[Illegal Token] "@.push(c));
    }
    s
}

/// How a token reads in messages.
pub open spec fn token_text(t: Token) -> Seq<char> {
    match t {
        Token::Illegal(c) => "[Illegal Token] "@.push(c),
        Token::Eof => "EOF"@,
        Token::Int(x) => decimal_text(x),
        Token::String(s) => s@,
        Token::Identifier(s) => s@,
        Token::Plus => "+"@,
        Token::Dot => "."@,
        Token::Arrow => "->"@,
        Token::Lparen => "("@,
        Token::Rparen => ")"@,
        Token::Semicolon => ";"@,
        Token::Minus => "-"@,
        Token::FunctionDeclarator => "[Function declaration] f"@,
        Token::TypeInteger => "int"@,
        Token::TypeString => "str"@,
        Token::TypeBoolean => "bool"@,
        Token::Comma => ","@,
        Token::If => "if"@,
        Token::Else => "else"@,
        Token::GratherThan => ">"@,
        Token::Return => "return"@,
        Token::Equal => "="@,
        Token::True => "true"@,
        Token::False => "false"@,
    }
}

impl Token {
    /// The token as it reads in messages.
    pub fn text(&self) -> (r: String)
        ensures
            r@ == token_text(*self),
    {
        match self {
            Token::Illegal(val) => illegal_text(*val),
            Token::Eof => "EOF".to_string(),
            Token::Int(x) => int_text(*x),
            Token::String(s) => s.clone(),
            Token::Identifier(ident) => ident.clone(),
            Token::Plus => "+".to_string(),
            Token::Dot => ".".to_string(),
            Token::Arrow => "->".to_string(),
            Token::Lparen => "(".to_string(),
            Token::Rparen => ")".to_string(),
            Token::Semicolon => ";".to_string(),
            Token::Minus => "-".to_string(),
            Token::FunctionDeclarator => "[Function declaration] f".to_string(),
            Token::TypeInteger => "int".to_string(),
            Token::TypeString => "str".to_string(),
            Token::TypeBoolean => "bool".to_string(),
            Token::Comma => ",".to_string(),
            Token::If => "if".to_string(),
            Token::Else => "else".to_string(),
            Token::GratherThan => ">".to_string(),
            Token::Return => "return".to_string(),
            Token::Equal => "=".to_string(),
            Token::True => "true".to_string(),
            Token::False => "false".to_string(),
        }
    }
}

} // verus!
