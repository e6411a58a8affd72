pub mod object;
pub mod stack;
pub mod bytecode;
pub mod ast;
pub mod codegen;
pub mod token;
pub mod lexer;
pub mod syntax;
pub mod stdlib;
pub mod frame;
pub mod vm;
pub mod laws;
