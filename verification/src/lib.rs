//! A lexical scanner for the Lox language, together with the expression tree
//! and the visitor that renders such trees as parenthesized text.

pub mod text;
pub mod token;
pub mod expr;
pub mod grammar;
pub mod laws;
pub mod lexer;
pub mod lox;
