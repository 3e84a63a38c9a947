pub mod chars;
pub mod eval;
pub mod lexer;
pub mod parser;
