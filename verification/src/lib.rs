pub mod ast;
pub mod lex;
pub mod parse;
pub mod table;
