pub mod position;
pub mod types;
pub mod tokens;
pub mod text;
pub mod lexer;
pub mod ast;
pub mod parser;
pub mod assoc;
pub mod executor;
pub mod source;
