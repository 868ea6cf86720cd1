pub mod interpreter;
pub mod laws;
pub mod lexer;
pub mod machine;
pub mod number;
pub mod text;
