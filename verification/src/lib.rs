pub mod cst;
pub mod error;
pub mod laws;
pub mod parser;
pub mod span;
pub mod syntax;
