pub mod expr;
pub mod stmt;
