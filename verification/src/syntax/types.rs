//! The node payload types of the abstract syntax tree.

pub mod _binary;
pub mod _let;
pub mod _number;
pub mod _parenthesis;
pub mod _unary;
pub mod _variable;
