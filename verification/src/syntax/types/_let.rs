use crate::syntax::expression::SyntaxTreeExpression;
use crate::syntax::lexer::Token;
use vstd::prelude::*;

verus! {

/// A `let <identifier> = <initialiser>` binding.
pub struct LetStatement {
    pub identifier: Token,
    pub initialiser: SyntaxTreeExpression,
}

} // verus!
