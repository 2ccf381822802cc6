use crate::syntax::lexer::Token;
use vstd::prelude::*;

verus! {

/// A reference to a variable, carrying the identifier token it came from.
#[derive(Clone, Debug)]
pub struct VariableExpression {
    pub identifier: Token,
}

impl VariableExpression {
    /// The variable's name: the literal text of its identifier token.
    pub fn identifier(&self) -> (r: &str)
        ensures
            r@ == self.identifier.span@.literal,
    {
        self.identifier.span.literal.as_str()
    }
}

} // verus!
