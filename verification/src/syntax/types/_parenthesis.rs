use crate::syntax::expression::SyntaxTreeExpression;
use vstd::prelude::*;

verus! {

/// A parenthesised subexpression; grouping only, no change in value.
pub struct ParenthesisExpression {
    pub expression: Box<SyntaxTreeExpression>,
}

} // verus!
