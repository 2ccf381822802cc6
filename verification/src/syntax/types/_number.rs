use vstd::prelude::*;

verus! {

/// A literal integer leaf.
#[derive(Clone, Copy, Debug)]
pub struct NumberExpression {
    pub number: i64,
}

} // verus!
