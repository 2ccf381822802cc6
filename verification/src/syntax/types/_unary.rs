use crate::syntax::expression::SyntaxTreeExpression;
use crate::syntax::lexer::{Token, TokenView};
use vstd::prelude::*;

verus! {

/// The prefix operators of the language.
#[derive(Clone, Copy, Debug, PartialEq, Eq, Structural)]
pub enum UnaryOperatorKind {
    Minus,
    BitwiseNot,
}

/// A prefix operator occurrence with its originating token.
#[derive(Clone, Debug)]
pub struct UnaryOperator {
    pub kind: UnaryOperatorKind,
    pub token: Token,
}

/// The mathematical model of a `UnaryOperator`.
pub ghost struct UnaryOperatorView {
    pub kind: UnaryOperatorKind,
    pub token: TokenView,
}

impl View for UnaryOperator {
    type V = UnaryOperatorView;

    open spec fn view(&self) -> UnaryOperatorView {
        UnaryOperatorView { kind: self.kind, token: self.token@ }
    }
}

impl UnaryOperator {
    pub fn new(kind: UnaryOperatorKind, token: Token) -> (r: Self)
        ensures
            r.kind == kind,
            r.token == token,
    {
        UnaryOperator { kind, token }
    }
}

/// An application of a prefix operator to one owned subtree.
pub struct UnaryExpression {
    pub operator: UnaryOperator,
    pub operand: Box<SyntaxTreeExpression>,
}

} // verus!
