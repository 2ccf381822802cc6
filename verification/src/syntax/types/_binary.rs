use crate::syntax::expression::SyntaxTreeExpression;
use crate::syntax::lexer::{Token, TokenView};
use vstd::prelude::*;

verus! {

/// The binary operators of the language; a fixed integer precedence per kind,
/// higher binding tighter.
#[derive(Clone, Copy, Debug, PartialEq, Eq, Structural)]
pub enum BinaryOperatorKind {
    Plus,
    Minus,
    Multiply,
    Divide,
    Power,
    BitwiseAnd,
    BitwiseOr,
    BitwiseXor,
}

/// An operator occurrence: its kind plus the token it was read from, so that
/// printers can reproduce the exact operator text.
#[derive(Clone, Debug)]
pub struct BinaryOperator {
    pub kind: BinaryOperatorKind,
    pub token: Token,
}

/// The mathematical model of a `BinaryOperator`.
pub ghost struct BinaryOperatorView {
    pub kind: BinaryOperatorKind,
    pub token: TokenView,
}

impl View for BinaryOperator {
    type V = BinaryOperatorView;

    open spec fn view(&self) -> BinaryOperatorView {
        BinaryOperatorView { kind: self.kind, token: self.token@ }
    }
}

/// The fixed precedence table (looser to tighter: `|` `^` `&`, additive,
/// multiplicative, power).
pub open spec fn spec_precedence(kind: BinaryOperatorKind) -> u8 {
    match kind {
        BinaryOperatorKind::Power => 20,
        BinaryOperatorKind::Multiply => 19,
        BinaryOperatorKind::Divide => 19,
        BinaryOperatorKind::Plus => 18,
        BinaryOperatorKind::Minus => 18,
        BinaryOperatorKind::BitwiseAnd => 17,
        BinaryOperatorKind::BitwiseXor => 16,
        BinaryOperatorKind::BitwiseOr => 15,
    }
}

impl BinaryOperator {
    pub fn new(kind: BinaryOperatorKind, token: Token) -> (r: Self)
        ensures
            r.kind == kind,
            r.token == token,
    {
        BinaryOperator { kind, token }
    }

    pub fn precedence(&self) -> (r: u8)
        ensures
            r == spec_precedence(self.kind),
    {
        match self.kind {
            BinaryOperatorKind::Power => 20,
            BinaryOperatorKind::Multiply => 19,
            BinaryOperatorKind::Divide => 19,
            BinaryOperatorKind::Plus => 18,
            BinaryOperatorKind::Minus => 18,
            BinaryOperatorKind::BitwiseAnd => 17,
            BinaryOperatorKind::BitwiseXor => 16,
            BinaryOperatorKind::BitwiseOr => 15,
        }
    }
}

/// An application of a binary operator to two owned subtrees.
pub struct BinaryExpression {
    pub left: Box<SyntaxTreeExpression>,
    pub operator: BinaryOperator,
    pub right: Box<SyntaxTreeExpression>,
}

} // verus!
