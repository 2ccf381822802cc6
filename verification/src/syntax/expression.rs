//! Expression nodes of the abstract syntax tree.

use super::lexer::{SpanView, TextSpan, Token};
use super::types::_binary::{BinaryExpression, BinaryOperator, BinaryOperatorView};
use super::types::_number::NumberExpression;
use super::types::_parenthesis::ParenthesisExpression;
use super::types::_unary::{UnaryExpression, UnaryOperator, UnaryOperatorView};
use super::types::_variable::VariableExpression;
use super::lexer::TokenView;
use vstd::prelude::*;

verus! {

/// The closed set of expression node kinds.  `Error` is a first-class node:
/// it keeps the tree well formed even where parsing failed locally.
pub enum SyntaxTreeExpressionKind {
    Number(NumberExpression),
    Binary(BinaryExpression),
    Unary(UnaryExpression),
    Parenthesised(ParenthesisExpression),
    Variable(VariableExpression),
    Error(TextSpan),
}

/// An expression tree node; children are exclusively owned, so the tree has
/// no sharing and no cycles.
pub struct SyntaxTreeExpression {
    pub kind: SyntaxTreeExpressionKind,
}

/// The mathematical model of an expression tree.
pub ghost enum ExprView {
    Number(i64),
    Binary(BinaryOperatorView, Box<ExprView>, Box<ExprView>),
    Unary(UnaryOperatorView, Box<ExprView>),
    Parenthesised(Box<ExprView>),
    Variable(TokenView),
    Error(SpanView),
}

pub open spec fn spec_expr_view(e: SyntaxTreeExpression) -> ExprView
    decreases e,
{
    match e.kind {
        SyntaxTreeExpressionKind::Number(n) => ExprView::Number(n.number),
        SyntaxTreeExpressionKind::Binary(b) => ExprView::Binary(
            b.operator@,
            Box::new(spec_expr_view(*b.left)),
            Box::new(spec_expr_view(*b.right)),
        ),
        SyntaxTreeExpressionKind::Unary(u) => ExprView::Unary(
            u.operator@,
            Box::new(spec_expr_view(*u.operand)),
        ),
        SyntaxTreeExpressionKind::Parenthesised(p) => ExprView::Parenthesised(
            Box::new(spec_expr_view(*p.expression)),
        ),
        SyntaxTreeExpressionKind::Variable(v) => ExprView::Variable(v.identifier@),
        SyntaxTreeExpressionKind::Error(span) => ExprView::Error(span@),
    }
}

impl View for SyntaxTreeExpression {
    type V = ExprView;

    open spec fn view(&self) -> ExprView {
        spec_expr_view(*self)
    }
}

/// A tree is free of error nodes when no `Error` variant occurs anywhere in
/// it.
pub open spec fn error_free(e: ExprView) -> bool
    decreases e,
{
    match e {
        ExprView::Number(_) => true,
        ExprView::Binary(_, l, r) => error_free(*l) && error_free(*r),
        ExprView::Unary(_, operand) => error_free(*operand),
        ExprView::Parenthesised(inner) => error_free(*inner),
        ExprView::Variable(_) => true,
        ExprView::Error(_) => false,
    }
}

impl SyntaxTreeExpression {
    pub fn new(kind: SyntaxTreeExpressionKind) -> (r: Self)
        ensures
            r == (SyntaxTreeExpression { kind }),
    {
        SyntaxTreeExpression { kind }
    }

    pub fn number(number: i64) -> (r: Self)
        ensures
            r@ == ExprView::Number(number),
    {
        SyntaxTreeExpression::new(
            SyntaxTreeExpressionKind::Number(NumberExpression { number }),
        )
    }

    pub fn binary(operator: BinaryOperator, left: SyntaxTreeExpression, right: SyntaxTreeExpression) -> (r: Self)
        ensures
            r@ == ExprView::Binary(operator@, Box::new(left@), Box::new(right@)),
    {
        SyntaxTreeExpression::new(
            SyntaxTreeExpressionKind::Binary(
                BinaryExpression { left: Box::new(left), operator, right: Box::new(right) },
            ),
        )
    }

    pub fn unary(operator: UnaryOperator, operand: SyntaxTreeExpression) -> (r: Self)
        ensures
            r@ == ExprView::Unary(operator@, Box::new(operand@)),
    {
        SyntaxTreeExpression::new(
            SyntaxTreeExpressionKind::Unary(
                UnaryExpression { operator, operand: Box::new(operand) },
            ),
        )
    }

    pub fn parenthsised(expression: SyntaxTreeExpression) -> (r: Self)
        ensures
            r@ == ExprView::Parenthesised(Box::new(expression@)),
    {
        SyntaxTreeExpression::new(
            SyntaxTreeExpressionKind::Parenthesised(
                ParenthesisExpression { expression: Box::new(expression) },
            ),
        )
    }

    pub fn identifier(identifier: Token) -> (r: Self)
        ensures
            r@ == ExprView::Variable(identifier@),
    {
        SyntaxTreeExpression::new(
            SyntaxTreeExpressionKind::Variable(VariableExpression { identifier }),
        )
    }

    pub fn error(span: TextSpan) -> (r: Self)
        ensures
            r@ == ExprView::Error(span@),
    {
        SyntaxTreeExpression::new(SyntaxTreeExpressionKind::Error(span))
    }
}

} // verus!
