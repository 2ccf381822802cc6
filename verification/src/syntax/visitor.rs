//! The double-dispatch traversal contract shared by the passes over the
//! tree.  Each pass implements every hook; traversal is pre-order, left to
//! right, depth first, and skipping a subtree is an explicit choice of the
//! implementing pass.

use super::expression::SyntaxTreeExpression;
use super::lexer::TextSpan;
use super::statement::SyntaxTreeStatement;
use super::types::_binary::BinaryExpression;
use super::types::_let::LetStatement;
use super::types::_number::NumberExpression;
use super::types::_parenthesis::ParenthesisExpression;
use super::types::_unary::UnaryExpression;
use super::types::_variable::VariableExpression;
use vstd::prelude::*;

verus! {

/// A pass over the tree: one hook per statement and expression kind.
pub trait SyntaxTreeVisitor {
    /// Visits one top-level statement.
    fn visit_statement(&mut self, statement: &SyntaxTreeStatement);

    /// Visits a `let` binding.
    fn visit_let_statement(&mut self, let_statement: &LetStatement);

    /// Visits one expression, dispatching on its kind.
    fn visit_expression(&mut self, expression: &SyntaxTreeExpression);

    /// Visits a number literal.
    fn visit_number(&mut self, number: &NumberExpression);

    /// Visits a variable reference.
    fn visit_variable_expression(&mut self, variable_expression: &VariableExpression);

    /// Visits an error node.
    fn visit_error(&mut self, span: &TextSpan);

    /// Visits a binary operator application.
    fn visit_binary_expression(&mut self, binary_expression: &BinaryExpression);

    /// Visits a parenthesised subexpression.
    fn visit_parenthesised_expression(
        &mut self,
        parenthesised_expression: &ParenthesisExpression,
    );

    /// Visits a prefix operator application.
    fn visit_unary_expression(&mut self, unary_expression: &UnaryExpression);
}

} // verus!
