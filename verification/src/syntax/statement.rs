//! Statement nodes of the abstract syntax tree.

use super::expression::{error_free, ExprView, SyntaxTreeExpression};
use super::lexer::{Token, TokenView};
use super::types::_let::LetStatement;
use vstd::prelude::*;

verus! {

/// The closed set of statement kinds: a bare expression, or a `let` binding.
pub enum SyntaxTreeStatementKind {
    Expression(SyntaxTreeExpression),
    Let(LetStatement),
}

/// One top-level statement.
pub struct SyntaxTreeStatement {
    pub kind: SyntaxTreeStatementKind,
}

/// The mathematical model of a statement.
pub ghost enum StmtView {
    Expression(ExprView),
    Let(TokenView, ExprView),
}

impl View for SyntaxTreeStatement {
    type V = StmtView;

    open spec fn view(&self) -> StmtView {
        match self.kind {
            SyntaxTreeStatementKind::Expression(e) => StmtView::Expression(e@),
            SyntaxTreeStatementKind::Let(l) => StmtView::Let(l.identifier@, l.initialiser@),
        }
    }
}

/// A statement is free of error nodes when its expression part is.
pub open spec fn stmt_error_free(s: StmtView) -> bool {
    match s {
        StmtView::Expression(e) => error_free(e),
        StmtView::Let(_, init) => error_free(init),
    }
}

/// Every statement of the sequence is free of error nodes.
pub open spec fn stmts_error_free(stmts: Seq<StmtView>) -> bool {
    forall|i: int| 0 <= i < stmts.len() ==> stmt_error_free(#[trigger] stmts[i])
}

impl SyntaxTreeStatement {
    pub fn new(kind: SyntaxTreeStatementKind) -> (r: Self)
        ensures
            r == (SyntaxTreeStatement { kind }),
    {
        SyntaxTreeStatement { kind }
    }

    pub fn expression(expr: SyntaxTreeExpression) -> (r: Self)
        ensures
            r@ == StmtView::Expression(expr@),
    {
        SyntaxTreeStatement::new(SyntaxTreeStatementKind::Expression(expr))
    }

    pub fn let_statement(identifier: Token, initialiser: SyntaxTreeExpression) -> (r: Self)
        ensures
            r@ == StmtView::Let(identifier@, initialiser@),
    {
        SyntaxTreeStatement::new(
            SyntaxTreeStatementKind::Let(LetStatement { identifier, initialiser }),
        )
    }
}

} // verus!
