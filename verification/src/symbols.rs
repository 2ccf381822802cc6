//! The symbol-checking pass: every variable reference must be preceded by a
//! `let` binding of that name.  A `let` binds only after its initialiser has
//! been checked, so a declaration is not visible inside its own initialiser.
//! Checking never halts: every undeclared use in a program is reported.

use crate::diagnostics::{
    DiagnosticKind,
    error_diagnostic, undeclared_variable_message, DiagnosticGlossary, DiagnosticView,
};
use crate::syntax::expression::{ExprView, SyntaxTreeExpression, SyntaxTreeExpressionKind};
use crate::syntax::lexer::TokenView;
use crate::syntax::statement::{StmtView, SyntaxTreeStatement, SyntaxTreeStatementKind};
use crate::syntax::types::_binary::BinaryExpression;
use crate::syntax::types::_let::LetStatement;
use crate::syntax::types::_number::NumberExpression;
use crate::syntax::types::_parenthesis::ParenthesisExpression;
use crate::syntax::types::_unary::UnaryExpression;
use crate::syntax::types::_variable::VariableExpression;
use crate::syntax::lexer::TextSpan;
use crate::syntax::visitor::SyntaxTreeVisitor;
use crate::syntax::SyntaxTree;
use vstd::prelude::*;

verus! {

// ---------------------------------------------------------------------------
// Which references are undeclared.  The traversal is pre-order, left to
// right, and expressions never bind, so one name set suffices per statement.
// ---------------------------------------------------------------------------

/// The identifier tokens inside `e` that reference a name not in `declared`,
/// in traversal order.
pub open spec fn undeclared_in_expr(declared: Set<Seq<char>>, e: ExprView) -> Seq<TokenView>
    decreases e,
{
    match e {
        ExprView::Number(_) => Seq::empty(),
        ExprView::Binary(_, l, r) => undeclared_in_expr(declared, *l) + undeclared_in_expr(
            declared,
            *r,
        ),
        ExprView::Unary(_, operand) => undeclared_in_expr(declared, *operand),
        ExprView::Parenthesised(inner) => undeclared_in_expr(declared, *inner),
        ExprView::Variable(t) => if declared.contains(t.span.literal) {
            Seq::empty()
        } else {
            seq![t]
        },
        ExprView::Error(_) => Seq::empty(),
    }
}

/// The undeclared references of one statement; a `let` statement checks its
/// initialiser before the new name exists.
pub open spec fn undeclared_in_stmt(declared: Set<Seq<char>>, s: StmtView) -> Seq<TokenView> {
    match s {
        StmtView::Expression(e) => undeclared_in_expr(declared, e),
        StmtView::Let(_, init) => undeclared_in_expr(declared, init),
    }
}

/// The names bound after one statement: a `let` adds its identifier's text,
/// silently overwriting any earlier binding.
pub open spec fn declared_after(declared: Set<Seq<char>>, s: StmtView) -> Set<Seq<char>> {
    match s {
        StmtView::Expression(_) => declared,
        StmtView::Let(id, _) => declared.insert(id.span.literal),
    }
}

/// All undeclared references of a statement sequence, in source order.
pub open spec fn undeclared_in_stmts(declared: Set<Seq<char>>, stmts: Seq<StmtView>) -> Seq<
    TokenView,
>
    decreases stmts.len(),
{
    if stmts.len() == 0 {
        Seq::empty()
    } else {
        undeclared_in_stmt(declared, stmts[0]) + undeclared_in_stmts(
            declared_after(declared, stmts[0]),
            stmts.drop_first(),
        )
    }
}

/// The diagnostic reported for one undeclared reference.
pub open spec fn undeclared_diagnostic(t: TokenView) -> DiagnosticView {
    error_diagnostic(undeclared_variable_message(t.span.literal), t.span)
}

/// The diagnostics for a sequence of undeclared references, in order.
pub open spec fn undeclared_diagnostics(refs: Seq<TokenView>) -> Seq<DiagnosticView> {
    refs.map_values(|t: TokenView| undeclared_diagnostic(t))
}

/// For every program, exactly one undeclared-variable diagnostic is produced
/// per offending reference — no more, no fewer — each carrying the message
/// naming that reference and the span of the reference itself.
pub proof fn lemma_one_diagnostic_per_reference(declared: Set<Seq<char>>, stmts: Seq<StmtView>)
    ensures
        ({
            let refs = undeclared_in_stmts(declared, stmts);
            let diags = undeclared_diagnostics(refs);
            &&& diags.len() == refs.len()
            &&& forall|i: int|
                0 <= i < refs.len() ==> (#[trigger] diags[i]).span == refs[i].span
                    && diags[i].message == undeclared_variable_message(refs[i].span.literal)
                    && diags[i].kind == DiagnosticKind::Error
        }),
{
}

/// A `let` must not see its own name: `let a = a` checks the initialiser
/// before binding, so the reference to `a` is reported as undeclared, and
/// only afterwards does `a` become declared.
pub proof fn lemma_let_self_reference(
    declared: Set<Seq<char>>,
    id: TokenView,
    reference: TokenView,
)
    requires
        reference.span.literal == id.span.literal,
        !declared.contains(id.span.literal),
    ensures
        undeclared_in_stmt(declared, StmtView::Let(id, ExprView::Variable(reference))) == seq![
            reference,
        ],
        declared_after(declared, StmtView::Let(id, ExprView::Variable(reference)))
            == declared.insert(id.span.literal),
{
}

/// Verifies that every variable reference has a preceding binding, reporting
/// one diagnostic per offending reference into the shared glossary.
pub struct SymbolChecker {
    symbols: Vec<String>,
    pub diagnostics: DiagnosticGlossary,
}

impl SymbolChecker {
    /// The names bound so far (one flat global namespace).
    pub closed spec fn declared(self) -> Set<Seq<char>> {
        Set::new(
            |name: Seq<char>|
                exists|i: int| 0 <= i < self.symbols@.len() && self.symbols@[i]@ == name,
        )
    }

    /// Diagnostics reported so far.
    pub closed spec fn diags(self) -> Seq<DiagnosticView> {
        self.diagnostics@
    }

    pub fn new(diagnostics: DiagnosticGlossary) -> (r: SymbolChecker)
        ensures
            r.declared() == Set::<Seq<char>>::empty(),
            r.diags() == diagnostics@,
    {
        let r = SymbolChecker { symbols: Vec::new(), diagnostics };
        proof {
            assert(r.declared() =~= Set::<Seq<char>>::empty());
        }
        r
    }

    /// Hands the shared glossary back once checking is over.
    pub fn into_diagnostics(self) -> (r: DiagnosticGlossary)
        ensures
            r@ == self.diags(),
    {
        self.diagnostics
    }

    /// Whether `name` is bound.
    fn is_declared(&self, name: &String) -> (r: bool)
        ensures
            r == self.declared().contains(name@),
    {
        let n = self.symbols.len();
        let mut i: usize = 0;
        while i < n
            invariant
                n == self.symbols@.len(),
                i <= n,
                forall|j: int| 0 <= j < i ==> (#[trigger] self.symbols@[j])@ != name@,
            decreases n - i,
        {
            if self.symbols[i] == *name {
                return true;
            }
            i = i + 1;
        }
        false
    }

    /// Binds `name` (redeclaration silently overwrites).
    fn declare(&mut self, name: String)
        ensures
            final(self).declared() == old(self).declared().insert(name@),
            final(self).diags() == old(self).diags(),
    {
        let ghost n = name@;
        self.symbols.push(name);
        proof {
            assert(self.declared() =~= old(self).declared().insert(n)) by {
                assert(forall|name2: Seq<char>|
                    old(self).declared().insert(n).contains(name2)
                        ==> self.declared().contains(name2)) by {
                    assert(forall|j: int|
                        0 <= j < old(self).symbols@.len() ==> self.symbols@[j]
                            == #[trigger] old(self).symbols@[j]);
                    assert(self.symbols@[old(self).symbols@.len() as int]@ == n);
                };
            };
        }
    }

    /// Checks one expression, reporting each reference to an unbound name.
    pub fn check_expression(&mut self, expression: &SyntaxTreeExpression)
        ensures
            final(self).declared() == old(self).declared(),
            final(self).diags() == old(self).diags() + undeclared_diagnostics(
                undeclared_in_expr(old(self).declared(), expression@),
            ),
        decreases *expression,
    {
        match &expression.kind {
            SyntaxTreeExpressionKind::Number(_) => {
                proof {
                    empty_diags_noop(self.diags());
                }
            },
            SyntaxTreeExpressionKind::Binary(b) => {
                let ghost d0 = self.diags();
                self.check_expression(&b.left);
                self.check_expression(&b.right);
                proof {
                    let dl = undeclared_diagnostics(
                        undeclared_in_expr(self.declared(), b.left@),
                    );
                    let dr = undeclared_diagnostics(
                        undeclared_in_expr(self.declared(), b.right@),
                    );
                    assert(d0 + dl + dr =~= d0 + (dl + dr));
                    assert(undeclared_diagnostics(
                        undeclared_in_expr(self.declared(), b.left@) + undeclared_in_expr(
                            self.declared(),
                            b.right@,
                        ),
                    ) =~= dl + dr);
                }
            },
            SyntaxTreeExpressionKind::Unary(u) => {
                self.check_expression(&u.operand);
            },
            SyntaxTreeExpressionKind::Parenthesised(p) => {
                self.check_expression(&p.expression);
            },
            SyntaxTreeExpressionKind::Variable(v) => {
                if !self.is_declared(&v.identifier.span.literal) {
                    self.diagnostics.report_undeclared_variable(&v.identifier);
                    proof {
                        assert(old(self).diags().push(
                            undeclared_diagnostic(v.identifier@),
                        ) =~= old(self).diags() + undeclared_diagnostics(
                            seq![v.identifier@],
                        ));
                    }
                } else {
                    proof {
                        empty_diags_noop(self.diags());
                    }
                }
            },
            SyntaxTreeExpressionKind::Error(_) => {
                proof {
                    empty_diags_noop(self.diags());
                }
            },
        }
    }

    /// Checks one statement; a `let` checks its initialiser first and binds
    /// its identifier afterwards, so `let a = a` reports `a` as undeclared.
    pub fn check_statement(&mut self, statement: &SyntaxTreeStatement)
        ensures
            final(self).declared() == declared_after(old(self).declared(), statement@),
            final(self).diags() == old(self).diags() + undeclared_diagnostics(
                undeclared_in_stmt(old(self).declared(), statement@),
            ),
    {
        match &statement.kind {
            SyntaxTreeStatementKind::Expression(e) => {
                self.check_expression(e);
            },
            SyntaxTreeStatementKind::Let(l) => {
                self.check_expression(&l.initialiser);
                let name = l.identifier.span.literal.clone();
                self.declare(name);
            },
        }
    }

    /// Checks a whole tree in statement order.
    pub fn check_tree(&mut self, tree: &SyntaxTree)
        ensures
            final(self).diags() == old(self).diags() + undeclared_diagnostics(
                undeclared_in_stmts(old(self).declared(), tree@),
            ),
    {
        let ghost views = tree@;
        proof {
            assert(views.skip(0) =~= views);
        }
        let n = tree.statements.len();
        let mut i: usize = 0;
        while i < n
            invariant
                n == tree.statements@.len(),
                i <= n,
                views == tree@,
                self.diags() + undeclared_diagnostics(
                    undeclared_in_stmts(self.declared(), views.skip(i as int)),
                ) == old(self).diags() + undeclared_diagnostics(
                    undeclared_in_stmts(old(self).declared(), views),
                ),
            decreases n - i,
        {
            let ghost declared_before = self.declared();
            let ghost d_before = self.diags();
            proof {
                assert(views.skip(i as int)[0] == views[i as int]);
                assert(views.skip(i as int).drop_first() =~= views.skip(i + 1));
                assert(views[i as int] == tree.statements@[i as int]@);
            }
            self.check_statement(&tree.statements[i]);
            proof {
                let head = undeclared_in_stmt(declared_before, views[i as int]);
                let tail = undeclared_in_stmts(self.declared(), views.skip(i + 1));
                assert(undeclared_diagnostics(head + tail) =~= undeclared_diagnostics(head)
                    + undeclared_diagnostics(tail));
                assert(d_before + undeclared_diagnostics(head) + undeclared_diagnostics(tail)
                    =~= d_before + (undeclared_diagnostics(head) + undeclared_diagnostics(tail)));
            }
            i = i + 1;
        }
        proof {
            assert(views.skip(n as int) =~= Seq::<StmtView>::empty());
            assert(self.diags() + undeclared_diagnostics(Seq::<TokenView>::empty())
                =~= self.diags());
        }
    }
}

impl SyntaxTreeVisitor for SymbolChecker {
    fn visit_statement(&mut self, statement: &SyntaxTreeStatement) {
        self.check_statement(statement);
    }

    fn visit_let_statement(&mut self, let_statement: &LetStatement) {
        self.check_expression(&let_statement.initialiser);
        let name = let_statement.identifier.span.literal.clone();
        self.declare(name);
    }

    fn visit_expression(&mut self, expression: &SyntaxTreeExpression) {
        self.check_expression(expression);
    }

    fn visit_number(&mut self, number: &NumberExpression) {
        let _ = number;
    }

    fn visit_variable_expression(&mut self, variable_expression: &VariableExpression) {
        if !self.is_declared(&variable_expression.identifier.span.literal) {
            self.diagnostics.report_undeclared_variable(&variable_expression.identifier);
        }
    }

    fn visit_error(&mut self, span: &TextSpan) {
        let _ = span;
    }

    fn visit_binary_expression(&mut self, binary_expression: &BinaryExpression) {
        self.check_expression(&binary_expression.left);
        self.check_expression(&binary_expression.right);
    }

    fn visit_parenthesised_expression(
        &mut self,
        parenthesised_expression: &ParenthesisExpression,
    ) {
        self.check_expression(&parenthesised_expression.expression);
    }

    fn visit_unary_expression(&mut self, unary_expression: &UnaryExpression) {
        self.check_expression(&unary_expression.operand);
    }
}

/// Appending no diagnostics changes nothing.
proof fn empty_diags_noop(d: Seq<DiagnosticView>)
    ensures
        d + undeclared_diagnostics(Seq::<TokenView>::empty()) == d,
{
    assert(d + undeclared_diagnostics(Seq::<TokenView>::empty()) =~= d);
}

} // verus!
