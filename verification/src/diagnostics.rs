//! The diagnostic model: reported errors and warnings, each with a message
//! and a precise source span, accumulated in order and never cleared during a
//! compilation.

pub mod printer;

use crate::syntax::lexer::{token_type_text, SpanView, TextSpan, Token, TokenType};
use vstd::prelude::*;

verus! {

/// Severity of a diagnostic.
#[derive(Clone, Copy, Debug, PartialEq, Eq, Structural)]
pub enum DiagnosticKind {
    Error,
    Warning,
}

/// One reported problem: a human-readable message against a source span.
#[derive(Clone, Debug)]
pub struct Diagnostic {
    pub message: String,
    pub span: TextSpan,
    pub kind: DiagnosticKind,
}

/// The mathematical model of a `Diagnostic`.
pub ghost struct DiagnosticView {
    pub message: Seq<char>,
    pub span: SpanView,
    pub kind: DiagnosticKind,
}

impl View for Diagnostic {
    type V = DiagnosticView;

    open spec fn view(&self) -> DiagnosticView {
        DiagnosticView { message: self.message@, span: self.span@, kind: self.kind }
    }
}

/// An append-only ordered collection of diagnostics, shared by the parser and
/// the symbol checker over one compilation.
pub struct DiagnosticGlossary {
    pub diagnostics: Vec<Diagnostic>,
}

impl View for DiagnosticGlossary {
    type V = Seq<DiagnosticView>;

    open spec fn view(&self) -> Seq<DiagnosticView> {
        self.diagnostics@.map_values(|d: Diagnostic| d@)
    }
}

// ---------------------------------------------------------------------------
// The exact texts of the messages the pipeline can report.
// ---------------------------------------------------------------------------

pub open spec fn unexpected_token_message(expected: TokenType, found: TokenType) -> Seq<char> {
    "Expected <"@ + token_type_text(expected) + ">, found <"@ + token_type_text(found) + ">"@
}

pub open spec fn expected_expression_message(found: TokenType) -> Seq<char> {
    "Expected expression, found <"@ + token_type_text(found) + ">"@
}

pub open spec fn undeclared_variable_message(name: Seq<char>) -> Seq<char> {
    "Undeclared variable '"@ + name + "'"@
}

/// An error diagnostic with the given message and span.
pub open spec fn error_diagnostic(message: Seq<char>, span: SpanView) -> DiagnosticView {
    DiagnosticView { message, span, kind: DiagnosticKind::Error }
}

impl Diagnostic {
    pub fn new(message: String, span: TextSpan, kind: DiagnosticKind) -> (r: Self)
        ensures
            r@ == (DiagnosticView { message: message@, span: span@, kind }),
    {
        Diagnostic { message, span, kind }
    }
}

/// Clones a span field by field (the derived clone carries no specification).
pub(crate) fn clone_span(span: &TextSpan) -> (r: TextSpan)
    ensures
        r == *span,
{
    TextSpan { start: span.start, end: span.end, literal: span.literal.clone() }
}

/// Clones a token field by field.
pub(crate) fn clone_token(token: &Token) -> (r: Token)
    ensures
        r == *token,
{
    Token { kind: token.kind, span: clone_span(&token.span) }
}

impl DiagnosticGlossary {
    pub fn new() -> (r: Self)
        ensures
            r@ == Seq::<DiagnosticView>::empty(),
    {
        DiagnosticGlossary { diagnostics: Vec::new() }
    }

    pub fn report_error(&mut self, message: String, span: TextSpan)
        ensures
            final(self)@ == old(self)@.push(
                error_diagnostic(message@, span@),
            ),
    {
        let ghost m = message@;
        let ghost sp = span@;
        let error = Diagnostic::new(message, span, DiagnosticKind::Error);
        self.diagnostics.push(error);
        proof {
            assert(self@ =~= old(self)@.push(
                DiagnosticView { message: m, span: sp, kind: DiagnosticKind::Error },
            ));
        }
    }

    pub fn report_warning(&mut self, message: String, span: TextSpan)
        ensures
            final(self)@ == old(self)@.push(
                DiagnosticView { message: message@, span: span@, kind: DiagnosticKind::Warning },
            ),
    {
        let ghost m = message@;
        let ghost sp = span@;
        let warning = Diagnostic::new(message, span, DiagnosticKind::Warning);
        self.diagnostics.push(warning);
        proof {
            assert(self@ =~= old(self)@.push(
                DiagnosticView { message: m, span: sp, kind: DiagnosticKind::Warning },
            ));
        }
    }

    /// Records that the parser wanted one token kind and met another.
    pub fn report_unexpected_token(&mut self, expected: &TokenType, token: &Token)
        ensures
            final(self)@ == old(self)@.push(
                error_diagnostic(unexpected_token_message(*expected, token.kind), token.span@),
            ),
    {
        let message = String::from_str("Expected <")
            .concat(expected.text().as_str())
            .concat(">, found <")
            .concat(token.kind.text().as_str())
            .concat(">");
        self.report_error(message, clone_span(&token.span));
    }

    /// Records that no expression could start at the given token.
    pub fn report_expexted_expression(&mut self, token: &Token)
        ensures
            final(self)@ == old(self)@.push(
                error_diagnostic(expected_expression_message(token.kind), token.span@),
            ),
    {
        let message = String::from_str("Expected expression, found <")
            .concat(token.kind.text().as_str())
            .concat(">");
        self.report_error(message, clone_span(&token.span));
    }

    /// Records a reference to a variable with no preceding binding.
    pub fn report_undeclared_variable(&mut self, token: &Token)
        ensures
            final(self)@ == old(self)@.push(
                error_diagnostic(
                    undeclared_variable_message(token.span@.literal),
                    token.span@,
                ),
            ),
    {
        let message = String::from_str("Undeclared variable '")
            .concat(token.span.literal.as_str())
            .concat("'");
        self.report_error(message, clone_span(&token.span));
    }
}

} // verus!
