//! Tree printing and diagnostic rendering: re-parsing the printed form of a
//! clean tree reproduces its shape, and diagnostics come out with caret
//! underlines against the right line.

use unilang::compilation_unit::CompilationUnit;
use unilang::diagnostics::printer::DiagnosticPrinter;
use unilang::diagnostics::{Diagnostic, DiagnosticGlossary};
use unilang::syntax::lexer::Lexer;
use unilang::syntax::parser::Parser;
use unilang::syntax::expression::{SyntaxTreeExpression, SyntaxTreeExpressionKind};
use unilang::syntax::printer::SyntaxTreePrinter;
use unilang::syntax::statement::SyntaxTreeStatementKind;
use unilang::syntax::SyntaxTree;
use unilang::text::SourceText;

fn shape_of_expression(expr: &SyntaxTreeExpression, out: &mut Vec<String>) {
    match &expr.kind {
        SyntaxTreeExpressionKind::Number(n) => out.push(format!("number {}", n.number)),
        SyntaxTreeExpressionKind::Binary(b) => {
            out.push(format!("binary {}", b.operator.token.span.literal));
            shape_of_expression(&b.left, out);
            shape_of_expression(&b.right, out);
        }
        SyntaxTreeExpressionKind::Unary(u) => {
            out.push(format!("unary {}", u.operator.token.span.literal));
            shape_of_expression(&u.operand, out);
        }
        SyntaxTreeExpressionKind::Parenthesised(p) => {
            out.push("parenthesised".to_string());
            shape_of_expression(&p.expression, out);
        }
        SyntaxTreeExpressionKind::Variable(v) => {
            out.push(format!("variable {}", v.identifier()));
        }
        SyntaxTreeExpressionKind::Error(_) => out.push("error".to_string()),
    }
}

fn shape_of(tree: &SyntaxTree) -> Vec<String> {
    let mut out = Vec::new();
    for statement in &tree.statements {
        match &statement.kind {
            SyntaxTreeStatementKind::Expression(e) => {
                out.push("expression".to_string());
                shape_of_expression(e, &mut out);
            }
            SyntaxTreeStatementKind::Let(l) => {
                out.push(format!("let {}", l.identifier.span.literal));
                shape_of_expression(&l.initialiser, &mut out);
            }
        }
    }
    out
}

fn parse_program(input: &str) -> (SyntaxTree, Vec<Diagnostic>) {
    let mut lexer = Lexer::new(input);
    let mut tokens = Vec::new();
    while let Some(token) = lexer.next_token() {
        tokens.push(token);
    }
    let mut parser = Parser::new(tokens, DiagnosticGlossary::new());
    let mut tree = SyntaxTree::new();
    while let Some(statement) = parser.next_statement() {
        tree.add_statement(statement);
    }
    (tree, parser.into_diagnostics().diagnostics)
}

fn assert_reparse_keeps_shape(input: &str) {
    let (first, diagnostics) = parse_program(input);
    assert_eq!(diagnostics.len(), 0, "input {:?} must parse cleanly", input);
    let mut printer = SyntaxTreePrinter::new();
    printer.print_tree(&first);
    let rendered = printer.result.clone();
    let (second, second_diagnostics) = parse_program(&rendered);
    assert_eq!(second_diagnostics.len(), 0, "re-parse of {:?} must be clean", rendered);
    assert_eq!(
        shape_of(&first),
        shape_of(&second),
        "re-parsing {:?} (printed from {:?}) changed the tree shape",
        rendered,
        input
    );
}

#[test]
fn reparsing_the_printed_tree_keeps_its_shape() {
    assert_reparse_keeps_shape("let a = 1 + 2");
    assert_reparse_keeps_shape("let a = (1 + 2) * b + 3");
    assert_reparse_keeps_shape("(7 + 8) * 9");
    assert_reparse_keeps_shape("let a = -1\nlet b = a ** 2\na | b & 3");
    assert_reparse_keeps_shape("1 - 2 - 3");
    assert_reparse_keeps_shape("let x = 0 - 9223372036854775807");
}

#[test]
fn printing_uses_exact_literals() {
    let unit = CompilationUnit::compile("let a=(1+ 2)");
    assert_eq!(unit.diagnostic_glossary.diagnostics.len(), 0);
    let mut printer = SyntaxTreePrinter::new();
    printer.print_tree(&unit.st);
    assert_eq!(printer.result, "let a = (1 + 2)\n");
}

#[test]
fn diagnostic_rendering_underlines_the_span() {
    let unit = CompilationUnit::compile("let a = +");
    assert_eq!(unit.diagnostic_glossary.diagnostics.len(), 1);
    let source = SourceText::new("let a = +".to_string());
    let printer = DiagnosticPrinter::new(&source, &unit.diagnostic_glossary.diagnostics);
    let rendered = printer
        .stringify_diagnostics(&unit.diagnostic_glossary.diagnostics[0])
        .expect("diagnostic must be renderable");
    assert_eq!(
        rendered,
        "let a = +\n        ^\n        |\n        +-- Expected expression, found <+>"
    );
}

#[test]
fn diagnostic_rendering_finds_the_right_line() {
    let input = "let a = 1\nlet b = a + c\nlet d = 2";
    let unit = CompilationUnit::compile(input);
    assert_eq!(unit.diagnostic_glossary.diagnostics.len(), 1);
    let source = SourceText::new(input.to_string());
    let printer = DiagnosticPrinter::new(&source, &unit.diagnostic_glossary.diagnostics);
    let rendered = printer
        .stringify_diagnostics(&unit.diagnostic_glossary.diagnostics[0])
        .expect("diagnostic must be renderable");
    // Column 12 keeps eight columns of left context, so the quoted slice
    // starts inside the line.
    assert_eq!(rendered, "b = a + c\n        ^\n        |\n        +-- Undeclared variable 'c'");
}

#[test]
fn source_text_line_lookups() {
    let source = SourceText::new("ab\ncd\n\nef".to_string());
    assert_eq!(source.line_index(0), 0);
    assert_eq!(source.line_index(2), 0);
    assert_eq!(source.line_index(3), 1);
    assert_eq!(source.line_index(6), 2);
    assert_eq!(source.line_index(7), 3);
    assert_eq!(source.get_line(0), "ab");
    assert_eq!(source.get_line(1), "cd");
    assert_eq!(source.get_line(2), "");
    assert_eq!(source.get_line(3), "ef");
    assert_eq!(source.line_start(0), 0);
    assert_eq!(source.line_start(1), 3);
    assert_eq!(source.line_start(2), 6);
    assert_eq!(source.line_start(3), 7);
}
