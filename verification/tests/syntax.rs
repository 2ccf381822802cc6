//! Parse-shape tests: each input must compile without diagnostics and yield
//! a tree whose pre-order node sequence matches the expectation.

use unilang::diagnostics::{Diagnostic, DiagnosticGlossary};
use unilang::syntax::expression::{SyntaxTreeExpression, SyntaxTreeExpressionKind};
use unilang::syntax::lexer::Lexer;
use unilang::syntax::parser::Parser;
use unilang::syntax::statement::SyntaxTreeStatementKind;
use unilang::syntax::SyntaxTree;

fn parse_source(input: &str) -> (SyntaxTree, Vec<Diagnostic>) {
    let mut lexer = Lexer::new(input);
    let mut tokens = Vec::new();
    while let Some(token) = lexer.next_token() {
        tokens.push(token);
    }
    let mut parser = Parser::new(tokens, DiagnosticGlossary::new());
    let mut tree = SyntaxTree::new();
    while let Some(statement) = parser.next_statement() {
        tree.add_statement(statement);
    }
    (tree, parser.into_diagnostics().diagnostics)
}

#[derive(Debug, PartialEq, Eq)]
enum SyntaxTreeTestNode {
    Number(i64),
    Binary,
    Unary,
    Parenthesised,
    LetStatement,
    Variable(String),
}

fn flatten_expression(expr: &SyntaxTreeExpression, out: &mut Vec<SyntaxTreeTestNode>) {
    match &expr.kind {
        SyntaxTreeExpressionKind::Number(n) => out.push(SyntaxTreeTestNode::Number(n.number)),
        SyntaxTreeExpressionKind::Binary(b) => {
            out.push(SyntaxTreeTestNode::Binary);
            flatten_expression(&b.left, out);
            flatten_expression(&b.right, out);
        }
        SyntaxTreeExpressionKind::Unary(u) => {
            out.push(SyntaxTreeTestNode::Unary);
            flatten_expression(&u.operand, out);
        }
        SyntaxTreeExpressionKind::Parenthesised(p) => {
            out.push(SyntaxTreeTestNode::Parenthesised);
            flatten_expression(&p.expression, out);
        }
        SyntaxTreeExpressionKind::Variable(v) => {
            out.push(SyntaxTreeTestNode::Variable(v.identifier().to_string()));
        }
        SyntaxTreeExpressionKind::Error(_) => {}
    }
}

fn flatten_syntax_tree(tree: &SyntaxTree) -> Vec<SyntaxTreeTestNode> {
    let mut out = Vec::new();
    for statement in &tree.statements {
        match &statement.kind {
            SyntaxTreeStatementKind::Expression(e) => flatten_expression(e, &mut out),
            SyntaxTreeStatementKind::Let(l) => {
                out.push(SyntaxTreeTestNode::LetStatement);
                flatten_expression(&l.initialiser, &mut out);
            }
        }
    }
    out
}

fn assert_tree(input: &str, expected: Vec<SyntaxTreeTestNode>) {
    let (tree, diagnostics) = parse_source(input);
    assert_eq!(
        diagnostics.len(),
        0,
        "Expected no diagnostics, got {:?} instead",
        diagnostics
    );
    let actual = flatten_syntax_tree(&tree);
    assert_eq!(
        expected.len(),
        actual.len(),
        "Expected {} nodes, but got {}. Actual nodes: {:?}",
        expected.len(),
        actual.len(),
        actual
    );
    for (index, (expected, actual)) in expected.iter().zip(actual.iter()).enumerate() {
        assert_eq!(
            expected, actual,
            "Expected {:?} at index {}, but got {:?} instead.",
            expected, index, actual
        );
    }
}

#[test]
pub fn should_parse_basic_binary_expression() {
    let input = "let a = 1 + 2";
    let expected = vec![
        SyntaxTreeTestNode::LetStatement,
        SyntaxTreeTestNode::Binary,
        SyntaxTreeTestNode::Number(1),
        SyntaxTreeTestNode::Number(2),
    ];
    assert_tree(input, expected);
}

#[test]
pub fn should_parse_basic_parenthesised_expression() {
    let input = "let a = (1 + 2) * 3";
    let expected = vec![
        SyntaxTreeTestNode::LetStatement,
        SyntaxTreeTestNode::Binary,
        SyntaxTreeTestNode::Parenthesised,
        SyntaxTreeTestNode::Binary,
        SyntaxTreeTestNode::Number(1),
        SyntaxTreeTestNode::Number(2),
        SyntaxTreeTestNode::Number(3),
    ];
    assert_tree(input, expected);
}

#[test]
pub fn should_parse_basic_binary_expression_with_variable() {
    let input = "let a = (1 + 2) + b";
    let expected = vec![
        SyntaxTreeTestNode::LetStatement,
        SyntaxTreeTestNode::Binary,
        SyntaxTreeTestNode::Parenthesised,
        SyntaxTreeTestNode::Binary,
        SyntaxTreeTestNode::Number(1),
        SyntaxTreeTestNode::Number(2),
        SyntaxTreeTestNode::Variable("b".to_string()),
    ];
    assert_tree(input, expected);
}

#[test]
pub fn should_parse_binary_exprssion_with_variable_and_number() {
    let input = "let a = (1 + 2) * b + 3";
    let expected = vec![
        SyntaxTreeTestNode::LetStatement,
        SyntaxTreeTestNode::Binary,
        SyntaxTreeTestNode::Binary,
        SyntaxTreeTestNode::Parenthesised,
        SyntaxTreeTestNode::Binary,
        SyntaxTreeTestNode::Number(1),
        SyntaxTreeTestNode::Number(2),
        SyntaxTreeTestNode::Variable("b".to_string()),
        SyntaxTreeTestNode::Number(3),
    ];
    assert_tree(input, expected);
}

#[test]
pub fn should_parse_bitwise_and() {
    let input = "let a = 1 & 2";
    let expected = vec![
        SyntaxTreeTestNode::LetStatement,
        SyntaxTreeTestNode::Binary,
        SyntaxTreeTestNode::Number(1),
        SyntaxTreeTestNode::Number(2),
    ];
    assert_tree(input, expected);
}

#[test]
pub fn should_parse_bitwise_or() {
    let input = "let a = 1 | 2";
    let expected = vec![
        SyntaxTreeTestNode::LetStatement,
        SyntaxTreeTestNode::Binary,
        SyntaxTreeTestNode::Number(1),
        SyntaxTreeTestNode::Number(2),
    ];
    assert_tree(input, expected);
}

#[test]
pub fn should_parse_bitwise_xor() {
    let input = "let a = 1 ^ 2";
    let expected = vec![
        SyntaxTreeTestNode::LetStatement,
        SyntaxTreeTestNode::Binary,
        SyntaxTreeTestNode::Number(1),
        SyntaxTreeTestNode::Number(2),
    ];
    assert_tree(input, expected);
}

#[test]
pub fn should_parse_negation() {
    let input = "let a = -1";
    let expected = vec![
        SyntaxTreeTestNode::LetStatement,
        SyntaxTreeTestNode::Unary,
        SyntaxTreeTestNode::Number(1),
    ];
    assert_tree(input, expected);
}

#[test]
pub fn should_parse_power() {
    let input = "let a = 1 ** 2";
    let expected = vec![
        SyntaxTreeTestNode::LetStatement,
        SyntaxTreeTestNode::Binary,
        SyntaxTreeTestNode::Number(1),
        SyntaxTreeTestNode::Number(2),
    ];
    assert_tree(input, expected);
}
