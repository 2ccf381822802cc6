//! Whole-pipeline scenarios: compile a source string, inspect the collected
//! diagnostics, and evaluate when the glossary stayed clean.

use unilang::compilation_unit::CompilationUnit;
use unilang::syntax::evaluator::EvalError;

fn evaluate_clean(input: &str) -> Option<i64> {
    let unit = CompilationUnit::compile(input);
    assert_eq!(
        unit.diagnostic_glossary.diagnostics.len(),
        0,
        "expected no diagnostics for {:?}, got {:?}",
        input,
        unit.diagnostic_glossary.diagnostics
    );
    match unit.prerun() {
        Some(Ok(value)) => value,
        other => panic!("expected successful evaluation for {:?}, got {:?}", input, other),
    }
}

#[test]
fn arithmetic_with_parentheses_evaluates_exactly() {
    assert_eq!(evaluate_clean("7 + (1 * 6) + 10"), Some(23));
}

#[test]
fn parenthesised_product_evaluates_exactly() {
    assert_eq!(evaluate_clean("(7 + 8) * 9"), Some(135));
}

#[test]
fn undeclared_variable_skips_evaluation() {
    let input = "let a = 10+30\nlet b = 20\nlet d = 10 + e\nlet c = (a + b) * d";
    let unit = CompilationUnit::compile(input);
    assert_eq!(unit.diagnostic_glossary.diagnostics.len(), 1);
    let diagnostic = &unit.diagnostic_glossary.diagnostics[0];
    assert_eq!(diagnostic.message, "Undeclared variable 'e'");
    assert_eq!(diagnostic.span.start, 38);
    assert_eq!(diagnostic.span.end, 39);
    assert_eq!(diagnostic.span.literal, "e");
    assert!(unit.prerun().is_none());
}

#[test]
fn bare_operator_initialiser_is_reported() {
    let unit = CompilationUnit::compile("let a = +");
    assert_eq!(unit.diagnostic_glossary.diagnostics.len(), 1);
    assert_eq!(
        unit.diagnostic_glossary.diagnostics[0].message,
        "Expected expression, found <+>"
    );
    assert!(unit.prerun().is_none());
}

#[test]
fn bad_character_is_reported() {
    let unit = CompilationUnit::compile("let a = 8 @ 2");
    assert_eq!(unit.diagnostic_glossary.diagnostics.len(), 1);
    let diagnostic = &unit.diagnostic_glossary.diagnostics[0];
    assert_eq!(diagnostic.message, "Expected expression, found <Bad>");
    assert_eq!(diagnostic.span.literal, "@");
    assert!(unit.prerun().is_none());
}

#[test]
fn bindings_thread_through_statements() {
    assert_eq!(evaluate_clean("let a = 10+30\nlet b = 20\nlet c = (a + b) * 2"), Some(120));
}

#[test]
fn redeclaration_overwrites_silently() {
    assert_eq!(evaluate_clean("let a = 1\nlet a = a + 1\na"), Some(2));
}

#[test]
fn last_statement_wins() {
    assert_eq!(evaluate_clean("1 + 1\n2 + 2\n3 + 3"), Some(6));
}

#[test]
fn empty_program_has_no_value() {
    assert_eq!(evaluate_clean(""), None);
}

#[test]
fn equal_precedence_associates_left() {
    assert_eq!(evaluate_clean("1 - 2 - 3"), Some(-4));
    assert_eq!(evaluate_clean("8 / 4 / 2"), Some(1));
}

#[test]
fn multiplication_binds_tighter_than_addition() {
    assert_eq!(evaluate_clean("2 + 3 * 4"), Some(14));
}

#[test]
fn division_truncates_toward_zero() {
    assert_eq!(evaluate_clean("7 / 2"), Some(3));
    assert_eq!(evaluate_clean("0 - 7 / 2"), Some(-3));
}

#[test]
fn bitwise_and_power_operators_evaluate() {
    assert_eq!(evaluate_clean("6 & 3"), Some(2));
    assert_eq!(evaluate_clean("4 | 3"), Some(7));
    assert_eq!(evaluate_clean("6 ^ 3"), Some(5));
    assert_eq!(evaluate_clean("2 ** 5"), Some(32));
}

#[test]
fn unary_minus_evaluates() {
    assert_eq!(evaluate_clean("-5 + 2"), Some(-3));
}

#[test]
fn division_by_zero_is_fatal() {
    let unit = CompilationUnit::compile("1 / 0");
    assert_eq!(unit.diagnostic_glossary.diagnostics.len(), 0);
    assert_eq!(unit.prerun(), Some(Err(EvalError::DivideByZero)));
}

#[test]
fn unbound_variable_is_fatal_when_checking_is_bypassed() {
    // `run` evaluates without the symbol-check gate, as the original could.
    let unit = CompilationUnit::compile("x + 1");
    assert_eq!(unit.diagnostic_glossary.diagnostics.len(), 1);
    assert_eq!(unit.run(), Err(EvalError::UndeclaredVariable));
}

#[test]
fn huge_literal_wraps_silently() {
    // Digit accumulation wraps on overflow: 2^63 wraps to the minimum value.
    assert_eq!(evaluate_clean("9223372036854775808"), Some(i64::MIN));
}

#[test]
fn missing_closing_parenthesis_is_reported_but_parsed() {
    let unit = CompilationUnit::compile("(1 + 2");
    assert_eq!(unit.diagnostic_glossary.diagnostics.len(), 1);
    assert_eq!(
        unit.diagnostic_glossary.diagnostics[0].message,
        "Expected <)>, found <EOF>"
    );
    assert!(unit.prerun().is_none());
}

#[test]
fn malformed_let_reports_every_problem() {
    let unit = CompilationUnit::compile("let = 5");
    let messages: Vec<&str> = unit
        .diagnostic_glossary
        .diagnostics
        .iter()
        .map(|d| d.message.as_str())
        .collect();
    assert_eq!(
        messages,
        vec!["Expected <Identifier>, found <=>", "Expected <=>, found <Number>",
            "Expected expression, found <EOF>"]
    );
}

#[test]
fn one_diagnostic_per_undeclared_reference() {
    let unit = CompilationUnit::compile("a + b\nc");
    let messages: Vec<&str> = unit
        .diagnostic_glossary
        .diagnostics
        .iter()
        .map(|d| d.message.as_str())
        .collect();
    assert_eq!(
        messages,
        vec!["Undeclared variable 'a'", "Undeclared variable 'b'", "Undeclared variable 'c'"]
    );
}

#[test]
fn let_does_not_see_its_own_name() {
    let unit = CompilationUnit::compile("let a = a");
    assert_eq!(unit.diagnostic_glossary.diagnostics.len(), 1);
    let diagnostic = &unit.diagnostic_glossary.diagnostics[0];
    assert_eq!(diagnostic.message, "Undeclared variable 'a'");
    assert_eq!(diagnostic.span.start, 8);
    assert_eq!(diagnostic.span.end, 9);
    assert!(unit.prerun().is_none());
}

#[test]
fn let_only_program_keeps_last_initialiser_value() {
    assert_eq!(evaluate_clean("let a = 5"), Some(5));
    assert_eq!(evaluate_clean("let a = 5\nlet b = 7"), Some(7));
}
