//! Renders a tree back to source text: `let` bindings, operators with single
//! spaces around them, parentheses kept, every token's exact literal reused.

use super::expression::{ExprView, SyntaxTreeExpression, SyntaxTreeExpressionKind};
use super::statement::{StmtView, SyntaxTreeStatement, SyntaxTreeStatementKind};
use super::visitor::SyntaxTreeVisitor;
use super::lexer::TextSpan;
use super::types::_binary::BinaryExpression;
use super::types::_let::LetStatement;
use super::types::_number::NumberExpression;
use super::types::_parenthesis::ParenthesisExpression;
use super::types::_unary::UnaryExpression;
use super::types::_variable::VariableExpression;
use super::SyntaxTree;
use vstd::prelude::*;

verus! {

// ---------------------------------------------------------------------------
// The exact text a tree prints to.
// ---------------------------------------------------------------------------

/// The decimal digit character for a value below ten.
pub open spec fn decimal_digit_char(d: int) -> char {
    if d == 0 {
        '0'
    } else if d == 1 {
        '1'
    } else if d == 2 {
        '2'
    } else if d == 3 {
        '3'
    } else if d == 4 {
        '4'
    } else if d == 5 {
        '5'
    } else if d == 6 {
        '6'
    } else if d == 7 {
        '7'
    } else if d == 8 {
        '8'
    } else {
        '9'
    }
}

/// The decimal digits of a natural number, most significant first.
pub open spec fn decimal_digits(m: nat) -> Seq<char>
    decreases m,
{
    if m < 10 {
        seq![decimal_digit_char(m as int)]
    } else {
        decimal_digits(m / 10) + seq![decimal_digit_char((m % 10) as int)]
    }
}

/// The decimal rendering of a 64-bit integer, with a leading minus sign for
/// negative values.
pub open spec fn decimal_i64(n: i64) -> Seq<char> {
    if n < 0 {
        seq!['-'] + decimal_digits((-(n as int)) as nat)
    } else {
        decimal_digits(n as nat)
    }
}

/// The text an expression prints to.
pub open spec fn print_expr(e: ExprView) -> Seq<char>
    decreases e,
{
    match e {
        ExprView::Number(n) => decimal_i64(n),
        ExprView::Binary(op, l, r) => print_expr(*l) + " "@ + op.token.span.literal + " "@
            + print_expr(*r),
        ExprView::Unary(op, operand) => op.token.span.literal + print_expr(*operand),
        ExprView::Parenthesised(inner) => "("@ + print_expr(*inner) + ")"@,
        ExprView::Variable(t) => t.span.literal,
        ExprView::Error(span) => span.literal,
    }
}

/// The text one statement prints to (without its trailing newline).
pub open spec fn print_stmt(s: StmtView) -> Seq<char> {
    match s {
        StmtView::Expression(e) => print_expr(e),
        StmtView::Let(id, init) => "let"@ + " "@ + id.span.literal + " "@ + "="@ + " "@
            + print_expr(init),
    }
}

/// The text a whole tree prints to: each statement on a line of its own.
pub open spec fn print_stmts(stmts: Seq<StmtView>) -> Seq<char>
    decreases stmts.len(),
{
    if stmts.len() == 0 {
        Seq::empty()
    } else {
        print_stmt(stmts[0]) + "\n"@ + print_stmts(stmts.drop_first())
    }
}

// ---------------------------------------------------------------------------
// The printed form of a number literal survives the round trip back through
// the lexer: rendering a non-negative value and scanning the rendering gives
// one `Number` token, covering the whole rendering, with the same value.
// ---------------------------------------------------------------------------

/// Replacing characters outside the scanned range changes nothing.
proof fn lemma_number_value_congruence(s: Seq<char>, t: Seq<char>, pos: int, end: int, acc: i64)
    requires
        forall|i: int| pos <= i < end ==> s[i] == t[i],
    ensures
        super::lexer::number_value(s, pos, end, acc) == super::lexer::number_value(
            t,
            pos,
            end,
            acc,
        ),
    decreases end - pos,
{
    if pos < end {
        lemma_number_value_congruence(
            s,
            t,
            pos + 1,
            end,
            vstd::wrapping::i64_specs::wrapping_add(
                vstd::wrapping::i64_specs::wrapping_mul(acc, 10),
                super::lexer::digit_value(s[pos]),
            ),
        );
    }
}

/// Scanning one more digit multiplies the accumulator by ten and adds it.
proof fn lemma_number_value_extend(s: Seq<char>, pos: int, end: int, acc: i64)
    requires
        pos <= end,
    ensures
        super::lexer::number_value(s, pos, end + 1, acc)
            == vstd::wrapping::i64_specs::wrapping_add(
            vstd::wrapping::i64_specs::wrapping_mul(
                super::lexer::number_value(s, pos, end, acc),
                10,
            ),
            super::lexer::digit_value(s[end]),
        ),
    decreases end - pos,
{
    reveal_with_fuel(crate::syntax::lexer::number_value, 3);
    if pos < end {
        lemma_number_value_extend(
            s,
            pos + 1,
            end,
            vstd::wrapping::i64_specs::wrapping_add(
                vstd::wrapping::i64_specs::wrapping_mul(acc, 10),
                super::lexer::digit_value(s[pos]),
            ),
        );
    }
}

/// Every character of a decimal rendering is a decimal digit.
proof fn lemma_decimal_digits_are_digits(m: nat)
    ensures
        decimal_digits(m).len() >= 1,
        forall|i: int|
            0 <= i < decimal_digits(m).len() ==> super::lexer::digit_char(
                #[trigger] decimal_digits(m)[i],
            ),
    decreases m,
{
    assert(super::lexer::digit_char(decimal_digit_char(m as int % 10)));
    if m >= 10 {
        lemma_decimal_digits_are_digits(m / 10);
    }
}

/// Scanning the decimal rendering of an in-range value accumulates exactly
/// that value back.
proof fn lemma_decimal_digits_value(m: nat)
    requires
        m <= i64::MAX,
    ensures
        super::lexer::number_value(
            decimal_digits(m),
            0,
            decimal_digits(m).len() as int,
            0,
        ) == m,
    decreases m,
{
    let ds = decimal_digits(m);
    assert(vstd::wrapping::i64_specs::wrapping_mul(0, 10) == 0) by {
        crate::syntax::evaluator::lemma_signed_crop_in_range(0);
    };
    reveal_with_fuel(crate::syntax::lexer::number_value, 3);
    if m < 10 {
        assert(super::lexer::digit_value(decimal_digit_char(m as int)) == m);
    } else {
        let prefix = decimal_digits(m / 10);
        lemma_decimal_digits_value(m / 10);
        lemma_number_value_congruence(prefix, ds, 0, prefix.len() as int, 0);
        lemma_number_value_extend(ds, 0, prefix.len() as int, 0);
        let acc = super::lexer::number_value(ds, 0, prefix.len() as int, 0);
        assert(acc == m / 10);
        assert((m / 10) * 10 + m % 10 == m);
        assert(0 <= (m / 10) * 10 <= i64::MAX);
        assert(vstd::wrapping::i64_specs::wrapping_mul(acc, 10) == (m / 10) * 10) by {
            crate::syntax::evaluator::lemma_signed_crop_in_range(((m / 10) * 10) as int);
        };
        assert(ds[prefix.len() as int] == decimal_digit_char((m % 10) as int));
        assert(super::lexer::digit_value(ds[prefix.len() as int]) == m % 10);
        assert(ds.len() == prefix.len() + 1);
        assert(super::lexer::number_value(ds, 0, ds.len() as int, 0)
            == vstd::wrapping::i64_specs::wrapping_add(
            vstd::wrapping::i64_specs::wrapping_mul(acc, 10),
            super::lexer::digit_value(ds[prefix.len() as int]),
        ));
    }
}

/// In an all-digit text, the digit run reaches the end.
proof fn lemma_digit_run_covers(text: Seq<char>, pos: int)
    requires
        0 <= pos <= text.len(),
        forall|i: int| 0 <= i < text.len() ==> super::lexer::digit_char(#[trigger] text[i]),
    ensures
        super::lexer::digit_run_len(text, pos) == text.len() - pos,
    decreases text.len() - pos,
{
    if pos < text.len() {
        lemma_digit_run_covers(text, pos + 1);
    }
}

/// One piece of the printing round trip: the decimal rendering of a
/// non-negative value is scanned back as a single `Number` token with the
/// same value, covering the whole rendering.
pub proof fn lemma_printed_number_lexes_back(n: i64)
    requires
        n >= 0,
    ensures
        super::lexer::spec_token_width(decimal_i64(n), 0) == decimal_i64(n).len(),
        super::lexer::spec_token_kind(decimal_i64(n), 0) == super::lexer::TokenType::Number(n),
{
    let text = decimal_i64(n);
    lemma_decimal_digits_are_digits(n as nat);
    lemma_digit_run_covers(text, 1);
    lemma_decimal_digits_value(n as nat);
}

/// Accumulates the rendered text of the trees it visits.
pub struct SyntaxTreePrinter {
    pub indent: usize,
    pub result: String,
}

impl SyntaxTreePrinter {
    pub fn new() -> (r: Self)
        ensures
            r.result@ == Seq::<char>::empty(),
            r.indent == 0,
    {
        Self { indent: 0, result: String::new() }
    }

    /// Appends one space.
    pub fn add_whitespace(&mut self)
        ensures
            final(self).result@ == old(self).result@ + " "@,
            final(self).indent == old(self).indent,
    {
        self.result.append(" ");
    }

    /// Appends a line break.
    pub fn add_new_line(&mut self)
        ensures
            final(self).result@ == old(self).result@ + "\n"@,
            final(self).indent == old(self).indent,
    {
        self.result.append("\n");
    }

    /// Renders one expression onto the accumulated text.
    pub fn print_expression(&mut self, expression: &SyntaxTreeExpression)
        ensures
            final(self).result@ == old(self).result@ + print_expr(expression@),
            final(self).indent == old(self).indent,
        decreases *expression,
    {
        match &expression.kind {
            SyntaxTreeExpressionKind::Number(n) => {
                let text = i64_to_string(n.number);
                self.result.append(text.as_str());
            },
            SyntaxTreeExpressionKind::Binary(b) => {
                let ghost r0 = self.result@;
                self.print_expression(&b.left);
                self.add_whitespace();
                self.result.append(b.operator.token.span.literal.as_str());
                self.add_whitespace();
                self.print_expression(&b.right);
                proof {
                    assert(self.result@ =~= r0 + (print_expr(b.left@) + " "@
                        + b.operator.token.span@.literal + " "@ + print_expr(b.right@)));
                }
            },
            SyntaxTreeExpressionKind::Unary(u) => {
                let ghost r0 = self.result@;
                self.result.append(u.operator.token.span.literal.as_str());
                self.print_expression(&u.operand);
                proof {
                    assert(self.result@ =~= r0 + (u.operator.token.span@.literal + print_expr(
                        u.operand@,
                    )));
                }
            },
            SyntaxTreeExpressionKind::Parenthesised(p) => {
                let ghost r0 = self.result@;
                self.result.append("(");
                self.print_expression(&p.expression);
                self.result.append(")");
                proof {
                    assert(self.result@ =~= r0 + ("("@ + print_expr(p.expression@) + ")"@));
                }
            },
            SyntaxTreeExpressionKind::Variable(v) => {
                self.result.append(v.identifier.span.literal.as_str());
            },
            SyntaxTreeExpressionKind::Error(span) => {
                self.result.append(span.literal.as_str());
            },
        }
    }

    /// Renders one statement (without its line break).
    pub fn print_statement(&mut self, statement: &SyntaxTreeStatement)
        ensures
            final(self).result@ == old(self).result@ + print_stmt(statement@),
            final(self).indent == old(self).indent,
    {
        match &statement.kind {
            SyntaxTreeStatementKind::Expression(e) => {
                self.print_expression(e);
            },
            SyntaxTreeStatementKind::Let(l) => {
                let ghost r0 = self.result@;
                self.result.append("let");
                self.add_whitespace();
                self.result.append(l.identifier.span.literal.as_str());
                self.add_whitespace();
                self.result.append("=");
                self.add_whitespace();
                self.print_expression(&l.initialiser);
                proof {
                    assert(self.result@ =~= r0 + ("let"@ + " "@ + l.identifier.span@.literal
                        + " "@ + "="@ + " "@ + print_expr(l.initialiser@)));
                }
            },
        }
    }

    /// Renders a whole tree, one line per statement.
    pub fn print_tree(&mut self, tree: &SyntaxTree)
        ensures
            final(self).result@ == old(self).result@ + print_stmts(tree@),
            final(self).indent == old(self).indent,
    {
        let ghost views = tree@;
        proof {
            assert(views.skip(0) =~= views);
        }
        let n = tree.statements.len();
        let mut i: usize = 0;
        while i < n
            invariant
                n == tree.statements@.len(),
                i <= n,
                views == tree@,
                self.indent == old(self).indent,
                self.result@ + print_stmts(views.skip(i as int)) == old(self).result@
                    + print_stmts(views),
            decreases n - i,
        {
            let ghost r0 = self.result@;
            proof {
                assert(views.skip(i as int)[0] == views[i as int]);
                assert(views.skip(i as int).drop_first() =~= views.skip(i + 1));
                assert(views[i as int] == tree.statements@[i as int]@);
            }
            self.print_statement(&tree.statements[i]);
            self.add_new_line();
            proof {
                assert(self.result@ + print_stmts(views.skip(i + 1)) =~= r0 + (print_stmt(
                    views[i as int],
                ) + "\n"@ + print_stmts(views.skip(i + 1))));
            }
            i = i + 1;
        }
        proof {
            assert(views.skip(n as int) =~= Seq::<StmtView>::empty());
            assert(self.result@ + print_stmts(Seq::<StmtView>::empty()) =~= self.result@);
        }
    }
}

impl SyntaxTreeVisitor for SyntaxTreePrinter {
    fn visit_statement(&mut self, statement: &SyntaxTreeStatement) {
        self.print_statement(statement);
        self.add_new_line();
    }

    fn visit_let_statement(&mut self, let_statement: &LetStatement) {
        self.result.append("let");
        self.add_whitespace();
        self.result.append(let_statement.identifier.span.literal.as_str());
        self.add_whitespace();
        self.result.append("=");
        self.add_whitespace();
        self.print_expression(&let_statement.initialiser);
    }

    fn visit_expression(&mut self, expression: &SyntaxTreeExpression) {
        self.print_expression(expression);
    }

    fn visit_number(&mut self, number: &NumberExpression) {
        let text = i64_to_string(number.number);
        self.result.append(text.as_str());
    }

    fn visit_variable_expression(&mut self, variable_expression: &VariableExpression) {
        self.result.append(variable_expression.identifier.span.literal.as_str());
    }

    fn visit_error(&mut self, span: &TextSpan) {
        self.result.append(span.literal.as_str());
    }

    fn visit_binary_expression(&mut self, binary_expression: &BinaryExpression) {
        self.print_expression(&binary_expression.left);
        self.add_whitespace();
        self.result.append(binary_expression.operator.token.span.literal.as_str());
        self.add_whitespace();
        self.print_expression(&binary_expression.right);
    }

    fn visit_parenthesised_expression(
        &mut self,
        parenthesised_expression: &ParenthesisExpression,
    ) {
        self.result.append("(");
        self.print_expression(&parenthesised_expression.expression);
        self.result.append(")");
    }

    fn visit_unary_expression(&mut self, unary_expression: &UnaryExpression) {
        self.result.append(unary_expression.operator.token.span.literal.as_str());
        self.print_expression(&unary_expression.operand);
    }
}

/// The decimal digit below ten as a one-character string.
fn digit_str(d: u64) -> (r: &'static str)
    requires
        d < 10,
    ensures
        r@ == seq![decimal_digit_char(d as int)],
{
    proof {
        reveal_strlit("0");
        reveal_strlit("1");
        reveal_strlit("2");
        reveal_strlit("3");
        reveal_strlit("4");
        reveal_strlit("5");
        reveal_strlit("6");
        reveal_strlit("7");
        reveal_strlit("8");
        reveal_strlit("9");
    }
    let r = if d == 0 {
        "0"
    } else if d == 1 {
        "1"
    } else if d == 2 {
        "2"
    } else if d == 3 {
        "3"
    } else if d == 4 {
        "4"
    } else if d == 5 {
        "5"
    } else if d == 6 {
        "6"
    } else if d == 7 {
        "7"
    } else if d == 8 {
        "8"
    } else {
        "9"
    };
    proof {
        assert(r@ =~= seq![decimal_digit_char(d as int)]);
    }
    r
}

/// Renders a natural number in decimal.
fn nat_to_string(m: u64) -> (r: String)
    ensures
        r@ == decimal_digits(m as nat),
{
    let mut out = String::new();
    let mut cur: u64 = m;
    proof {
        assert(decimal_digits(m as nat) =~= decimal_digits(m as nat) + out@);
    }
    loop
        invariant_except_break
            decimal_digits(m as nat) == decimal_digits(cur as nat) + out@,
        ensures
            out@ == decimal_digits(m as nat),
        decreases cur,
    {
        let d: u64 = cur % 10;
        let rest: u64 = cur / 10;
        let digit = digit_str(d);
        let ghost before = out@;
        out = String::from_str(digit).concat(out.as_str());
        proof {
            assert(rest as nat == (cur as nat) / 10);
            assert(d as int == (cur as nat) % 10);
            if cur >= 10 {
                assert(decimal_digits(cur as nat) == decimal_digits(rest as nat) + seq![
                    decimal_digit_char(d as int)]);
                assert((decimal_digits(rest as nat) + seq![decimal_digit_char(d as int)])
                    + before =~= decimal_digits(rest as nat) + (seq![
                    decimal_digit_char(d as int)] + before));
            } else {
                assert(decimal_digits(cur as nat) == seq![decimal_digit_char(d as int)]);
            }
        }
        cur = rest;
        if cur == 0 {
            break;
        }
    }
    out
}

/// Renders a 64-bit integer in decimal, minus sign included.
fn i64_to_string(n: i64) -> (r: String)
    ensures
        r@ == decimal_i64(n),
{
    if n >= 0 {
        nat_to_string(n as u64)
    } else {
        let magnitude: u64 = ((-(n + 1)) as u64) + 1;
        let digits = nat_to_string(magnitude);
        let r = String::from_str("-").concat(digits.as_str());
        proof {
            reveal_strlit("-");
            assert(r@ =~= seq!['-'] + decimal_digits((-(n as int)) as nat));
        }
        r
    }
}

} // verus!
