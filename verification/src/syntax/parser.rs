//! Operator-precedence (precedence climbing) recursive-descent parsing with
//! error recovery: malformed input yields diagnostics and `Error` nodes, never
//! a failure of the parser itself.
//!
//! The specification parser (`sp_primary`, `sp_binary_loop`, `sp_binary`,
//! `sp_statement`, `sp_program`) defines, position by position, exactly which
//! tree and which diagnostics the executable parser produces.  Results carry
//! the number of tokens consumed (one plus `extra`), so that cursor
//! arithmetic stays explicit.

use crate::diagnostics::{
    clone_token, error_diagnostic, expected_expression_message, unexpected_token_message,
    DiagnosticGlossary, DiagnosticView,
};
use crate::syntax::expression::{ExprView, SyntaxTreeExpression};
use crate::syntax::lexer::{token_views, Token, TokenType, TokenView};
use crate::syntax::statement::{StmtView, SyntaxTreeStatement};
use crate::syntax::types::_binary::{
    spec_precedence, BinaryOperator, BinaryOperatorKind, BinaryOperatorView,
};
use crate::syntax::types::_unary::{UnaryOperator, UnaryOperatorKind, UnaryOperatorView};
use vstd::prelude::*;

verus! {

/// A monotonic cursor into the token list.
pub struct Counter {
    value: usize,
}

impl Counter {
    pub closed spec fn spec_value(self) -> int {
        self.value as int
    }

    pub fn new() -> (r: Self)
        ensures
            r.spec_value() == 0,
    {
        Self { value: 0 }
    }

    pub fn increment(&mut self)
        requires
            old(self).spec_value() < usize::MAX,
        ensures
            final(self).spec_value() == old(self).spec_value() + 1,
    {
        self.value = self.value + 1;
    }

    pub fn get_value(&self) -> (r: usize)
        ensures
            r == self.spec_value(),
    {
        self.value
    }
}

// ---------------------------------------------------------------------------
// The specification parser.
// ---------------------------------------------------------------------------

/// Tokens that are not whitespace, in order: the parser's working sequence.
pub open spec fn filter_ws(vt: Seq<TokenView>) -> Seq<TokenView> {
    vt.filter(|t: TokenView| !(t.kind is WhiteSpace))
}

/// The token the parser sees at cursor `cur`: reads past the end stick to the
/// last token (the `Eof` sentinel of a well-formed list).
pub open spec fn tv_at(vt: Seq<TokenView>, cur: int) -> TokenView {
    if cur < vt.len() {
        vt[if cur < 0 {
            0
        } else {
            cur
        }]
    } else {
        vt[vt.len() - 1]
    }
}

/// The parser is finished when its cursor sits on `Eof`.
pub open spec fn sp_is_at_end(vt: Seq<TokenView>, cur: int) -> bool {
    tv_at(vt, cur).kind is Eof
}

/// The cursor value after moving `c` forward but never past `len`.
pub open spec fn cap_at(len: int, c: int) -> int {
    if c <= len {
        c
    } else {
        len
    }
}

/// Remaining tokens ahead of the cursor; drives termination of the
/// specification parser.
pub open spec fn sp_rem(vt: Seq<TokenView>, cur: int) -> nat {
    if cur < vt.len() {
        (vt.len() - cur) as nat
    } else {
        0
    }
}

/// The diagnostics that checking the token at `cur` against an expected kind
/// produces: none on a match, one unexpected-token error otherwise.
pub open spec fn sp_consume_check(vt: Seq<TokenView>, cur: int, expected: TokenType) -> Seq<
    DiagnosticView,
> {
    let t = tv_at(vt, cur);
    if t.kind == expected {
        Seq::empty()
    } else {
        seq![error_diagnostic(unexpected_token_message(expected, t.kind), t.span)]
    }
}

/// Which binary operator, if any, a token kind denotes.
pub open spec fn op_kind_of(t: TokenType) -> Option<BinaryOperatorKind> {
    match t {
        TokenType::Plus => Some(BinaryOperatorKind::Plus),
        TokenType::Minus => Some(BinaryOperatorKind::Minus),
        TokenType::Asterisk => Some(BinaryOperatorKind::Multiply),
        TokenType::ForwardSlash => Some(BinaryOperatorKind::Divide),
        TokenType::DoubleAsterisk => Some(BinaryOperatorKind::Power),
        TokenType::Ampersand => Some(BinaryOperatorKind::BitwiseAnd),
        TokenType::Pipe => Some(BinaryOperatorKind::BitwiseOr),
        TokenType::Caret => Some(BinaryOperatorKind::BitwiseXor),
        _ => None,
    }
}

/// Outcome of parsing one expression: the tree, how many tokens beyond the
/// first were consumed, and the diagnostics reported along the way.
pub ghost struct ParseExprOut {
    pub expr: ExprView,
    pub extra: nat,
    pub diags: Seq<DiagnosticView>,
}

/// Outcome of the binary-operator loop: the widened tree, the number of
/// tokens it consumed, and its diagnostics.
pub ghost struct BinLoopOut {
    pub expr: ExprView,
    pub more: nat,
    pub diags: Seq<DiagnosticView>,
}

/// Outcome of parsing one statement.
pub ghost struct ParseStmtOut {
    pub stmt: StmtView,
    pub extra: nat,
    pub diags: Seq<DiagnosticView>,
}

/// Outcome of parsing a whole program.
pub ghost struct ParseProgramOut {
    pub stmts: Seq<StmtView>,
    pub diags: Seq<DiagnosticView>,
}

/// A primary expression: a number, a parenthesised expression, a variable, a
/// prefix minus, or an `Error` node (with a diagnostic) where none of those
/// can start.
pub open spec fn sp_primary(vt: Seq<TokenView>, cur: int) -> ParseExprOut
    decreases sp_rem(vt, cur), 0int,
{
    let t = tv_at(vt, cur);
    if cur < vt.len() && t.kind is LeftParenthesis {
        let inner = sp_binary(vt, cur + 1, 0);
        let close = sp_consume_check(vt, cur + 2 + inner.extra, TokenType::RightParenthesis);
        ParseExprOut {
            expr: ExprView::Parenthesised(Box::new(inner.expr)),
            extra: 2 + inner.extra,
            diags: inner.diags + close,
        }
    } else if cur < vt.len() && t.kind is Minus {
        let operand = sp_primary(vt, cur + 1);
        ParseExprOut {
            expr: ExprView::Unary(
                UnaryOperatorView { kind: UnaryOperatorKind::Minus, token: t },
                Box::new(operand.expr),
            ),
            extra: 1 + operand.extra,
            diags: operand.diags,
        }
    } else {
        match t.kind {
            TokenType::Number(n) => ParseExprOut {
                expr: ExprView::Number(n),
                extra: 0,
                diags: Seq::empty(),
            },
            TokenType::Identifier => ParseExprOut {
                expr: ExprView::Variable(t),
                extra: 0,
                diags: Seq::empty(),
            },
            _ => ParseExprOut {
                expr: ExprView::Error(t.span),
                extra: 0,
                diags: seq![
                    error_diagnostic(expected_expression_message(t.kind), t.span),
                ],
            },
        }
    }
}

/// The precedence-climbing loop: as long as the cursor sits on an operator
/// whose precedence reaches `min_prec`, consume it, parse its right operand
/// one precedence level higher (equal precedence therefore associates to the
/// left), and widen `left`.
pub open spec fn sp_binary_loop(
    vt: Seq<TokenView>,
    left: ExprView,
    cur: int,
    min_prec: u8,
) -> BinLoopOut
    decreases sp_rem(vt, cur), 2int,
{
    if cur >= vt.len() {
        BinLoopOut { expr: left, more: 0, diags: Seq::empty() }
    } else {
        let t = tv_at(vt, cur);
        match op_kind_of(t.kind) {
            None => BinLoopOut { expr: left, more: 0, diags: Seq::empty() },
            Some(kind) => {
                if spec_precedence(kind) < min_prec {
                    BinLoopOut { expr: left, more: 0, diags: Seq::empty() }
                } else {
                    let right = sp_binary(vt, cur + 1, (spec_precedence(kind) + 1) as u8);
                    let widened = ExprView::Binary(
                        BinaryOperatorView { kind, token: t },
                        Box::new(left),
                        Box::new(right.expr),
                    );
                    let rest = sp_binary_loop(vt, widened, cur + 2 + right.extra, min_prec);
                    BinLoopOut {
                        expr: rest.expr,
                        more: 2 + right.extra + rest.more,
                        diags: right.diags + rest.diags,
                    }
                }
            },
        }
    }
}

/// A full expression at precedence floor `min_prec`: a primary expression
/// widened by the operator loop.
pub open spec fn sp_binary(vt: Seq<TokenView>, cur: int, min_prec: u8) -> ParseExprOut
    decreases sp_rem(vt, cur), 1int,
{
    if cur >= vt.len() {
        sp_primary(vt, cur)
    } else {
        let first = sp_primary(vt, cur);
        let looped = sp_binary_loop(vt, first.expr, cur + 1 + first.extra, min_prec);
        ParseExprOut {
            expr: looped.expr,
            extra: first.extra + looped.more,
            diags: first.diags + looped.diags,
        }
    }
}

/// One statement: a `let` binding where the cursor sits on `let`, otherwise a
/// bare expression statement.
pub open spec fn sp_statement(vt: Seq<TokenView>, cur: int) -> ParseStmtOut {
    let t = tv_at(vt, cur);
    if t.kind is Let {
        let d_let = sp_consume_check(vt, cur, TokenType::Let);
        let identifier = tv_at(vt, cur + 1);
        let d_ident = sp_consume_check(vt, cur + 1, TokenType::Identifier);
        let d_equal = sp_consume_check(vt, cur + 2, TokenType::Equal);
        let init = sp_binary(vt, cur + 3, 0);
        ParseStmtOut {
            stmt: StmtView::Let(identifier, init.expr),
            extra: 3 + init.extra,
            diags: d_let + d_ident + d_equal + init.diags,
        }
    } else {
        let e = sp_binary(vt, cur, 0);
        ParseStmtOut { stmt: StmtView::Expression(e.expr), extra: e.extra, diags: e.diags }
    }
}

/// All statements from `cur` to the `Eof` sentinel, with their diagnostics in
/// order.
pub open spec fn sp_program_loop(vt: Seq<TokenView>, cur: int) -> ParseProgramOut
    decreases sp_rem(vt, cur),
{
    if cur >= vt.len() || sp_is_at_end(vt, cur) {
        ParseProgramOut { stmts: Seq::empty(), diags: Seq::empty() }
    } else {
        let s = sp_statement(vt, cur);
        let rest = sp_program_loop(vt, cur + 1 + s.extra);
        ParseProgramOut { stmts: seq![s.stmt] + rest.stmts, diags: s.diags + rest.diags }
    }
}

/// The whole program a well-formed token list parses to.
pub open spec fn sp_program(vt: Seq<TokenView>) -> ParseProgramOut {
    sp_program_loop(vt, 0)
}

// ---------------------------------------------------------------------------
// The executable parser.
// ---------------------------------------------------------------------------

/// Consumes the whitespace-filtered token list and produces statements while
/// reporting malformed syntax to the shared glossary.
pub struct Parser {
    tokens: Vec<Token>,
    current: Counter,
    pub diagnostics_glossary: DiagnosticGlossary,
}

impl Parser {
    /// The parser's working token sequence.
    pub closed spec fn vt(self) -> Seq<TokenView> {
        token_views(self.tokens@)
    }

    /// The current cursor value.
    pub closed spec fn cursor(self) -> int {
        self.current.spec_value()
    }

    /// Diagnostics reported so far.
    pub closed spec fn diags(self) -> Seq<DiagnosticView> {
        self.diagnostics_glossary@
    }

    /// The token list is non-empty, ends with the `Eof` sentinel, and the
    /// cursor never moves past its end.
    pub closed spec fn wf(self) -> bool {
        &&& self.tokens@.len() >= 1
        &&& self.vt().last().kind is Eof
        &&& 0 <= self.cursor() <= self.vt().len()
    }

    /// Filters whitespace out of `tokens` and starts the cursor at the first
    /// remaining token.
    pub fn new(tokens: Vec<Token>, diagnostics_glossary: DiagnosticGlossary) -> (r: Parser)
        requires
            tokens@.len() >= 1,
            token_views(tokens@).last().kind is Eof,
        ensures
            r.wf(),
            r.vt() == filter_ws(token_views(tokens@)),
            r.cursor() == 0,
            r.diags() == diagnostics_glossary@,
    {
        let mut filtered: Vec<Token> = Vec::new();
        let n = tokens.len();
        let mut i: usize = 0;
        while i < n
            invariant
                n == tokens@.len(),
                i <= n,
                token_views(filtered@) == filter_ws(token_views(tokens@.take(i as int))),
            decreases n - i,
        {
            let ghost before = filtered@;
            let keep = match tokens[i].kind {
                TokenType::WhiteSpace => false,
                _ => true,
            };
            if keep {
                filtered.push(clone_token(&tokens[i]));
            }
            proof {
                let v = tokens@[i as int];
                let pref = token_views(tokens@.take(i as int));
                let next = token_views(tokens@.take(i + 1));
                assert(next =~= pref.push(v@));
                lemma_filter_ws_push(pref, v@);
                if keep {
                    assert(token_views(filtered@) =~= token_views(before).push(v@));
                } else {
                    assert(token_views(filtered@) =~= token_views(before));
                }
            }
            i = i + 1;
        }
        proof {
            assert(tokens@.take(tokens@.len() as int) =~= tokens@);
            let all = token_views(tokens@);
            lemma_filter_ws_keeps_last(all);
            assert(token_views(filtered@).len() >= 1);
        }
        Parser { tokens: filtered, current: Counter::new(), diagnostics_glossary }
    }

    /// Produces the next top-level statement, or nothing once the cursor sits
    /// on `Eof`.
    pub fn next_statement(&mut self) -> (r: Option<SyntaxTreeStatement>)
        requires
            old(self).wf(),
        ensures
            final(self).wf(),
            final(self).vt() == old(self).vt(),
            ({
                let vt = old(self).vt();
                let cur = old(self).cursor();
                if sp_is_at_end(vt, cur) {
                    &&& r is None
                    &&& final(self).cursor() == cur
                    &&& final(self).diags() == old(self).diags()
                } else {
                    let out = sp_statement(vt, cur);
                    &&& r is Some
                    &&& r->Some_0@ == out.stmt
                    &&& final(self).cursor() == cap_at(vt.len() as int, cur + 1 + out.extra)
                    &&& final(self).diags() == old(self).diags() + out.diags
                }
            }),
    {
        if self.is_at_end() {
            return None;
        }
        Some(self.parse_statement())
    }

    /// The cursor sits on the `Eof` sentinel.
    pub fn is_at_end(&self) -> (r: bool)
        requires
            self.wf(),
        ensures
            r == sp_is_at_end(self.vt(), self.cursor()),
    {
        let token = self.current();
        match token.kind {
            TokenType::Eof => true,
            _ => false,
        }
    }

    fn parse_statement(&mut self) -> (r: SyntaxTreeStatement)
        requires
            old(self).wf(),
            !sp_is_at_end(old(self).vt(), old(self).cursor()),
        ensures
            final(self).wf(),
            final(self).vt() == old(self).vt(),
            ({
                let vt = old(self).vt();
                let cur = old(self).cursor();
                let out = sp_statement(vt, cur);
                &&& r@ == out.stmt
                &&& final(self).cursor() == cap_at(vt.len() as int, cur + 1 + out.extra)
                &&& final(self).diags() == old(self).diags() + out.diags
            }),
    {
        let token = self.current();
        match token.kind {
            TokenType::Let => self.parse_let_statement(),
            _ => self.parse_expression_statement(),
        }
    }

    fn parse_let_statement(&mut self) -> (r: SyntaxTreeStatement)
        requires
            old(self).wf(),
            tv_at(old(self).vt(), old(self).cursor()).kind is Let,
        ensures
            final(self).wf(),
            final(self).vt() == old(self).vt(),
            ({
                let vt = old(self).vt();
                let cur = old(self).cursor();
                let out = sp_statement(vt, cur);
                &&& r@ == out.stmt
                &&& final(self).cursor() == cap_at(vt.len() as int, cur + 1 + out.extra)
                &&& final(self).diags() == old(self).diags() + out.diags
            }),
    {
        self.consume_and_check(TokenType::Let);
        let identifier = self.consume_and_check(TokenType::Identifier);
        self.consume_and_check(TokenType::Equal);
        let expr = self.parse_expression();
        SyntaxTreeStatement::let_statement(identifier, expr)
    }

    fn parse_expression_statement(&mut self) -> (r: SyntaxTreeStatement)
        requires
            old(self).wf(),
            !(tv_at(old(self).vt(), old(self).cursor()).kind is Let),
        ensures
            final(self).wf(),
            final(self).vt() == old(self).vt(),
            ({
                let vt = old(self).vt();
                let cur = old(self).cursor();
                let out = sp_statement(vt, cur);
                &&& r@ == out.stmt
                &&& final(self).cursor() == cap_at(vt.len() as int, cur + 1 + out.extra)
                &&& final(self).diags() == old(self).diags() + out.diags
            }),
    {
        let expr = self.parse_expression();
        SyntaxTreeStatement::expression(expr)
    }

    fn parse_expression(&mut self) -> (r: SyntaxTreeExpression)
        requires
            old(self).wf(),
        ensures
            final(self).wf(),
            final(self).vt() == old(self).vt(),
            ({
                let vt = old(self).vt();
                let cur = old(self).cursor();
                let out = sp_binary(vt, cur, 0);
                &&& r@ == out.expr
                &&& final(self).cursor() == cap_at(vt.len() as int, cur + 1 + out.extra)
                &&& final(self).diags() == old(self).diags() + out.diags
            }),
        decreases old(self).spec_rem_tokens(), 2int,
    {
        self.parse_binary_expression(0)
    }

    /// Remaining tokens ahead of the cursor; drives termination of the
    /// executable parser's recursion.
    pub closed spec fn spec_rem_tokens(self) -> int {
        self.vt().len() - self.cursor()
    }

    fn parse_binary_expression(&mut self, precedence: u8) -> (r: SyntaxTreeExpression)
        requires
            old(self).wf(),
        ensures
            final(self).wf(),
            final(self).vt() == old(self).vt(),
            ({
                let vt = old(self).vt();
                let cur = old(self).cursor();
                let out = sp_binary(vt, cur, precedence);
                &&& r@ == out.expr
                &&& final(self).cursor() == cap_at(vt.len() as int, cur + 1 + out.extra)
                &&& final(self).diags() == old(self).diags() + out.diags
            }),
        decreases old(self).spec_rem_tokens(), 1int,
    {
        let ghost vt = self.vt();
        let ghost cur0 = self.cursor();
        let ghost len = vt.len() as int;
        let ghost target = sp_binary(vt, cur0, precedence);
        let ghost d0 = self.diags();
        let left = self.parse_primary_expression();
        let ghost p = sp_primary(vt, cur0);
        if self.current.get_value() >= self.tokens.len() {
            proof {
                if cur0 < len {
                    let looped = sp_binary_loop(vt, p.expr, cur0 + 1 + p.extra, precedence);
                    assert(looped.more == 0 && looped.diags =~= Seq::<DiagnosticView>::empty());
                    assert(target.diags =~= p.diags);
                }
                assert(self.diags() =~= d0 + target.diags);
            }
            return left;
        }
        let r = self.parse_binary_loop(left, precedence);
        proof {
            let c1 = cur0 + 1 + p.extra;
            let looped = sp_binary_loop(vt, p.expr, c1, precedence);
            assert(d0 + p.diags + looped.diags =~= d0 + (p.diags + looped.diags));
        }
        r
    }

    /// The precedence-climbing loop: while the cursor sits on an operator
    /// binding at least as tightly as `min_prec`, consume it, parse its right
    /// operand one level higher (so equal precedence associates to the left),
    /// and widen `left`.
    fn parse_binary_loop(&mut self, left: SyntaxTreeExpression, min_prec: u8) -> (r:
        SyntaxTreeExpression)
        requires
            old(self).wf(),
        ensures
            final(self).wf(),
            final(self).vt() == old(self).vt(),
            ({
                let vt = old(self).vt();
                let cur = old(self).cursor();
                let out = sp_binary_loop(vt, left@, cur, min_prec);
                &&& r@ == out.expr
                &&& final(self).cursor() == cap_at(vt.len() as int, cur + out.more)
                &&& final(self).diags() == old(self).diags() + out.diags
            }),
        decreases old(self).spec_rem_tokens(), 2int,
    {
        let ghost vt = self.vt();
        let ghost c = self.cursor();
        let ghost len = vt.len() as int;
        let ghost cl = sp_binary_loop(vt, left@, c, min_prec);
        let operator = match self.parse_binary_operator() {
            Some(operator) => operator,
            None => {
                proof {
                    assert(self.diags() =~= self.diags() + cl.diags);
                }
                return left;
            },
        };
        let operator_precedence = operator.precedence();
        if operator_precedence < min_prec {
            proof {
                assert(self.diags() =~= self.diags() + cl.diags);
            }
            return left;
        }
        proof {
            assert(c < len) by {
                if c >= len {
                    assert(tv_at(vt, c).kind is Eof);
                }
            };
        }
        self.consume();
        let ghost d1 = self.diags();
        let right = self.parse_binary_expression(operator_precedence + 1);
        let widened = SyntaxTreeExpression::binary(operator, left, right);
        let ghost kind = operator@.kind;
        let ghost right_s = sp_binary(vt, c + 1, (spec_precedence(kind) + 1) as u8);
        let ghost rest = sp_binary_loop(vt, widened@, c + 2 + right_s.extra, min_prec);
        proof {
            assert(cl.expr == rest.expr && cl.more == 2 + right_s.extra + rest.more
                && cl.diags == right_s.diags + rest.diags);
            if c + 2 + right_s.extra > len {
                assert(self.cursor() == len);
                assert(sp_binary_loop(vt, widened@, self.cursor(), min_prec) == rest);
            }
        }
        let r = self.parse_binary_loop(widened, min_prec);
        proof {
            assert(self.diags() =~= d1 + right_s.diags + rest.diags);
            assert(d1 + (right_s.diags + rest.diags) =~= d1 + right_s.diags + rest.diags);
        }
        r
    }

    fn parse_binary_operator(&mut self) -> (r: Option<BinaryOperator>)
        requires
            old(self).wf(),
        ensures
            *final(self) == *old(self),
            ({
                let t = tv_at(old(self).vt(), old(self).cursor());
                match op_kind_of(t.kind) {
                    Some(kind) => r is Some && r->Some_0.kind == kind && r->Some_0.token@ == t,
                    None => r is None,
                }
            }),
    {
        let token = self.current();
        let kind = match token.kind {
            TokenType::Plus => Some(BinaryOperatorKind::Plus),
            TokenType::Minus => Some(BinaryOperatorKind::Minus),
            TokenType::Asterisk => Some(BinaryOperatorKind::Multiply),
            TokenType::ForwardSlash => Some(BinaryOperatorKind::Divide),
            TokenType::DoubleAsterisk => Some(BinaryOperatorKind::Power),
            TokenType::Ampersand => Some(BinaryOperatorKind::BitwiseAnd),
            TokenType::Pipe => Some(BinaryOperatorKind::BitwiseOr),
            TokenType::Caret => Some(BinaryOperatorKind::BitwiseXor),
            _ => None,
        };
        match kind {
            Some(kind) => Some(BinaryOperator::new(kind, token)),
            None => None,
        }
    }

    fn parse_primary_expression(&mut self) -> (r: SyntaxTreeExpression)
        requires
            old(self).wf(),
        ensures
            final(self).wf(),
            final(self).vt() == old(self).vt(),
            ({
                let vt = old(self).vt();
                let cur = old(self).cursor();
                let out = sp_primary(vt, cur);
                &&& r@ == out.expr
                &&& final(self).cursor() == cap_at(vt.len() as int, cur + 1 + out.extra)
                &&& final(self).diags() == old(self).diags() + out.diags
            }),
        decreases old(self).spec_rem_tokens(), 0int,
    {
        let token = self.consume();
        match token.kind {
            TokenType::Number(number) => SyntaxTreeExpression::number(number),
            TokenType::LeftParenthesis => {
                let expr = self.parse_expression();
                self.consume_and_check(TokenType::RightParenthesis);
                SyntaxTreeExpression::parenthsised(expr)
            },
            TokenType::Minus => {
                let operator = UnaryOperator::new(UnaryOperatorKind::Minus, token);
                let operand = self.parse_primary_expression();
                SyntaxTreeExpression::unary(operator, operand)
            },
            TokenType::Identifier => SyntaxTreeExpression::identifier(token),
            _ => {
                self.diagnostics_glossary.report_expexted_expression(&token);
                SyntaxTreeExpression::error(token.span)
            },
        }
    }

    /// The token under the cursor (reads past the end stick to the last
    /// token).
    fn current(&self) -> (r: Token)
        requires
            self.wf(),
        ensures
            r@ == tv_at(self.vt(), self.cursor()),
    {
        let index = self.current.get_value();
        let last = self.tokens.len() - 1;
        if index < self.tokens.len() {
            clone_token(&self.tokens[index])
        } else {
            clone_token(&self.tokens[last])
        }
    }

    /// Hands out the token under the cursor and moves the cursor forward
    /// (stopping at the end of the list).
    fn consume(&mut self) -> (r: Token)
        requires
            old(self).wf(),
        ensures
            final(self).wf(),
            final(self).vt() == old(self).vt(),
            final(self).diags() == old(self).diags(),
            r@ == tv_at(old(self).vt(), old(self).cursor()),
            final(self).cursor() == cap_at(old(self).vt().len() as int, old(self).cursor() + 1),
    {
        let token = self.current();
        if self.current.get_value() < self.tokens.len() {
            self.current.increment();
        }
        token
    }

    /// Hands the shared glossary back once parsing is over.
    pub fn into_diagnostics(self) -> (r: DiagnosticGlossary)
        ensures
            r@ == self.diags(),
    {
        self.diagnostics_glossary
    }

    /// Consumes one token and reports an unexpected-token diagnostic when it
    /// is not of the expected kind.
    fn consume_and_check(&mut self, kind: TokenType) -> (r: Token)
        requires
            old(self).wf(),
        ensures
            final(self).wf(),
            final(self).vt() == old(self).vt(),
            r@ == tv_at(old(self).vt(), old(self).cursor()),
            final(self).cursor() == cap_at(old(self).vt().len() as int, old(self).cursor() + 1),
            final(self).diags() == old(self).diags() + sp_consume_check(
                old(self).vt(),
                old(self).cursor(),
                kind,
            ),
    {
        let token = self.consume();
        if !(token.kind == kind) {
            self.diagnostics_glossary.report_unexpected_token(&kind, &token);
        }
        proof {
            assert(self.diags() =~= old(self).diags() + sp_consume_check(
                old(self).vt(),
                old(self).cursor(),
                kind,
            ));
        }
        token
    }
}

// ---------------------------------------------------------------------------
// A clean parse leaves no error nodes: every `Error` node is created
// together with a diagnostic, so an empty diagnostic list means an
// error-free tree.
// ---------------------------------------------------------------------------

proof fn lemma_primary_clean(vt: Seq<TokenView>, cur: int)
    ensures
        sp_primary(vt, cur).diags.len() == 0 ==> crate::syntax::expression::error_free(
            sp_primary(vt, cur).expr,
        ),
    decreases sp_rem(vt, cur), 0int,
{
    let t = tv_at(vt, cur);
    if cur < vt.len() && t.kind is LeftParenthesis {
        lemma_binary_clean(vt, cur + 1, 0);
    } else if cur < vt.len() && t.kind is Minus {
        lemma_primary_clean(vt, cur + 1);
    }
}

proof fn lemma_binary_loop_clean(vt: Seq<TokenView>, left: ExprView, cur: int, min_prec: u8)
    ensures
        ({
            let out = sp_binary_loop(vt, left, cur, min_prec);
            (out.diags.len() == 0 && crate::syntax::expression::error_free(left))
                ==> crate::syntax::expression::error_free(out.expr)
        }),
    decreases sp_rem(vt, cur), 2int,
{
    if cur < vt.len() {
        let t = tv_at(vt, cur);
        match op_kind_of(t.kind) {
            None => {},
            Some(kind) => {
                if spec_precedence(kind) >= min_prec {
                    let right = sp_binary(vt, cur + 1, (spec_precedence(kind) + 1) as u8);
                    lemma_binary_clean(vt, cur + 1, (spec_precedence(kind) + 1) as u8);
                    let widened = ExprView::Binary(
                        BinaryOperatorView { kind, token: t },
                        Box::new(left),
                        Box::new(right.expr),
                    );
                    lemma_binary_loop_clean(vt, widened, cur + 2 + right.extra, min_prec);
                }
            },
        }
    }
}

proof fn lemma_binary_clean(vt: Seq<TokenView>, cur: int, min_prec: u8)
    ensures
        sp_binary(vt, cur, min_prec).diags.len() == 0 ==> crate::syntax::expression::error_free(
            sp_binary(vt, cur, min_prec).expr,
        ),
    decreases sp_rem(vt, cur), 1int,
{
    lemma_primary_clean(vt, cur);
    if cur < vt.len() {
        let first = sp_primary(vt, cur);
        lemma_binary_loop_clean(vt, first.expr, cur + 1 + first.extra, min_prec);
    }
}

proof fn lemma_statement_clean(vt: Seq<TokenView>, cur: int)
    ensures
        sp_statement(vt, cur).diags.len() == 0 ==> crate::syntax::statement::stmt_error_free(
            sp_statement(vt, cur).stmt,
        ),
{
    let t = tv_at(vt, cur);
    if t.kind is Let {
        lemma_binary_clean(vt, cur + 3, 0);
    } else {
        lemma_binary_clean(vt, cur, 0);
    }
}

/// A parse that reported no diagnostics produced a tree with no `Error`
/// nodes in it.
pub proof fn lemma_clean_parse_error_free(vt: Seq<TokenView>, cur: int)
    ensures
        sp_program_loop(vt, cur).diags.len() == 0
            ==> crate::syntax::statement::stmts_error_free(sp_program_loop(vt, cur).stmts),
    decreases sp_rem(vt, cur),
{
    if cur >= vt.len() || sp_is_at_end(vt, cur) {
    } else {
        let s = sp_statement(vt, cur);
        let rest = sp_program_loop(vt, cur + 1 + s.extra);
        lemma_statement_clean(vt, cur);
        lemma_clean_parse_error_free(vt, cur + 1 + s.extra);
        let out = sp_program_loop(vt, cur);
        if out.diags.len() == 0 {
            assert(forall|i: int|
                0 <= i < out.stmts.len() ==> crate::syntax::statement::stmt_error_free(
                    #[trigger] out.stmts[i],
                )) by {
                assert(out.stmts[0] == s.stmt);
                assert(forall|i: int|
                    1 <= i < out.stmts.len() ==> out.stmts[i] == rest.stmts[i - 1]);
            };
        }
    }
}

/// Filtering after appending one token keeps the old filtering and appends
/// the token exactly when it is not whitespace.
proof fn lemma_filter_ws_push(s: Seq<TokenView>, v: TokenView)
    ensures
        filter_ws(s.push(v)) == if !(v.kind is WhiteSpace) {
            filter_ws(s).push(v)
        } else {
            filter_ws(s)
        },
{
    reveal(Seq::filter);
    assert(s.push(v).drop_last() =~= s);
    assert(s.push(v).last() == v);
}

/// Filtering whitespace away keeps the final `Eof` token in final position.
pub proof fn lemma_filter_ws_keeps_last(s: Seq<TokenView>)
    requires
        s.len() >= 1,
        s.last().kind is Eof,
    ensures
        filter_ws(s).len() >= 1,
        filter_ws(s).last() == s.last(),
{
    reveal(Seq::filter);
}

} // verus!
