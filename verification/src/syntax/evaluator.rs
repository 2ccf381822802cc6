//! Tree-walking evaluation: computes the 64-bit integer value of a program,
//! maintaining a binding environment and keeping only the value of the last
//! statement.
//!
//! Division by zero and reading an unbound variable are fatal: they stop
//! evaluation at once and are never recorded as diagnostics.

use super::expression::{error_free, ExprView, SyntaxTreeExpression, SyntaxTreeExpressionKind};
use super::statement::{stmt_error_free, stmts_error_free, StmtView, SyntaxTreeStatement};
use super::types::_binary::BinaryOperatorKind;
use super::types::_unary::UnaryOperatorKind;
use vstd::prelude::*;

verus! {

/// The unrecoverable evaluation faults.
#[derive(Clone, Copy, Debug, PartialEq, Eq, Structural)]
pub enum EvalError {
    DivideByZero,
    UndeclaredVariable,
}

// ---------------------------------------------------------------------------
// The specification semantics.  Addition, subtraction, multiplication and
// negation wrap on overflow, division truncates toward zero (and wraps on the
// single overflowing quotient), and a power with a negative exponent is zero.
// ---------------------------------------------------------------------------

/// Truncating 64-bit division for a non-zero divisor; the one overflowing
/// quotient wraps back to `i64::MIN`.
pub open spec fn div_trunc_wrap(a: i64, b: i64) -> i64 {
    match a.checked_div(b) {
        Some(v) => v,
        None => i64::MIN,
    }
}

/// `base` multiplied into 1 `exp` times with wrapping arithmetic; zero for
/// negative exponents.
pub open spec fn pow_wrap(base: i64, exp: i64) -> i64
    decreases
            (if exp > 0 {
                exp as int
            } else {
                0int
            }),
{
    if exp <= 0 {
        if exp == 0 {
            1
        } else {
            0
        }
    } else {
        vstd::wrapping::i64_specs::wrapping_mul(pow_wrap(base, (exp - 1) as i64), base)
    }
}

/// The value of one binary operator application.
pub open spec fn apply_binary(kind: BinaryOperatorKind, a: i64, b: i64) -> Result<i64, EvalError> {
    match kind {
        BinaryOperatorKind::Plus => Ok(vstd::wrapping::i64_specs::wrapping_add(a, b)),
        BinaryOperatorKind::Minus => Ok(vstd::wrapping::i64_specs::wrapping_sub(a, b)),
        BinaryOperatorKind::Multiply => Ok(vstd::wrapping::i64_specs::wrapping_mul(a, b)),
        BinaryOperatorKind::Divide => if b == 0 {
            Err(EvalError::DivideByZero)
        } else {
            Ok(div_trunc_wrap(a, b))
        },
        BinaryOperatorKind::Power => Ok(pow_wrap(a, b)),
        BinaryOperatorKind::BitwiseAnd => Ok(a & b),
        BinaryOperatorKind::BitwiseOr => Ok(a | b),
        BinaryOperatorKind::BitwiseXor => Ok(a ^ b),
    }
}

/// The value of one prefix operator application.
pub open spec fn apply_unary(kind: UnaryOperatorKind, v: i64) -> i64 {
    match kind {
        UnaryOperatorKind::Minus => vstd::wrapping::i64_specs::wrapping_sub(0, v),
        UnaryOperatorKind::BitwiseNot => (-1i64) ^ v,
    }
}

/// The value of an expression under a binding environment; left operands
/// evaluate strictly before right operands.  Evaluation of an `Error` node is
/// left unspecified: the pipeline never evaluates a tree containing one.
pub open spec fn ev_expr(env: Map<Seq<char>, i64>, e: ExprView) -> Result<i64, EvalError>
    decreases e,
{
    match e {
        ExprView::Number(n) => Ok(n),
        ExprView::Binary(op, l, r) => match ev_expr(env, *l) {
            Ok(a) => match ev_expr(env, *r) {
                Ok(b) => apply_binary(op.kind, a, b),
                Err(err) => Err(err),
            },
            Err(err) => Err(err),
        },
        ExprView::Unary(op, operand) => match ev_expr(env, *operand) {
            Ok(v) => Ok(apply_unary(op.kind, v)),
            Err(err) => Err(err),
        },
        ExprView::Parenthesised(inner) => ev_expr(env, *inner),
        ExprView::Variable(t) => if env.dom().contains(t.span.literal) {
            Ok(env[t.span.literal])
        } else {
            Err(EvalError::UndeclaredVariable)
        },
        ExprView::Error(_) => arbitrary(),
    }
}

/// One statement: its value, and the environment it leaves behind (`let`
/// binds after evaluating its initialiser, overwriting silently).
pub open spec fn ev_stmt(env: Map<Seq<char>, i64>, s: StmtView) -> Result<
    (Map<Seq<char>, i64>, i64),
    EvalError,
> {
    match s {
        StmtView::Expression(e) => match ev_expr(env, e) {
            Ok(v) => Ok((env, v)),
            Err(err) => Err(err),
        },
        StmtView::Let(id, init) => match ev_expr(env, init) {
            Ok(v) => Ok((env.insert(id.span.literal, v), v)),
            Err(err) => Err(err),
        },
    }
}

/// A statement sequence, threading the environment and the last value; each
/// statement overwrites the running last value.
pub open spec fn ev_stmts(
    env: Map<Seq<char>, i64>,
    last: Option<i64>,
    stmts: Seq<StmtView>,
) -> Result<(Map<Seq<char>, i64>, Option<i64>), EvalError>
    decreases stmts.len(),
{
    if stmts.len() == 0 {
        Ok((env, last))
    } else {
        match ev_stmt(env, stmts[0]) {
            Ok((env2, v)) => ev_stmts(env2, Some(v), stmts.drop_first()),
            Err(err) => Err(err),
        }
    }
}

/// What a whole program evaluates to from a fresh environment: the value of
/// its last statement, absent only for a zero-statement program.
pub open spec fn program_result(stmts: Seq<StmtView>) -> Result<Option<i64>, EvalError> {
    match ev_stmts(Map::empty(), None, stmts) {
        Ok((env, last)) => Ok(last),
        Err(err) => Err(err),
    }
}

// ---------------------------------------------------------------------------
// On arithmetic-only expressions whose exact value never leaves the 64-bit
// range, the evaluator computes the mathematically correct result.
// ---------------------------------------------------------------------------

/// Expressions built from number literals, parentheses and `+ - * /` alone.
pub open spec fn arith_only(e: ExprView) -> bool
    decreases e,
{
    match e {
        ExprView::Number(_) => true,
        ExprView::Binary(op, l, r) => (op.kind == BinaryOperatorKind::Plus || op.kind
            == BinaryOperatorKind::Minus || op.kind == BinaryOperatorKind::Multiply || op.kind
            == BinaryOperatorKind::Divide) && arith_only(*l) && arith_only(*r),
        ExprView::Parenthesised(inner) => arith_only(*inner),
        _ => false,
    }
}

/// Exact truncating integer division (round toward zero), for a non-zero
/// divisor.
pub open spec fn exact_div(x: int, d: int) -> int {
    if x == 0 {
        0
    } else if x > 0 && d > 0 {
        x / d
    } else if x < 0 && d < 0 {
        (x * -1) / (d * -1)
    } else if x < 0 {
        ((x * -1) / d) * -1
    } else {
        (x / (d * -1)) * -1
    }
}

/// The exact mathematical value of an arithmetic-only expression, over the
/// unbounded integers.
pub open spec fn exact_value(e: ExprView) -> int
    decreases e,
{
    match e {
        ExprView::Number(n) => n as int,
        ExprView::Binary(op, l, r) => {
            let a = exact_value(*l);
            let b = exact_value(*r);
            match op.kind {
                BinaryOperatorKind::Plus => a + b,
                BinaryOperatorKind::Minus => a - b,
                BinaryOperatorKind::Multiply => a * b,
                BinaryOperatorKind::Divide => exact_div(a, b),
                _ => arbitrary(),
            }
        },
        ExprView::Parenthesised(inner) => exact_value(*inner),
        _ => arbitrary(),
    }
}

/// No division by zero occurs and every intermediate exact value fits in a
/// 64-bit integer.
pub open spec fn exact_in_bounds(e: ExprView) -> bool
    decreases e,
{
    match e {
        ExprView::Number(_) => true,
        ExprView::Binary(op, l, r) => {
            &&& exact_in_bounds(*l)
            &&& exact_in_bounds(*r)
            &&& (op.kind == BinaryOperatorKind::Divide ==> exact_value(*r) != 0)
            &&& i64::MIN <= exact_value(e) <= i64::MAX
        },
        ExprView::Parenthesised(inner) => exact_in_bounds(*inner),
        _ => false,
    }
}

/// For every well-formed arithmetic-only expression with no variables whose
/// intermediate values stay within 64 bits, the evaluator's result equals
/// the mathematically correct integer under left-to-right,
/// standard-precedence, truncating-division semantics — whatever the
/// environment.
pub proof fn lemma_arithmetic_evaluation_exact(env: Map<Seq<char>, i64>, e: ExprView)
    requires
        arith_only(e),
        exact_in_bounds(e),
    ensures
        ev_expr(env, e) == Ok::<i64, EvalError>(exact_value(e) as i64),
        exact_value(e) as i64 == exact_value(e),
    decreases e,
{
    match e {
        ExprView::Number(_) => {},
        ExprView::Parenthesised(inner) => {
            lemma_arithmetic_evaluation_exact(env, *inner);
        },
        ExprView::Binary(op, l, r) => {
            lemma_arithmetic_evaluation_exact(env, *l);
            lemma_arithmetic_evaluation_exact(env, *r);
            let a = exact_value(*l);
            let b = exact_value(*r);
            let av = a as i64;
            let bv = b as i64;
            match op.kind {
                BinaryOperatorKind::Plus => {},
                BinaryOperatorKind::Minus => {},
                BinaryOperatorKind::Multiply => {
                    assert(vstd::wrapping::i64_specs::wrapping_mul(av, bv) == a * b) by {
                        lemma_signed_crop_in_range(a * b);
                    };
                },
                BinaryOperatorKind::Divide => {
                    assert(div_trunc_wrap(av, bv) == exact_div(a, b));
                },
                _ => {},
            }
        },
        _ => {},
    }
}

/// The same, lifted to a whole program: a single arithmetic-only expression
/// statement evaluates, from a fresh environment, to exactly its
/// mathematical value.
pub proof fn lemma_arithmetic_program_exact(e: ExprView)
    requires
        arith_only(e),
        exact_in_bounds(e),
    ensures
        program_result(seq![StmtView::Expression(e)]) == Ok::<Option<i64>, EvalError>(
            Some(exact_value(e) as i64),
        ),
{
    lemma_arithmetic_evaluation_exact(Map::empty(), e);
    let stmts = seq![StmtView::Expression(e)];
    let value = exact_value(e) as i64;
    assert(stmts.drop_first() =~= Seq::<StmtView>::empty());
    assert(ev_stmts(Map::empty(), Some(value), stmts.drop_first()) == Ok::<
        (Map<Seq<char>, i64>, Option<i64>),
        EvalError,
    >((Map::empty(), Some(value))));
    assert(stmts[0] == StmtView::Expression(e));
}

/// Cropping an in-range value to 64 bits changes nothing.
pub proof fn lemma_signed_crop_in_range(x: int)
    requires
        i64::MIN <= x <= i64::MAX,
    ensures
        vstd::wrapping::i64_specs::signed_crop(x) == x,
{
    if x >= 0 {
        assert(x % 0x1_0000_0000_0000_0000 == x);
    } else {
        assert(x % 0x1_0000_0000_0000_0000 == x + 0x1_0000_0000_0000_0000);
    }
}

/// The binding environment an association list denotes; later entries win.
pub open spec fn assoc_env(entries: Seq<(String, i64)>) -> Map<Seq<char>, i64>
    decreases entries.len(),
{
    if entries.len() == 0 {
        Map::empty()
    } else {
        assoc_env(entries.drop_last()).insert(entries.last().0@, entries.last().1)
    }
}

/// Entries above `i` that do not mention `name` do not change what the
/// environment says about `name`.
proof fn lemma_assoc_env_skip(entries: Seq<(String, i64)>, i: int, name: Seq<char>)
    requires
        0 <= i <= entries.len(),
        forall|j: int| i <= j < entries.len() ==> (#[trigger] entries[j]).0@ != name,
    ensures
        assoc_env(entries).dom().contains(name) == assoc_env(entries.take(i)).dom().contains(name),
        assoc_env(entries).dom().contains(name) ==> assoc_env(entries)[name] == assoc_env(
            entries.take(i),
        )[name],
    decreases entries.len() - i,
{
    if i < entries.len() {
        lemma_assoc_env_skip(entries.drop_last(), i, name);
        assert(entries.drop_last().take(i) =~= entries.take(i));
    } else {
        assert(entries.take(i) =~= entries);
    }
}

/// Walks the tree computing values; the environment maps each variable name
/// to its last-assigned value.  Unlike the other passes, evaluation can fail
/// fatally halfway through a walk, so it recurses on its own instead of
/// implementing the visitor contract (whose hooks cannot return early).
pub struct Evaluator {
    pub last_value: Option<i64>,
    pub variables: Vec<(String, i64)>,
}

impl Evaluator {
    /// The binding environment in force.
    pub open spec fn env(self) -> Map<Seq<char>, i64> {
        assoc_env(self.variables@)
    }

    /// The last value computed, absent before the first expression.
    pub open spec fn spec_last_value(self) -> Option<i64> {
        self.last_value
    }

    pub fn new() -> (r: Self)
        ensures
            r.spec_last_value() is None,
            r.env() == Map::<Seq<char>, i64>::empty(),
    {
        Self { last_value: None, variables: Vec::new() }
    }

    /// Looks a name up: the latest binding wins.
    fn lookup(&self, name: &String) -> (r: Option<i64>)
        ensures
            match r {
                Some(v) => self.env().dom().contains(name@) && v == self.env()[name@],
                None => !self.env().dom().contains(name@),
            },
    {
        let ghost entries = self.variables@;
        let mut i: usize = self.variables.len();
        while i > 0
            invariant
                i <= entries.len(),
                entries == self.variables@,
                forall|j: int| i <= j < entries.len() ==> (#[trigger] entries[j]).0@ != name@,
            decreases i,
        {
            i = i - 1;
            if self.variables[i].0 == *name {
                proof {
                    lemma_assoc_env_skip(entries, i + 1, name@);
                    assert(entries.take(i + 1).drop_last() =~= entries.take(i as int));
                    assert(entries.take(i + 1).last() == entries[i as int]);
                }
                return Some(self.variables[i].1);
            }
        }
        proof {
            lemma_assoc_env_skip(entries, 0, name@);
            assert(entries.take(0) =~= Seq::<(String, i64)>::empty());
        }
        None
    }

    /// Binds a name, overwriting any earlier binding.
    fn assign(&mut self, name: String, value: i64)
        ensures
            final(self).env() == old(self).env().insert(name@, value),
            final(self).spec_last_value() == old(self).spec_last_value(),
    {
        let ghost n = name@;
        self.variables.push((name, value));
        proof {
            assert(self.variables@.drop_last() =~= old(self).variables@);
        }
    }

    /// Evaluates one expression, remembering its value as the last one
    /// computed.  The tree must already be free of `Error` nodes: the
    /// pipeline only evaluates after a clean parse.
    pub fn evaluate_expression(&mut self, expression: &SyntaxTreeExpression) -> (r: Result<
        i64,
        EvalError,
    >)
        requires
            error_free(expression@),
        ensures
            final(self).env() == old(self).env(),
            r == ev_expr(old(self).env(), expression@),
            r is Ok ==> final(self).spec_last_value() == Some(r->Ok_0),
        decreases *expression,
    {
        match &expression.kind {
            SyntaxTreeExpressionKind::Number(n) => {
                self.last_value = Some(n.number);
                Ok(n.number)
            },
            SyntaxTreeExpressionKind::Binary(b) => {
                let left = match self.evaluate_expression(&b.left) {
                    Ok(v) => v,
                    Err(err) => {
                        return Err(err);
                    },
                };
                let right = match self.evaluate_expression(&b.right) {
                    Ok(v) => v,
                    Err(err) => {
                        return Err(err);
                    },
                };
                let combined = match apply_binary_values(b.operator.kind, left, right) {
                    Ok(v) => v,
                    Err(err) => {
                        return Err(err);
                    },
                };
                self.last_value = Some(combined);
                Ok(combined)
            },
            SyntaxTreeExpressionKind::Unary(u) => {
                let operand = match self.evaluate_expression(&u.operand) {
                    Ok(v) => v,
                    Err(err) => {
                        return Err(err);
                    },
                };
                let value = apply_unary_value(u.operator.kind, operand);
                self.last_value = Some(value);
                Ok(value)
            },
            SyntaxTreeExpressionKind::Parenthesised(p) => self.evaluate_expression(&p.expression),
            SyntaxTreeExpressionKind::Variable(v) => {
                match self.lookup(&v.identifier.span.literal) {
                    Some(value) => {
                        self.last_value = Some(value);
                        Ok(value)
                    },
                    None => Err(EvalError::UndeclaredVariable),
                }
            },
            SyntaxTreeExpressionKind::Error(_) => {
                proof {
                    assert(false);
                }
                Err(EvalError::UndeclaredVariable)
            },
        }
    }

    /// Evaluates one statement; a `let` evaluates its initialiser, then binds
    /// its identifier.
    pub fn evaluate_statement(&mut self, statement: &SyntaxTreeStatement) -> (r: Result<
        (),
        EvalError,
    >)
        requires
            stmt_error_free(statement@),
        ensures
            match ev_stmt(old(self).env(), statement@) {
                Ok((env2, v)) => r is Ok && final(self).env() == env2
                    && final(self).spec_last_value() == Some(v),
                Err(err) => r == Err::<(), EvalError>(err),
            },
    {
        match &statement.kind {
            super::statement::SyntaxTreeStatementKind::Expression(e) => {
                match self.evaluate_expression(e) {
                    Ok(_) => Ok(()),
                    Err(err) => Err(err),
                }
            },
            super::statement::SyntaxTreeStatementKind::Let(l) => {
                let value = match self.evaluate_expression(&l.initialiser) {
                    Ok(v) => v,
                    Err(err) => {
                        return Err(err);
                    },
                };
                let name = l.identifier.span.literal.clone();
                self.assign(name, value);
                Ok(())
            },
        }
    }

    /// Evaluates a whole statement sequence in order, stopping at the first
    /// fatal fault.
    pub fn evaluate(&mut self, statements: &Vec<SyntaxTreeStatement>) -> (r: Result<
        (),
        EvalError,
    >)
        requires
            stmts_error_free(statements@.map_values(|s: SyntaxTreeStatement| s@)),
        ensures
            ({
                let views = statements@.map_values(|s: SyntaxTreeStatement| s@);
                match ev_stmts(old(self).env(), old(self).spec_last_value(), views) {
                    Ok((env2, last2)) => r is Ok && final(self).env() == env2
                        && final(self).spec_last_value() == last2,
                    Err(err) => r == Err::<(), EvalError>(err),
                }
            }),
    {
        let ghost views = statements@.map_values(|s: SyntaxTreeStatement| s@);
        let ghost full = ev_stmts(self.env(), self.spec_last_value(), views);
        proof {
            assert(views.skip(0) =~= views);
        }
        let n = statements.len();
        let mut i: usize = 0;
        while i < n
            invariant
                n == statements@.len(),
                i <= n,
                views == statements@.map_values(|s: SyntaxTreeStatement| s@),
                stmts_error_free(views),
                full == ev_stmts(old(self).env(), old(self).spec_last_value(), views),
                full == ev_stmts(self.env(), self.spec_last_value(), views.skip(i as int)),
            decreases n - i,
        {
            let ghost env_before = self.env();
            let ghost last_before = self.spec_last_value();
            proof {
                assert(views[i as int] == statements@[i as int]@);
                assert(views.skip(i as int)[0] == views[i as int]);
                assert(views.skip(i as int).drop_first() =~= views.skip(i + 1));
            }
            let r = self.evaluate_statement(&statements[i]);
            match r {
                Ok(_) => {},
                Err(err) => {
                    proof {
                        assert(full == ev_stmts(env_before, last_before, views.skip(i as int)));
                        assert(full == Err::<(Map<Seq<char>, i64>, Option<i64>), EvalError>(err));
                    }
                    return Err(err);
                },
            }
            i = i + 1;
        }
        proof {
            assert(views.skip(n as int) =~= Seq::<StmtView>::empty());
        }
        Ok(())
    }
}

/// Computes one binary operator application, matching `apply_binary` exactly.
fn apply_binary_values(kind: BinaryOperatorKind, a: i64, b: i64) -> (r: Result<i64, EvalError>)
    ensures
        r == apply_binary(kind, a, b),
{
    match kind {
        BinaryOperatorKind::Plus => Ok(a.wrapping_add(b)),
        BinaryOperatorKind::Minus => Ok(a.wrapping_sub(b)),
        BinaryOperatorKind::Multiply => Ok(a.wrapping_mul(b)),
        BinaryOperatorKind::Divide => {
            if b == 0 {
                Err(EvalError::DivideByZero)
            } else {
                match a.checked_div(b) {
                    Some(v) => Ok(v),
                    None => Ok(i64::MIN),
                }
            }
        },
        BinaryOperatorKind::Power => Ok(pow_values(a, b)),
        BinaryOperatorKind::BitwiseAnd => Ok(a & b),
        BinaryOperatorKind::BitwiseOr => Ok(a | b),
        BinaryOperatorKind::BitwiseXor => Ok(a ^ b),
    }
}

/// Computes one prefix operator application, matching `apply_unary` exactly.
fn apply_unary_value(kind: UnaryOperatorKind, v: i64) -> (r: i64)
    ensures
        r == apply_unary(kind, v),
{
    match kind {
        UnaryOperatorKind::Minus => 0i64.wrapping_sub(v),
        UnaryOperatorKind::BitwiseNot => (-1i64) ^ v,
    }
}

/// Repeated wrapping multiplication, matching `pow_wrap` exactly.
fn pow_values(base: i64, exp: i64) -> (r: i64)
    ensures
        r == pow_wrap(base, exp),
{
    if exp < 0 {
        return 0;
    }
    let mut acc: i64 = 1;
    let mut i: i64 = 0;
    while i < exp
        invariant
            0 <= i <= exp,
            acc == pow_wrap(base, i),
        decreases exp - i,
    {
        acc = acc.wrapping_mul(base);
        i = i + 1;
    }
    acc
}

} // verus!
