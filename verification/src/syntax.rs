//! Syntax analysis: tokens, the abstract syntax tree and the passes over it.

pub mod evaluator;
pub mod expression;
pub mod lexer;
pub mod parser;
pub mod printer;
pub mod statement;
pub mod types;
pub mod visitor;

use self::statement::{StmtView, SyntaxTreeStatement};
use self::visitor::SyntaxTreeVisitor;
use vstd::prelude::*;

verus! {

/// An ordered sequence of top-level statements, insertion order equal to
/// source order; owned by one compilation result.
pub struct SyntaxTree {
    pub statements: Vec<SyntaxTreeStatement>,
}

impl View for SyntaxTree {
    type V = Seq<StmtView>;

    open spec fn view(&self) -> Seq<StmtView> {
        self.statements@.map_values(|s: SyntaxTreeStatement| s@)
    }
}

impl SyntaxTree {
    pub fn new() -> (r: Self)
        ensures
            r@ == Seq::<StmtView>::empty(),
    {
        let r = Self { statements: Vec::new() };
        proof {
            assert(r@ =~= Seq::<StmtView>::empty());
        }
        r
    }

    pub fn add_statement(&mut self, statement: SyntaxTreeStatement)
        ensures
            final(self)@ == old(self)@.push(statement@),
    {
        let ghost v = statement@;
        self.statements.push(statement);
        proof {
            assert(self@ =~= old(self)@.push(v));
        }
    }

    /// Walks the tree statement by statement with the given visitor.
    pub fn visit<V: SyntaxTreeVisitor>(&self, visitor: &mut V) {
        let n = self.statements.len();
        let mut i: usize = 0;
        while i < n
            invariant
                n == self.statements@.len(),
                i <= n,
            decreases n - i,
        {
            visitor.visit_statement(&self.statements[i]);
            i = i + 1;
        }
    }
}

} // verus!
