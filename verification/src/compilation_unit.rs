//! The pipeline: lex the input, parse the tokens while collecting
//! diagnostics, then run the symbol checker; evaluation is gated twice on the
//! glossary being empty, once after parsing and once after checking.

use crate::diagnostics::DiagnosticGlossary;
use crate::symbols::{undeclared_diagnostics, undeclared_in_stmts, SymbolChecker};
use crate::syntax::evaluator::{program_result, EvalError, Evaluator};
use crate::syntax::lexer::{spec_tokens, token_views, Lexer, Token};
use crate::syntax::parser::{filter_ws, lemma_clean_parse_error_free, sp_program, Parser};
use crate::syntax::statement::stmts_error_free;
use crate::syntax::SyntaxTree;
use vstd::prelude::*;

verus! {

/// What compiling a given text must produce: the parsed statements, the
/// parser's diagnostics, and — only when parsing was clean — the symbol
/// checker's diagnostics after them.
pub open spec fn compile_spec(input: Seq<char>, r: CompilationUnit) -> bool {
    let vt = filter_ws(spec_tokens(input, 0));
    let parsed = sp_program(vt);
    &&& r.st@ == parsed.stmts
    &&& r.diagnostic_glossary@ == parsed.diags + (if parsed.diags.len() == 0 {
        undeclared_diagnostics(undeclared_in_stmts(Set::empty(), parsed.stmts))
    } else {
        Seq::empty()
    })
}

/// The result of one compilation: the tree, and every diagnostic reported
/// while producing it.
pub struct CompilationUnit {
    pub st: SyntaxTree,
    pub diagnostic_glossary: DiagnosticGlossary,
}

impl CompilationUnit {
    /// A compilation result whose glossary is empty carries a tree free of
    /// error nodes, so it may be evaluated.
    pub open spec fn wf(self) -> bool {
        self.diagnostic_glossary@.len() == 0 ==> stmts_error_free(self.st@)
    }

    /// Runs lexer, parser and symbol checker over `input` and collects every
    /// diagnostic; never fails, whatever the input.
    pub fn compile(input: &str) -> (r: CompilationUnit)
        requires
            input@.len() < usize::MAX,
        ensures
            compile_spec(input@, r),
            r.wf(),
    {
        let ghost text = input@;
        let mut lexer = Lexer::new(input);
        let mut tokens: Vec<Token> = Vec::new();
        loop
            invariant
                lexer.wf(),
                lexer.spec_input() == text,
                token_views(tokens@) + spec_tokens(text, lexer.spec_position()) == spec_tokens(
                    text,
                    0,
                ),
            ensures
                token_views(tokens@) == spec_tokens(text, 0),
            decreases text.len() + 1 - lexer.spec_position(),
        {
            let ghost pos = lexer.spec_position();
            let token = match lexer.next_token() {
                Some(token) => token,
                None => {
                    proof {
                        assert(token_views(tokens@) + spec_tokens(text, pos) =~= token_views(
                            tokens@,
                        ));
                    }
                    break;
                },
            };
            let ghost tok_view = token@;
            tokens.push(token);
            proof {
                assert(token_views(tokens@) =~= token_views(tokens@.drop_last()).push(tok_view));
                if pos < text.len() {
                    crate::syntax::lexer::lemma_token_width_bounds(text, pos);
                    assert(spec_tokens(text, pos) == seq![tok_view] + spec_tokens(
                        text,
                        lexer.spec_position(),
                    ));
                } else {
                    assert(spec_tokens(text, pos) =~= seq![tok_view]);
                    assert(spec_tokens(text, lexer.spec_position()) =~= Seq::<
                        crate::syntax::lexer::TokenView,
                    >::empty());
                }
                assert(token_views(tokens@) + spec_tokens(text, lexer.spec_position())
                    =~= token_views(tokens@.drop_last()) + spec_tokens(text, pos));
            }
        }
        proof {
            crate::syntax::lexer::lemma_spec_tokens_shape(text, 0);
        }

        let ghost vt = filter_ws(spec_tokens(text, 0));
        let ghost parsed = sp_program(vt);
        proof {
            crate::syntax::parser::lemma_filter_ws_keeps_last(spec_tokens(text, 0));
        }
        let diagnostic_glossary = DiagnosticGlossary::new();
        let mut syntax_tree: SyntaxTree = SyntaxTree::new();
        let mut parser = Parser::new(tokens, diagnostic_glossary);
        loop
            invariant
                parser.wf(),
                parser.vt() == vt,
                parsed == sp_program(vt),
                vt.len() >= 1,
                vt.last().kind is Eof,
                syntax_tree@ + crate::syntax::parser::sp_program_loop(vt, parser.cursor()).stmts
                    == parsed.stmts,
                parser.diags() + crate::syntax::parser::sp_program_loop(
                    vt,
                    parser.cursor(),
                ).diags == parsed.diags,
            ensures
                parser.wf(),
                parser.vt() == vt,
                syntax_tree@ == parsed.stmts,
                parser.diags() == parsed.diags,
            decreases vt.len() - parser.cursor(),
        {
            let ghost cur = parser.cursor();
            let ghost rest = crate::syntax::parser::sp_program_loop(vt, cur);
            let ghost d_before = parser.diags();
            let stmt = match parser.next_statement() {
                Some(stmt) => stmt,
                None => {
                    proof {
                        assert(rest.stmts =~= Seq::<crate::syntax::statement::StmtView>::empty());
                        assert(rest.diags =~= Seq::<
                            crate::diagnostics::DiagnosticView,
                        >::empty());
                        assert(syntax_tree@ + rest.stmts =~= syntax_tree@);
                        assert(parser.diags() + rest.diags =~= parser.diags());
                    }
                    break;
                },
            };
            let ghost stmt_out = crate::syntax::parser::sp_statement(vt, cur);
            let ghost st_before = syntax_tree@;
            syntax_tree.add_statement(stmt);
            proof {
                let next = crate::syntax::parser::sp_program_loop(vt, cur + 1 + stmt_out.extra);
                assert(cur < vt.len()) by {
                    if cur >= vt.len() {
                        assert(crate::syntax::parser::tv_at(vt, cur).kind
                            is Eof);
                    }
                };
                assert(rest.stmts == seq![stmt_out.stmt] + next.stmts);
                assert(rest.diags == stmt_out.diags + next.diags);
                if cur + 1 + stmt_out.extra > vt.len() {
                    assert(crate::syntax::parser::sp_program_loop(vt, parser.cursor()) == next);
                }
                assert(syntax_tree@ + next.stmts =~= st_before + (seq![stmt_out.stmt]
                    + next.stmts));
                assert(parser.diags() + next.diags =~= d_before + (stmt_out.diags + next.diags));
            }
        }
        let glossary = parser.into_diagnostics();

        if Self::diagnose(&glossary).is_err() {
            let r = Self::create_compilation_unit(syntax_tree, glossary);
            proof {
                assert(r.diagnostic_glossary@ =~= parsed.diags + Seq::<
                    crate::diagnostics::DiagnosticView,
                >::empty());
            }
            return r;
        }
        proof {
            lemma_clean_parse_error_free(vt, 0);
        }
        let mut symbol_checker = SymbolChecker::new(glossary);
        symbol_checker.check_tree(&syntax_tree);
        let checked_glossary = symbol_checker.into_diagnostics();
        let r = Self::create_compilation_unit(syntax_tree, checked_glossary);
        proof {
            assert(r.diagnostic_glossary@ =~= parsed.diags + undeclared_diagnostics(
                undeclared_in_stmts(Set::empty(), parsed.stmts),
            ));
        }
        r
    }

    /// Whether the glossary is still clean: an error means diagnostics exist
    /// and evaluation must not start.
    fn diagnose(diagnostic_glossary: &DiagnosticGlossary) -> (r: Result<(), ()>)
        ensures
            r is Ok <==> diagnostic_glossary@.len() == 0,
    {
        if diagnostic_glossary.diagnostics.len() > 0 {
            return Err(());
        }
        Ok(())
    }

    fn create_compilation_unit(st: SyntaxTree, diagnostic_glossary: DiagnosticGlossary) -> (r:
        CompilationUnit)
        ensures
            r.st == st,
            r.diagnostic_glossary == diagnostic_glossary,
    {
        CompilationUnit { st, diagnostic_glossary }
    }

    /// Evaluates only when no diagnostic was reported; any diagnostic at all
    /// keeps the program from running.
    pub fn prerun(&self) -> (r: Option<Result<Option<i64>, EvalError>>)
        requires
            self.wf(),
        ensures
            self.diagnostic_glossary@.len() > 0 ==> r is None,
            self.diagnostic_glossary@.len() == 0 ==> r == Some(program_result(self.st@)),
    {
        if self.diagnostic_glossary.diagnostics.len() > 0 {
            return None;
        }
        Some(self.run())
    }

    /// Evaluates the tree from a fresh environment and hands back the value
    /// of its last statement (absent for an empty program), or the fatal
    /// fault that stopped evaluation.
    pub fn run(&self) -> (r: Result<Option<i64>, EvalError>)
        requires
            stmts_error_free(self.st@),
        ensures
            r == program_result(self.st@),
    {
        let mut evaluate = Evaluator::new();
        match evaluate.evaluate(&self.st.statements) {
            Ok(_) => Ok(evaluate.last_value),
            Err(err) => Err(err),
        }
    }
}

} // verus!
