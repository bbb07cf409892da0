//! A compiler for the Tol language: source text is lexed, parsed and
//! analysed, and lowered to C.

use vstd::prelude::*;
use crate::codegen::CodeGenerator;
use crate::codegen::lowering::emitted;
use crate::error::{CompilerError, CompilerErrorView, errors_view};
use crate::lexer::Lexer;
use crate::lexer::rules::{lemma_token_count, lexed};
use crate::lexer::token::{Token, tokens_view};
use crate::parser::Parser;
use crate::parser::ast::stmt::{StmtView, stmts_view};
use crate::parser::module::Module;
use crate::parser::statements::parse_program;
use crate::semantic_analyzer::SemanticAnalyzer;
use crate::semantic_analyzer::checking::analyzed;

pub mod codegen;
pub mod error;
pub mod lexer;
pub mod parser;
pub mod semantic_analyzer;
pub mod symbol;
pub mod text;
pub mod toltype;

verus! {

/// What becomes of a source text: its tokens, what the stages had to say
/// of it, and its C text.
pub struct Compilation {
    pub tokens: Vec<Token>,
    pub diagnostics: Vec<CompilerError>,
    pub c_code: Option<String>,
}

/// The statements that a source text is parsed to.
pub open spec fn program_of(source: Seq<char>) -> Seq<StmtView> {
    parse_program(lexed(source).tokens).statements
}

/// The diagnostics of all stages for a source text: those of the lexer,
/// then those of the parser, then those of the analyzer.
pub open spec fn diagnostics_of(source: Seq<char>) -> Seq<CompilerErrorView> {
    lexed(source).errors + parse_program(lexed(source).tokens).state.errors + analyzed(
        program_of(source),
    ).errors
}

/// The C text of a source text: there is one where no stage has a
/// diagnostic and the program can be lowered.
pub open spec fn c_code_of(source: Seq<char>) -> Option<Seq<char>> {
    if diagnostics_of(source).len() > 0 {
        None
    } else {
        let tables = analyzed(program_of(source)).tables;
        emitted(tables.inferred, tables.arrays, program_of(source))
    }
}

/// Appends copies of the diagnostics of a stage.
fn collect(all: &mut Vec<CompilerError>, stage: &Vec<CompilerError>)
    ensures
        errors_view(final(all)@) == errors_view(old(all)@) + errors_view(stage@),
{
    let mut i: usize = 0;
    assert(errors_view(all@) =~= errors_view(old(all)@) + errors_view(stage@).take(0));
    while i < stage.len()
        invariant
            0 <= i <= stage.len(),
            errors_view(all@) == errors_view(old(all)@) + errors_view(stage@).take(i as int),
        decreases stage.len() - i,
    {
        let e = stage[i].duplicate();
        let ghost before = all@;
        all.push(e);
        assert(errors_view(all@) =~= errors_view(old(all)@) + errors_view(stage@).take(i + 1)) by {
            assert(errors_view(before.push(e)) =~= errors_view(before).push(e@));
        }
        i = i + 1;
    }
    assert(errors_view(stage@).take(stage.len() as int) =~= errors_view(stage@));
}

/// The first stage: the tokens of the source, in a module of their own.
fn lex_stage(source_code: String, source_path: String) -> (r: (Module, Vec<CompilerError>))
    requires
        source_code@.len() + 2 <= usize::MAX,
    ensures
        tokens_view(r.0.tokens@) == lexed(source_code@).tokens,
        errors_view(r.1@) == lexed(source_code@).errors,
{
    let module = Module::new(source_code, source_path);
    let mut lexer = Lexer::new(module);
    lexer.lex();
    let mut diagnostics: Vec<CompilerError> = Vec::new();
    assert(errors_view(diagnostics@) =~= Seq::empty());
    collect(&mut diagnostics, lexer.errors());
    assert(errors_view(diagnostics@) =~= lexed(source_code@).errors);
    (lexer.finish(), diagnostics)
}

/// The second stage: the statements of the tokens.
fn parse_stage(module: Module) -> (r: (Module, Vec<CompilerError>))
    requires
        2 * module.tokens@.len() <= usize::MAX,
    ensures
        r.0.tokens == module.tokens,
        stmts_view(r.0.ast@) == parse_program(tokens_view(module.tokens@)).statements,
        errors_view(r.1@) == parse_program(tokens_view(module.tokens@)).state.errors,
{
    let mut parser = Parser::new(module);
    parser.parse();
    let mut diagnostics: Vec<CompilerError> = Vec::new();
    assert(errors_view(diagnostics@) =~= Seq::empty());
    collect(&mut diagnostics, parser.errors());
    assert(errors_view(diagnostics@) =~= parse_program(
        tokens_view(module.tokens@),
    ).state.errors);
    (parser.finish(), diagnostics)
}

/// The third stage: the tables of the statements.
fn analyze_stage(module: Module) -> (r: (Module, Vec<CompilerError>))
    ensures
        r.0.tokens == module.tokens,
        r.0.ast == module.ast,
        crate::semantic_analyzer::inferred_view(r.0.inferred_types@) == analyzed(
            stmts_view(module.ast@),
        ).tables.inferred,
        crate::text::strings_view(r.0.declared_array_types@) == analyzed(
            stmts_view(module.ast@),
        ).tables.arrays,
        errors_view(r.1@) == analyzed(stmts_view(module.ast@)).errors,
{
    let mut analyzer = SemanticAnalyzer::new(module);
    analyzer.analyze();
    let mut diagnostics: Vec<CompilerError> = Vec::new();
    assert(errors_view(diagnostics@) =~= Seq::empty());
    collect(&mut diagnostics, analyzer.errors());
    assert(errors_view(diagnostics@) =~= analyzed(stmts_view(module.ast@)).errors);
    (analyzer.finish(), diagnostics)
}

/// The last stage: the C text of the statements.
fn emit_stage(module: &Module) -> (r: Option<String>)
    ensures
        match r {
            Some(c) => emitted(
                crate::semantic_analyzer::inferred_view(module.inferred_types@),
                crate::text::strings_view(module.declared_array_types@),
                stmts_view(module.ast@),
            ) == Some(c@),
            None => emitted(
                crate::semantic_analyzer::inferred_view(module.inferred_types@),
                crate::text::strings_view(module.declared_array_types@),
                stmts_view(module.ast@),
            ) is None,
        },
{
    let mut generator = CodeGenerator::new(module);
    generator.try_generate()
}

/// Takes a source text through all stages. Every stage runs, whatever the
/// one before it found; C is emitted only where none found anything.
pub fn compile_source(source_code: String, source_path: String) -> (t: Compilation)
    requires
        2 * source_code@.len() + 2 <= usize::MAX,
    ensures
        tokens_view(t.tokens@) == lexed(source_code@).tokens,
        errors_view(t.diagnostics@) == diagnostics_of(source_code@),
        match t.c_code {
            Some(c) => c_code_of(source_code@) == Some(c@),
            None => c_code_of(source_code@) is None,
        },
{
    proof {
        lemma_token_count(source_code@);
    }
    let (module, lexical) = lex_stage(source_code, source_path);
    let (module, syntactic) = parse_stage(module);
    let (module, semantic) = analyze_stage(module);
    let mut diagnostics: Vec<CompilerError> = Vec::new();
    assert(errors_view(diagnostics@) =~= Seq::empty());
    collect(&mut diagnostics, &lexical);
    collect(&mut diagnostics, &syntactic);
    collect(&mut diagnostics, &semantic);
    assert(errors_view(diagnostics@) =~= diagnostics_of(source_code@));
    let c_code = if diagnostics.len() == 0 {
        emit_stage(&module)
    } else {
        None
    };
    Compilation { tokens: module.tokens, diagnostics, c_code }
}

} // verus!
