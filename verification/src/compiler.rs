//! The compiler driver: lexer, parser and module generator in sequence,
//! returning the artifacts of a successful compile or a tagged error
//! naming the phase that failed.

use vstd::prelude::*;

use crate::ast::{Program, ProgramV};
use crate::codegen::module::{compile_program_s, declare_all_s, emit_all_s, init_module_s,
    program_fits, CodegenError, CodegenErrorV, ModuleGen, ModuleGenV};
use crate::codegen::wasm;
use crate::lexer::{lex_file, lex_spec, LexError};
use crate::parser::{parse_program_s, toks_view, ParseError, ParseErrorV, Parser};
use crate::token::Token;
use vstd::string::StringSliceAdditionalSpecFns;

verus! {

/// Compiled artifacts produced by the compiler frontend + backend
/// pipeline.
#[derive(Debug)]
pub struct CompileArtifacts {
    /// Token stream emitted by the lexer.
    pub tokens: Vec<Token>,
    /// Parsed AST program.
    pub program: Program,
    /// Generated binary module bytes.
    pub bytes: Vec<u8>,
    /// Number of parameters expected by `main`.
    pub main_param_count: usize,
}

/// Structured compile errors keeping the three phases' failures distinct.
#[derive(Debug)]
pub enum CompileError {
    /// Lexing failed.
    Lex(LexError),
    /// Parsing failed.
    Parse(ParseError),
    /// Code generation failed.
    Codegen(CodegenError),
}

/// Model of a compile error.
pub enum CompileErrorV {
    Lex(LexError),
    Parse(ParseErrorV),
    Codegen(CodegenErrorV),
}

impl View for CompileError {
    type V = CompileErrorV;

    open spec fn view(&self) -> CompileErrorV {
        match self {
            CompileError::Lex(e) => CompileErrorV::Lex(*e),
            CompileError::Parse(e) => CompileErrorV::Parse(e@),
            CompileError::Codegen(e) => CompileErrorV::Codegen(e@),
        }
    }
}

/// The whole pipeline on the source bytes: the generated module sections,
/// or the first error of the first failing phase.
pub open spec fn compile_spec(bs: Seq<u8>) -> Result<ModuleGenV, CompileErrorV> {
    match lex_spec(bs) {
        Err(e) => Err(CompileErrorV::Lex(e)),
        Ok(toks) => match parse_program_s(toks, 0) {
            Err(e) => Err(CompileErrorV::Parse(e)),
            Ok(pr) => match compile_program_s(pr.0) {
                Err(e) => Err(CompileErrorV::Codegen(e)),
                Ok(m) => Ok(m),
            },
        },
    }
}

/// The source program, if it lexes and parses, stays within the target's
/// 32-bit index spaces. This machine limit is the one assumption the
/// compiler makes of its input.
pub open spec fn compile_fits(bs: Seq<u8>) -> bool {
    match lex_spec(bs) {
        Err(_) => true,
        Ok(toks) => match parse_program_s(toks, 0) {
            Err(_) => true,
            Ok(pr) => program_fits(pr.0),
        },
    }
}

/// The parameter count of the first function named `main`, or zero.
pub open spec fn main_param_count_s(fs: Seq<crate::ast::FunctionDeclV>) -> nat
    decreases fs,
{
    if fs.len() == 0 {
        0
    } else if fs[0].name == "main"@ {
        fs[0].params.len()
    } else {
        main_param_count_s(fs.subrange(1, fs.len() as int))
    }
}

/// Compiles source text to binary module bytes, keeping the intermediate
/// artifacts. The phases run in order and the first error aborts the
/// compile: no partial module is ever returned.
#[verifier::loop_isolation(false)]
#[verifier::rlimit(100)]
pub fn compile_source(src: &str) -> (r: Result<CompileArtifacts, CompileError>)
    requires
        compile_fits(src.spec_bytes()),
    ensures
        (match r {
            Ok(a) => {
                &&& compile_spec(src.spec_bytes()) matches Ok(m)
                &&& lex_spec(src.spec_bytes()) matches Ok(toks)
                &&& a.tokens.deep_view() == toks
                &&& parse_program_s(toks, 0) matches Ok(pr)
                &&& a.program@ == pr.0
                &&& a.bytes@ == wasm::module_bytes(
                    m.types,
                    m.imports,
                    m.functions,
                    m.exports,
                    m.codes,
                )
                &&& a.main_param_count as nat == main_param_count_s(pr.0.functions)
            },
            Err(e) => compile_spec(src.spec_bytes()) == Err::<ModuleGenV, CompileErrorV>(e@),
        }),
{
    let ghost bs = src.spec_bytes();
    let tokens = match lex_file(src) {
        Ok(t) => t,
        Err(e) => {
            return Err(CompileError::Lex(e));
        },
    };
    let ghost toks = tokens.deep_view();
    proof {
        crate::parser::lemma_lex_stream_wf(bs, 0);
        assert(toks_view(tokens@) =~= toks);
    }
    let mut parser = Parser::new(tokens.as_slice());
    let program = match parser.parse_program() {
        Ok(p) => p,
        Err(e) => {
            return Err(CompileError::Parse(e));
        },
    };
    let ghost pv: ProgramV = program@;
    let ghost fsv = pv.functions;
    let mut module_gen = ModuleGen::new().init_with_host_functions();
    proof {
        assert(fsv.subrange(0, fsv.len() as int) =~= fsv);
        assert(program.functions@.len() == fsv.len());
    }
    let mut idx: usize = 0;
    while idx < program.functions.len()
        invariant
            idx <= program.functions@.len(),
            module_gen@.syms.len() == idx + 1,
            module_gen@.next_type == idx + 1,
            declare_all_s(fsv, init_module_s()) == declare_all_s(
                fsv.subrange(idx as int, fsv.len() as int),
                module_gen@,
            ),
        decreases program.functions@.len() - idx,
    {
        let ghost suffix = fsv.subrange(idx as int, fsv.len() as int);
        proof {
            assert(suffix[0] == fsv[idx as int]);
            assert(program.functions@[idx as int]@ == fsv[idx as int]);
            assert(suffix.subrange(1, suffix.len() as int) =~= fsv.subrange(
                idx + 1,
                fsv.len() as int,
            ));
        }
        let f = &program.functions[idx];
        match module_gen.declare_function(f) {
            Ok(_) => (),
            Err(e) => {
                return Err(CompileError::Codegen(e));
            },
        }
        idx = idx + 1;
    }
    proof {
        assert(fsv.subrange(fsv.len() as int, fsv.len() as int) =~= Seq::<
            crate::ast::FunctionDeclV,
        >::empty());
    }
    let ghost m1 = module_gen@;
    let ghost syms1 = m1.syms;
    proof {
        assert(declare_all_s(fsv, init_module_s()) == Ok::<ModuleGenV, CodegenErrorV>(m1));
    }
    let mut jdx: usize = 0;
    while jdx < program.functions.len()
        invariant
            jdx <= program.functions@.len(),
            module_gen@.syms == syms1,
            emit_all_s(fsv, syms1, m1) == emit_all_s(
                fsv.subrange(jdx as int, fsv.len() as int),
                syms1,
                module_gen@,
            ),
        decreases program.functions@.len() - jdx,
    {
        let ghost suffix = fsv.subrange(jdx as int, fsv.len() as int);
        proof {
            assert(suffix[0] == fsv[jdx as int]);
            assert(program.functions@[jdx as int]@ == fsv[jdx as int]);
            assert(suffix.subrange(1, suffix.len() as int) =~= fsv.subrange(
                jdx + 1,
                fsv.len() as int,
            ));
        }
        let f = &program.functions[jdx];
        match module_gen.emit_function(f) {
            Ok(_) => (),
            Err(e) => {
                return Err(CompileError::Codegen(e));
            },
        }
        jdx = jdx + 1;
    }
    proof {
        assert(fsv.subrange(fsv.len() as int, fsv.len() as int) =~= Seq::<
            crate::ast::FunctionDeclV,
        >::empty());
    }
    let main_name = String::from_str("main");
    let mut main_param_count: usize = 0;
    let mut kdx: usize = 0;
    let mut found = false;
    while kdx < program.functions.len() && !found
        invariant
            kdx <= program.functions@.len(),
            !found ==> main_param_count == 0 && main_param_count_s(fsv) == main_param_count_s(
                fsv.subrange(kdx as int, fsv.len() as int),
            ),
            found ==> main_param_count as nat == main_param_count_s(fsv),
            main_name@ == "main"@,
        decreases program.functions@.len() - kdx + (if found { 0int } else { 1int }),
    {
        let ghost suffix = fsv.subrange(kdx as int, fsv.len() as int);
        proof {
            assert(suffix[0] == fsv[kdx as int]);
            assert(program.functions@[kdx as int]@ == fsv[kdx as int]);
            assert(suffix.subrange(1, suffix.len() as int) =~= fsv.subrange(
                kdx + 1,
                fsv.len() as int,
            ));
        }
        let f = &program.functions[kdx];
        if f.name == main_name {
            main_param_count = f.params.len();
            found = true;
            proof {
                assert(fsv[kdx as int].params.len() == f.params@.len());
            }
        } else {
            kdx = kdx + 1;
        }
    }
    proof {
        if !found {
            assert(fsv.subrange(fsv.len() as int, fsv.len() as int) =~= Seq::<
                crate::ast::FunctionDeclV,
            >::empty());
        }
    }
    let bytes = module_gen.finish();
    Ok(CompileArtifacts { tokens, program, bytes, main_param_count })
}

} // verus!

// Determinism of the pipeline.

verus! {

/// Lexing and parsing are pure, deterministic functions of the input
/// text: identical input always yields an identical token stream, an
/// identical AST, and an identical compile result.
pub proof fn lemma_pipeline_deterministic(s1: Seq<u8>, s2: Seq<u8>)
    requires
        s1 == s2,
    ensures
        lex_spec(s1) == lex_spec(s2),
        (lex_spec(s1) matches Ok(toks) ==> parse_program_s(toks, 0) == parse_program_s(
            lex_spec(s2)->Ok_0,
            0,
        )),
        compile_spec(s1) == compile_spec(s2),
{
}

} // verus!
