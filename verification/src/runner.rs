//! Compiling source text straight to binary module bytes, for callers
//! that only want the module. Loading and executing the module is the
//! execution host's business, outside this library.

use vstd::prelude::*;

use crate::codegen::wasm;
use crate::compiler::{compile_fits, compile_source, compile_spec, CompileError, CompileErrorV};
use vstd::string::StringSliceAdditionalSpecFns;

verus! {

/// Compiles source to binary module bytes, reporting a failed phase as a
/// short message.
pub fn compile_bytes_from_src(src: &str) -> (r: Result<Vec<u8>, String>)
    requires
        compile_fits(src.spec_bytes()),
    ensures
        (match r {
            Ok(b) => {
                &&& compile_spec(src.spec_bytes()) matches Ok(m)
                &&& b@ == wasm::module_bytes(m.types, m.imports, m.functions, m.exports, m.codes)
            },
            Err(msg) => {
                &&& compile_spec(src.spec_bytes()) is Err
                &&& (match compile_spec(src.spec_bytes()) {
                    Err(CompileErrorV::Lex(_)) => msg@ == "lex error"@,
                    Err(CompileErrorV::Parse(_)) => msg@ == "parse error"@,
                    Err(CompileErrorV::Codegen(_)) => msg@ == "codegen error"@,
                    Ok(_) => false,
                })
            },
        }),
{
    match compile_source(src) {
        Ok(artifacts) => Ok(artifacts.bytes),
        Err(CompileError::Lex(_)) => Err(String::from_str("lex error")),
        Err(CompileError::Parse(_)) => Err(String::from_str("parse error")),
        Err(CompileError::Codegen(_)) => Err(String::from_str("codegen error")),
    }
}

} // verus!
