use minilang::codegen::module::CodegenError;
use minilang::compiler::{compile_source, CompileError};
use minilang::diagnostics::render_snippet;
use minilang::token::Span;

#[test]
fn compile_source_tracks_main_arity() {
    let src = "fn helper(x) -> Int { return x; } fn main(a, b, c) -> Int { return a; }";
    let out = compile_source(src).expect("compile failed");
    assert_eq!(out.main_param_count, 3);
    assert!(!out.bytes.is_empty());
    assert!(!out.tokens.is_empty());
}

#[test]
fn compile_source_rejects_duplicate_function_names() {
    let src = "fn main() -> Int { return 1; } fn main() -> Int { return 2; }";
    let err = compile_source(src).expect_err("expected duplicate-function error");
    match err {
        CompileError::Codegen(CodegenError::DuplicateFunction { name }) => {
            assert_eq!(name, "main")
        }
        _ => panic!("unexpected error variant"),
    }
}

#[test]
fn generated_wat_contains_main_export() {
    let src = "fn main() -> Int { return 5; }";
    let out = compile_source(src).expect("compile failed");
    let wat = wasmprinter::print_bytes(&out.bytes).expect("wat conversion failed");
    assert!(wat.contains("(export \"main\" (func"));
    assert!(wat.contains("(func (;"));
}

#[test]
fn compile_forward_reference_succeeds() {
    // f calls g although g is declared later in the program
    let src = "fn f() -> Int { return g(); } fn g() -> Int { return 7; }";
    let out = compile_source(src).expect("forward reference should compile");
    assert!(!out.bytes.is_empty());
}

#[test]
fn compile_unknown_local_errors() {
    let src = "fn main() -> Int { return missing; }";
    let err = compile_source(src).expect_err("expected unknown-local error");
    match err {
        CompileError::Codegen(CodegenError::UnknownLocal { name }) => {
            assert_eq!(name, "missing")
        }
        _ => panic!("unexpected error variant"),
    }
}

#[test]
fn compile_unknown_function_errors() {
    let src = "fn main() -> Int { return nosuch(1); }";
    let err = compile_source(src).expect_err("expected unknown-function error");
    match err {
        CompileError::Codegen(CodegenError::UnknownFunction { name }) => {
            assert_eq!(name, "nosuch")
        }
        _ => panic!("unexpected error variant"),
    }
}

#[test]
fn generated_module_structure() {
    // exactly one import, and one export per declared function
    let src = "fn a() -> Int { return 1; } fn b() -> Int { return 2; }";
    let out = compile_source(src).expect("compile failed");
    let wat = wasmprinter::print_bytes(&out.bytes).expect("wat conversion failed");
    assert_eq!(wat.matches("(import ").count(), 1);
    assert!(wat.contains("(import \"env\" \"print_i64\""));
    assert_eq!(wat.matches("(export ").count(), 2);
    assert!(wat.contains("(export \"a\" (func"));
    assert!(wat.contains("(export \"b\" (func"));
}

#[test]
fn compile_lex_error_is_tagged() {
    let err = compile_source("fn main() { ? }").expect_err("expected lex error");
    assert!(matches!(err, CompileError::Lex(_)));
}

#[test]
fn compile_parse_error_is_tagged() {
    let err = compile_source("fn main( { }").expect_err("expected parse error");
    assert!(matches!(err, CompileError::Parse(_)));
}

#[test]
fn render_snippet_points_to_expected_column() {
    let src = "fn main() {\n  return 42;\n}";
    let start = src.find("42").expect("literal missing");
    let span = Span {
        start,
        end: start + 2,
    };
    let snippet = render_snippet(src, &span);
    assert_eq!(snippet.line, 2);
    assert_eq!(snippet.column, 10);
    assert_eq!(snippet.source_line, "  return 42;");
    assert_eq!(snippet.marker_line, "         ^^");
}
