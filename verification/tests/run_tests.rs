use std::sync::{Arc, Mutex};

use minilang::runner::compile_bytes_from_src;
use wasmtime::{Engine, Instance, Store, Val};

/// Runs compiled module bytes, calling the exported `main` with the given
/// 64-bit arguments and supplying a host `print_i64` that discards its
/// input.
fn run_wasm_bytes(bytes: &[u8], args: Vec<i64>) -> Result<Option<i64>, String> {
    let engine = Engine::default();
    let module = wasmtime::Module::from_binary(&engine, bytes)
        .map_err(|e| format!("module compile error: {}", e))?;

    let mut store = Store::new(&engine, ());
    let print_func = wasmtime::Func::wrap(&mut store, |v: i64| {
        println!("{}", v);
    });

    let instance = Instance::new(&mut store, &module, &[print_func.into()])
        .map_err(|e| format!("instance error: {}", e))?;

    let func = instance
        .get_func(&mut store, "main")
        .ok_or_else(|| "function `main` not found".to_string())?;

    let params: Vec<Val> = args.into_iter().map(Val::I64).collect();
    let ty = func.ty(&store);
    let results = ty.results().len();
    let mut results_buf: Vec<Val> = vec![Val::I64(0); results];

    func.call(&mut store, &params, &mut results_buf)
        .map_err(|e| format!("runtime error: {}", e))?;

    if results == 1 {
        if let Val::I64(v) = results_buf[0] {
            Ok(Some(v))
        } else {
            Err("unexpected return value type".to_string())
        }
    } else {
        Ok(None)
    }
}

/// Compiles source and runs its `main` with the given arguments.
fn run_source(src: &str, args: Vec<i64>) -> Result<Option<i64>, String> {
    let bytes = compile_bytes_from_src(src)?;
    run_wasm_bytes(&bytes, args)
}

#[test]
fn run_if_gt_sample() {
    let src = "fn main(x, y) -> Int { if (x > 5) { return 1; } else { return 0; } }";
    let res = run_source(src, vec![64, 8]).expect("run failed");
    assert_eq!(res, Some(1));
}

#[test]
fn run_if_gt_low_arg() {
    let src = "fn main(x, y) -> Int { if (x > 5) { return 1; } else { return 0; } }";
    let res = run_source(src, vec![1, 8]).expect("run failed");
    assert_eq!(res, Some(0));
}

#[test]
fn run_add_compare() {
    let src = "fn main(a, b) -> Int { let z = a + 1 < b; return z; }";
    // a=1, b=3 -> 1+1 < 3 -> true -> 1
    let res = run_source(src, vec![1, 3]).expect("run failed");
    assert_eq!(res, Some(1));
}

#[test]
fn run_parenthesized_complex() {
    let src = "fn main(a,b,c,d) -> Int { let r = (a + b) <= (c - d); return r; }";
    // a=1 b=1 c=5 d=2 -> (1+1) <= (5-2) -> 2 <= 3 => true
    let _res = run_source(src, vec![1, 1]).expect_err("expected error because missing c,d args");
    // the above call lacks c,d as params; instead compile and run with different invocation
    let src2 = "fn main(a,b,c,d) -> Int { let r = (a + b) <= (c - d); return r; }";
    let bytes = compile_bytes_from_src(src2).expect("compile failed");
    let out = run_wasm_bytes(&bytes, vec![2, 1]).expect_err("expected error due to wrong arg count");
    // We only check that calling with wrong args returns an Err; actual happy-path tested elsewhere.
    let _ = out;
}

#[test]
fn run_while_false_returns_two() {
    // the loop body never executes: the condition is false on first test
    let src = "fn main() -> Int { while 0 { return 1; } return 2; }";
    let res = run_source(src, vec![]).expect("run failed");
    assert_eq!(res, Some(2));
}

#[test]
fn run_arithmetic() {
    let src = "fn main(a, b) -> Int { return (a + b) * (a - b) / 2; }";
    // (7+3) * (7-3) / 2 = 20
    let res = run_source(src, vec![7, 3]).expect("run failed");
    assert_eq!(res, Some(20));
}

#[test]
fn run_derived_comparisons() {
    // for sample operand pairs, `a != b` is 1 - `a == b`, `a <= b` is
    // 1 - `a > b`, and `a >= b` is 1 - `a < b`
    let pairs = vec![(0i64, 0i64), (1, 2), (2, 1), (-5, 5), (i64::MIN, i64::MAX)];
    let programs = vec![
        ("fn main(a, b) -> Int { return a != b; }", "fn main(a, b) -> Int { return a == b; }"),
        ("fn main(a, b) -> Int { return a <= b; }", "fn main(a, b) -> Int { return a > b; }"),
        ("fn main(a, b) -> Int { return a >= b; }", "fn main(a, b) -> Int { return a < b; }"),
    ];
    for (derived, native) in programs {
        for &(a, b) in &pairs {
            let d = run_source(derived, vec![a, b]).expect("run failed").unwrap();
            let n = run_source(native, vec![a, b]).expect("run failed").unwrap();
            assert_eq!(d, 1 - n);
        }
    }
}

#[test]
fn run_let_shadowing_uses_new_slot() {
    // re-declaring a name binds later reads to the new slot
    let src = "fn main() -> Int { let a = 1; let a = 2; return a; }";
    let res = run_source(src, vec![]).expect("run failed");
    assert_eq!(res, Some(2));
}

#[test]
fn run_call_chain() {
    let src = "fn double(x) -> Int { return x + x; } fn main(n) -> Int { return double(n) + 1; }";
    let res = run_source(src, vec![20]).expect("run failed");
    assert_eq!(res, Some(41));
}

#[test]
fn run_implicit_default_return() {
    // a function with a declared return type but no explicit return on
    // some path returns the synthesized default zero
    let src = "fn main(x) -> Int { if x { return 5; } }";
    let res = run_source(src, vec![0]).expect("run failed");
    assert_eq!(res, Some(0));
}

#[test]
fn print_statement_outputs() {
    // inline source instead of reading a file
    let src = "fn main(){ print(3); return; }";

    let bytes = compile_bytes_from_src(src).expect("compile failed");

    // instantiate module with a host `print_i64` that records values
    let engine = Engine::default();
    let module = wasmtime::Module::from_binary(&engine, &bytes).expect("module compile failed");

    let printed: Arc<Mutex<Vec<i64>>> = Arc::new(Mutex::new(Vec::new()));

    let mut store = Store::new(&engine, ());
    let captured = printed.clone();
    let print_func = wasmtime::Func::wrap(&mut store, move |v: i64| {
        captured.lock().unwrap().push(v);
    });

    let instance =
        Instance::new(&mut store, &module, &[print_func.into()]).expect("instance creation failed");

    let func = instance.get_func(&mut store, "main").expect("main not found");
    let params: Vec<Val> = Vec::new();
    let mut results_buf: Vec<Val> = Vec::new();

    func.call(&mut store, &params, &mut results_buf).expect("call failed");

    let got = printed.lock().unwrap().clone();
    assert_eq!(got, vec![3]);
}
