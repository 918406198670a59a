//! The trusted boundary to the binary module encoder (the `wasm_encoder`
//! crate). Each section builder is declared as an opaque outside type whose
//! contents are modelled by an uninterpreted view; every method the
//! generator calls is wrapped in one `external_body` function whose contract
//! states, over those views, what the call appends. The final serialized
//! bytes are named by `module_bytes`, a function of the section contents
//! alone (the binary encoding is deterministic).

use vstd::prelude::*;

use crate::codegen::ir::IrInstruction;
use wasm_encoder::{
    BlockType, CodeSection, EntityType, ExportKind, ExportSection, Function, FunctionSection,
    ImportSection, Module, TypeSection, ValType,
};

verus! {

#[verifier::external_type_specification]
#[verifier::external_body]
pub struct ExTypeSection(TypeSection);

#[verifier::external_type_specification]
#[verifier::external_body]
pub struct ExImportSection(ImportSection);

#[verifier::external_type_specification]
#[verifier::external_body]
pub struct ExFunctionSection(FunctionSection);

#[verifier::external_type_specification]
#[verifier::external_body]
pub struct ExExportSection(ExportSection);

#[verifier::external_type_specification]
#[verifier::external_body]
pub struct ExCodeSection(CodeSection);

#[verifier::external_type_specification]
#[verifier::external_body]
pub struct ExFunction(Function);

/// The function types a type section holds, in order: each is
/// (parameter count, result count), every slot being a 64-bit integer.
pub uninterp spec fn type_entries(ts: TypeSection) -> Seq<(nat, nat)>;

/// The function imports an import section holds, in order:
/// (module namespace, field name, type index).
pub uninterp spec fn import_entries(im: ImportSection) -> Seq<(Seq<char>, Seq<char>, nat)>;

/// The type indices a function section holds, in order.
pub uninterp spec fn function_entries(fs: FunctionSection) -> Seq<nat>;

/// The function exports an export section holds, in order:
/// (export name, function index).
pub uninterp spec fn export_entries(es: ExportSection) -> Seq<(Seq<char>, nat)>;

/// The encoded bodies a code section holds, in order: each is
/// (number of extra 64-bit locals, instruction list).
pub uninterp spec fn code_entries(cs: CodeSection) -> Seq<(nat, Seq<IrInstruction>)>;

/// The number of extra 64-bit locals a function body declares.
pub uninterp spec fn body_locals(f: Function) -> nat;

/// The instructions a function body holds, in order.
pub uninterp spec fn body_instrs(f: Function) -> Seq<IrInstruction>;

/// The serialized binary module holding the given section contents, in the
/// fixed section order type, import, function, export, code.
pub uninterp spec fn module_bytes(
    types: Seq<(nat, nat)>,
    imports: Seq<(Seq<char>, Seq<char>, nat)>,
    functions: Seq<nat>,
    exports: Seq<(Seq<char>, nat)>,
    code: Seq<(nat, Seq<IrInstruction>)>,
) -> Seq<u8>;

/// Relies on the section constructors `TypeSection::new`,
/// `ImportSection::new`, `FunctionSection::new`, `ExportSection::new` and
/// `CodeSection::new`: each starts with no entries.
#[verifier::external_body]
pub(crate) fn new_sections() -> (r: (
    TypeSection,
    ImportSection,
    FunctionSection,
    ExportSection,
    CodeSection,
))
    ensures
        type_entries(r.0) == Seq::<(nat, nat)>::empty(),
        import_entries(r.1) == Seq::<(Seq<char>, Seq<char>, nat)>::empty(),
        function_entries(r.2) == Seq::<nat>::empty(),
        export_entries(r.3) == Seq::<(Seq<char>, nat)>::empty(),
        code_entries(r.4) == Seq::<(nat, Seq<IrInstruction>)>::empty(),
{
    (
        TypeSection::new(),
        ImportSection::new(),
        FunctionSection::new(),
        ExportSection::new(),
        CodeSection::new(),
    )
}

/// Relies on `TypeSection::ty` and `CoreTypeEncoder::function`: appends one
/// function type whose parameters and results are all 64-bit integers.
#[verifier::external_body]
pub(crate) fn add_func_type(ts: &mut TypeSection, params: usize, results: usize)
    ensures
        type_entries(*final(ts)) == type_entries(*old(ts)).push(
            (params as nat, results as nat),
        ),
{
    ts.ty().function(vec![ValType::I64; params], vec![ValType::I64; results]);
}

/// Relies on `ImportSection::import` with `EntityType::Function`: appends
/// one function import under the given namespace and name.
#[verifier::external_body]
pub(crate) fn add_import_func(im: &mut ImportSection, module: &str, name: &str, ty_index: u32)
    ensures
        import_entries(*final(im)) == import_entries(*old(im)).push(
            (module@, name@, ty_index as nat),
        ),
{
    im.import(module, name, EntityType::Function(ty_index));
}

/// Relies on `FunctionSection::function`: appends one type index.
#[verifier::external_body]
pub(crate) fn add_function(fs: &mut FunctionSection, ty_index: u32)
    ensures
        function_entries(*final(fs)) == function_entries(*old(fs)).push(ty_index as nat),
{
    fs.function(ty_index);
}

/// Relies on `ExportSection::export` with `ExportKind::Func`: appends one
/// function export under the given name.
#[verifier::external_body]
pub(crate) fn add_export_func(es: &mut ExportSection, name: &str, func_index: u32)
    ensures
        export_entries(*final(es)) == export_entries(*old(es)).push(
            (name@, func_index as nat),
        ),
{
    es.export(name, ExportKind::Func, func_index);
}

/// Relies on `Function::new`: starts a body with the given number of extra
/// locals, declared one group of one 64-bit integer each, and no
/// instructions yet.
#[verifier::external_body]
pub(crate) fn new_func_body(extra_locals: usize) -> (f: Function)
    ensures
        body_locals(f) == extra_locals as nat,
        body_instrs(f) == Seq::<IrInstruction>::empty(),
{
    Function::new(vec![(1u32, ValType::I64); extra_locals])
}

/// Relies on `CodeSection::function`: appends one finished body.
#[verifier::external_body]
pub(crate) fn add_code(cs: &mut CodeSection, f: &Function)
    ensures
        code_entries(*final(cs)) == code_entries(*old(cs)).push(
            (body_locals(*f), body_instrs(*f)),
        ),
{
    cs.function(f);
}

/// Relies on `Module::new`, `Module::section` and `Module::finish`: appends
/// the five sections in the fixed order type, import, function, export,
/// code, and serializes the module to bytes.
#[verifier::external_body]
pub(crate) fn assemble_module(
    ts: &TypeSection,
    im: &ImportSection,
    fs: &FunctionSection,
    es: &ExportSection,
    cs: &CodeSection,
) -> (r: Vec<u8>)
    ensures
        r@ == module_bytes(
            type_entries(*ts),
            import_entries(*im),
            function_entries(*fs),
            export_entries(*es),
            code_entries(*cs),
        ),
{
    let mut module = Module::new();
    module.section(ts);
    module.section(im);
    module.section(fs);
    module.section(es);
    module.section(cs);
    module.finish()
}

/// Relies on `Function::instructions` and `InstructionSink::i64_const`.
#[verifier::external_body]
pub(crate) fn emit_i64_const(f: &mut Function, v: i64)
    ensures
        body_locals(*final(f)) == body_locals(*old(f)),
        body_instrs(*final(f)) == body_instrs(*old(f)).push(IrInstruction::I64Const(v)),
{
    f.instructions().i64_const(v);
}

/// Relies on `Function::instructions` and `InstructionSink::i64_eqz`.
#[verifier::external_body]
pub(crate) fn emit_i64_eqz(f: &mut Function)
    ensures
        body_locals(*final(f)) == body_locals(*old(f)),
        body_instrs(*final(f)) == body_instrs(*old(f)).push(IrInstruction::I64Eqz),
{
    f.instructions().i64_eqz();
}

/// Relies on `Function::instructions` and `InstructionSink::br_if`.
#[verifier::external_body]
pub(crate) fn emit_br_if(f: &mut Function, label: u32)
    ensures
        body_locals(*final(f)) == body_locals(*old(f)),
        body_instrs(*final(f)) == body_instrs(*old(f)).push(IrInstruction::BrIf(label)),
{
    f.instructions().br_if(label);
}

/// Relies on `Function::instructions` and `InstructionSink::br`.
#[verifier::external_body]
pub(crate) fn emit_br(f: &mut Function, label: u32)
    ensures
        body_locals(*final(f)) == body_locals(*old(f)),
        body_instrs(*final(f)) == body_instrs(*old(f)).push(IrInstruction::Br(label)),
{
    f.instructions().br(label);
}

/// Relies on `Function::instructions` and `InstructionSink::local_set`.
#[verifier::external_body]
pub(crate) fn emit_local_set(f: &mut Function, local: u32)
    ensures
        body_locals(*final(f)) == body_locals(*old(f)),
        body_instrs(*final(f)) == body_instrs(*old(f)).push(IrInstruction::LocalSet(local)),
{
    f.instructions().local_set(local);
}

/// Relies on `Function::instructions` and `InstructionSink::local_get`.
#[verifier::external_body]
pub(crate) fn emit_local_get(f: &mut Function, local: u32)
    ensures
        body_locals(*final(f)) == body_locals(*old(f)),
        body_instrs(*final(f)) == body_instrs(*old(f)).push(IrInstruction::LocalGet(local)),
{
    f.instructions().local_get(local);
}

/// Relies on `Function::instructions` and `InstructionSink::call`.
#[verifier::external_body]
pub(crate) fn emit_call(f: &mut Function, func_index: u32)
    ensures
        body_locals(*final(f)) == body_locals(*old(f)),
        body_instrs(*final(f)) == body_instrs(*old(f)).push(IrInstruction::Call(func_index)),
{
    f.instructions().call(func_index);
}

/// Relies on `Function::instructions` and `InstructionSink::if_` with an
/// empty block type.
#[verifier::external_body]
pub(crate) fn emit_if(f: &mut Function)
    ensures
        body_locals(*final(f)) == body_locals(*old(f)),
        body_instrs(*final(f)) == body_instrs(*old(f)).push(IrInstruction::If),
{
    f.instructions().if_(BlockType::Empty);
}

/// Relies on `Function::instructions` and `InstructionSink::else_`.
#[verifier::external_body]
pub(crate) fn emit_else(f: &mut Function)
    ensures
        body_locals(*final(f)) == body_locals(*old(f)),
        body_instrs(*final(f)) == body_instrs(*old(f)).push(IrInstruction::Else),
{
    f.instructions().else_();
}

/// Relies on `Function::instructions` and `InstructionSink::block` with an
/// empty block type.
#[verifier::external_body]
pub(crate) fn emit_block(f: &mut Function)
    ensures
        body_locals(*final(f)) == body_locals(*old(f)),
        body_instrs(*final(f)) == body_instrs(*old(f)).push(IrInstruction::Block),
{
    f.instructions().block(BlockType::Empty);
}

/// Relies on `Function::instructions` and `InstructionSink::loop_` with an
/// empty block type.
#[verifier::external_body]
pub(crate) fn emit_loop(f: &mut Function)
    ensures
        body_locals(*final(f)) == body_locals(*old(f)),
        body_instrs(*final(f)) == body_instrs(*old(f)).push(IrInstruction::Loop),
{
    f.instructions().loop_(BlockType::Empty);
}

/// Relies on `Function::instructions` and `InstructionSink::drop`.
#[verifier::external_body]
pub(crate) fn emit_drop(f: &mut Function)
    ensures
        body_locals(*final(f)) == body_locals(*old(f)),
        body_instrs(*final(f)) == body_instrs(*old(f)).push(IrInstruction::Drop),
{
    f.instructions().drop();
}

/// Relies on `Function::instructions` and `InstructionSink::return_`.
#[verifier::external_body]
pub(crate) fn emit_return(f: &mut Function)
    ensures
        body_locals(*final(f)) == body_locals(*old(f)),
        body_instrs(*final(f)) == body_instrs(*old(f)).push(IrInstruction::Return),
{
    f.instructions().return_();
}

/// Relies on `Function::instructions` and `InstructionSink::end`.
#[verifier::external_body]
pub(crate) fn emit_end(f: &mut Function)
    ensures
        body_locals(*final(f)) == body_locals(*old(f)),
        body_instrs(*final(f)) == body_instrs(*old(f)).push(IrInstruction::End),
{
    f.instructions().end();
}

/// Relies on `Function::instructions` and `InstructionSink::i64_add`.
#[verifier::external_body]
pub(crate) fn emit_i64_add(f: &mut Function)
    ensures
        body_locals(*final(f)) == body_locals(*old(f)),
        body_instrs(*final(f)) == body_instrs(*old(f)).push(IrInstruction::I64Add),
{
    f.instructions().i64_add();
}

/// Relies on `Function::instructions` and `InstructionSink::i64_sub`.
#[verifier::external_body]
pub(crate) fn emit_i64_sub(f: &mut Function)
    ensures
        body_locals(*final(f)) == body_locals(*old(f)),
        body_instrs(*final(f)) == body_instrs(*old(f)).push(IrInstruction::I64Sub),
{
    f.instructions().i64_sub();
}

/// Relies on `Function::instructions` and `InstructionSink::i64_mul`.
#[verifier::external_body]
pub(crate) fn emit_i64_mul(f: &mut Function)
    ensures
        body_locals(*final(f)) == body_locals(*old(f)),
        body_instrs(*final(f)) == body_instrs(*old(f)).push(IrInstruction::I64Mul),
{
    f.instructions().i64_mul();
}

/// Relies on `Function::instructions` and `InstructionSink::i64_div_s`.
#[verifier::external_body]
pub(crate) fn emit_i64_div_s(f: &mut Function)
    ensures
        body_locals(*final(f)) == body_locals(*old(f)),
        body_instrs(*final(f)) == body_instrs(*old(f)).push(IrInstruction::I64DivS),
{
    f.instructions().i64_div_s();
}

/// Relies on `Function::instructions` and `InstructionSink::i64_eq`.
#[verifier::external_body]
pub(crate) fn emit_i64_eq(f: &mut Function)
    ensures
        body_locals(*final(f)) == body_locals(*old(f)),
        body_instrs(*final(f)) == body_instrs(*old(f)).push(IrInstruction::I64Eq),
{
    f.instructions().i64_eq();
}

/// Relies on `Function::instructions` and `InstructionSink::i64_lt_s`.
#[verifier::external_body]
pub(crate) fn emit_i64_lt_s(f: &mut Function)
    ensures
        body_locals(*final(f)) == body_locals(*old(f)),
        body_instrs(*final(f)) == body_instrs(*old(f)).push(IrInstruction::I64LtS),
{
    f.instructions().i64_lt_s();
}

/// Relies on `Function::instructions` and `InstructionSink::i64_gt_s`.
#[verifier::external_body]
pub(crate) fn emit_i64_gt_s(f: &mut Function)
    ensures
        body_locals(*final(f)) == body_locals(*old(f)),
        body_instrs(*final(f)) == body_instrs(*old(f)).push(IrInstruction::I64GtS),
{
    f.instructions().i64_gt_s();
}

/// Relies on `Function::instructions` and
/// `InstructionSink::i64_extend_i32_s`.
#[verifier::external_body]
pub(crate) fn emit_i64_extend_i32_s(f: &mut Function)
    ensures
        body_locals(*final(f)) == body_locals(*old(f)),
        body_instrs(*final(f)) == body_instrs(*old(f)).push(IrInstruction::I64ExtendI32S),
{
    f.instructions().i64_extend_i32_s();
}

/// Relies on `Function::instructions` and `InstructionSink::i32_eqz`.
#[verifier::external_body]
pub(crate) fn emit_i32_eqz(f: &mut Function)
    ensures
        body_locals(*final(f)) == body_locals(*old(f)),
        body_instrs(*final(f)) == body_instrs(*old(f)).push(IrInstruction::I32Eqz),
{
    f.instructions().i32_eqz();
}

} // verus!
