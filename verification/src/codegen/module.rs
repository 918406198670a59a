//! Per-function and whole-module code generation state: the function
//! generator with its name-to-slot map, the module generator with its
//! declare-then-emit protocol, and the structured code generation errors.

use vstd::prelude::*;

use crate::ast::{FunctionDecl, FunctionDeclV};
use crate::codegen::ir::IrInstruction;
use crate::codegen::wasm;
use wasm_encoder::{CodeSection, ExportSection, Function, FunctionSection, ImportSection,
    TypeSection};

verus! {

/// A code generation error: duplicate function declaration, or a
/// reference to an unknown local or call target.
#[derive(Debug)]
pub enum CodegenError {
    DuplicateFunction { name: String },
    UnknownLocal { name: String },
    UnknownFunction { name: String },
}

/// Model of a code generation error.
pub enum CodegenErrorV {
    DuplicateFunction { name: Seq<char> },
    UnknownLocal { name: Seq<char> },
    UnknownFunction { name: Seq<char> },
}

impl View for CodegenError {
    type V = CodegenErrorV;

    open spec fn view(&self) -> CodegenErrorV {
        match self {
            CodegenError::DuplicateFunction { name } => CodegenErrorV::DuplicateFunction {
                name: name@,
            },
            CodegenError::UnknownLocal { name } => CodegenErrorV::UnknownLocal { name: name@ },
            CodegenError::UnknownFunction { name } => CodegenErrorV::UnknownFunction {
                name: name@,
            },
        }
    }
}

/// Name resolution in an association sequence where later entries win,
/// mirroring insert-with-overwrite.
pub open spec fn lookup_s<V>(m: Seq<(Seq<char>, V)>, name: Seq<char>) -> Option<V>
    decreases m.len(),
{
    if m.len() == 0 {
        None
    } else if m.last().0 == name {
        Some(m.last().1)
    } else {
        lookup_s(m.drop_last(), name)
    }
}

/// The model of a local-slot map.
pub open spec fn local_map_view(m: Seq<(String, u32)>) -> Seq<(Seq<char>, u32)> {
    m.map_values(|p: (String, u32)| (p.0@, p.1))
}

/// The model of the function symbol table: name to
/// (module-relative index, returns-a-value?).
pub open spec fn syms_view(m: Seq<(String, (u32, bool))>) -> Seq<(Seq<char>, (u32, bool))> {
    m.map_values(|p: (String, (u32, bool))| (p.0@, p.1))
}

/// Looks a local name up in the slot map; the latest binding wins.
#[verifier::loop_isolation(false)]
pub(crate) fn lookup_local(map: &Vec<(String, u32)>, name: &String) -> (r: Option<u32>)
    ensures
        r == lookup_s(local_map_view(map@), name@),
{
    let ghost full = local_map_view(map@);
    proof {
        assert(full.take(map@.len() as int) =~= full);
    }
    let mut i: usize = map.len();
    while i > 0
        invariant
            i <= map.len(),
            lookup_s(full, name@) == lookup_s(full.take(i as int), name@),
        decreases i,
    {
        i = i - 1;
        let entry = &map[i];
        if entry.0 == *name {
            proof {
                assert(full.take(i + 1).last() == (entry.0@, entry.1));
                assert(lookup_s(full.take(i + 1), name@) == Some(entry.1));
            }
            return Some(entry.1);
        }
        proof {
            assert(full.take(i + 1).last().0 != name@);
            assert(full.take(i + 1).drop_last() =~= full.take(i as int));
        }
    }
    proof {
        assert(full.take(0) =~= Seq::<(Seq<char>, u32)>::empty());
    }
    None
}

/// Looks a function name up in the symbol table.
#[verifier::loop_isolation(false)]
pub(crate) fn lookup_func(map: &Vec<(String, (u32, bool))>, name: &String) -> (r: Option<
    (u32, bool),
>)
    ensures
        r == lookup_s(syms_view(map@), name@),
{
    let ghost full = syms_view(map@);
    proof {
        assert(full.take(map@.len() as int) =~= full);
    }
    let mut i: usize = map.len();
    while i > 0
        invariant
            i <= map.len(),
            lookup_s(full, name@) == lookup_s(full.take(i as int), name@),
        decreases i,
    {
        i = i - 1;
        let entry = &map[i];
        if entry.0 == *name {
            proof {
                assert(full.take(i + 1).last() == (entry.0@, entry.1));
                assert(lookup_s(full.take(i + 1), name@) == Some(entry.1));
            }
            return Some(entry.1);
        }
        proof {
            assert(full.take(i + 1).last().0 != name@);
            assert(full.take(i + 1).drop_last() =~= full.take(i as int));
        }
    }
    proof {
        assert(full.take(0) =~= Seq::<(Seq<char>, (u32, bool))>::empty());
    }
    None
}

/// Per-function, transient code generation state.
pub struct FuncGen {
    /// How many parameters seed the slot map; they occupy slots
    /// `0 .. param_count`.
    pub param_count: u32,
    /// How many extra 64-bit local slots `let` bindings have allocated.
    pub locals: u32,
    /// The name-to-slot map; later entries shadow earlier ones.
    pub local_map: Vec<(String, u32)>,
    /// The accumulated intermediate instructions.
    pub instructions: Vec<IrInstruction>,
    /// Whether the enclosing function declares a return type.
    pub has_return: bool,
}

/// Model of the function generator.
pub struct GenV {
    pub param_count: nat,
    pub locals: nat,
    pub map: Seq<(Seq<char>, u32)>,
    pub instrs: Seq<IrInstruction>,
    pub has_return: bool,
}

impl View for FuncGen {
    type V = GenV;

    open spec fn view(&self) -> GenV {
        GenV {
            param_count: self.param_count as nat,
            locals: self.locals as nat,
            map: local_map_view(self.local_map@),
            instrs: self.instructions@,
            has_return: self.has_return,
        }
    }
}

} // verus!

// The whole-module generator: declare-then-emit over the five sections.

verus! {

/// Model of the module generator: the five section contents, the shared
/// symbol table, and the next type index.
pub struct ModuleGenV {
    pub types: Seq<(nat, nat)>,
    pub imports: Seq<(Seq<char>, Seq<char>, nat)>,
    pub functions: Seq<nat>,
    pub exports: Seq<(Seq<char>, nat)>,
    pub codes: Seq<(nat, Seq<IrInstruction>)>,
    pub syms: Seq<(Seq<char>, (u32, bool))>,
    pub next_type: nat,
}

/// The module state before any user declaration: exactly one host import,
/// an external function `print_i64` in namespace `env` taking one 64-bit
/// integer and returning nothing, reachable under the symbol `print` at
/// function index zero.
pub open spec fn init_module_s() -> ModuleGenV {
    ModuleGenV {
        types: seq![(1 as nat, 0 as nat)],
        imports: seq![("env"@, "print_i64"@, 0 as nat)],
        functions: Seq::empty(),
        exports: Seq::empty(),
        codes: Seq::empty(),
        syms: seq![("print"@, (0u32, false))],
        next_type: 1,
    }
}

/// Declaring one function: a duplicate name is a hard error; otherwise it
/// registers a type signature, takes the next module-relative index,
/// enters the symbol table, and is exported under its source name.
pub open spec fn declare_function_s(f: FunctionDeclV, m: ModuleGenV) -> Result<
    ModuleGenV,
    CodegenErrorV,
> {
    if lookup_s(m.syms, f.name) is Some {
        Err(CodegenErrorV::DuplicateFunction { name: f.name })
    } else {
        let idx = m.syms.len() as u32;
        let results: nat = if f.return_type is Some {
            1
        } else {
            0
        };
        Ok(
            ModuleGenV {
                types: m.types.push((f.params.len(), results)),
                imports: m.imports,
                functions: m.functions.push(m.next_type),
                exports: m.exports.push((f.name, idx as nat)),
                codes: m.codes,
                syms: m.syms.push((f.name, (idx, f.return_type is Some))),
                next_type: m.next_type + 1,
            },
        )
    }
}

/// Declaring every function of a program, in order.
pub open spec fn declare_all_s(fs: Seq<FunctionDeclV>, m: ModuleGenV) -> Result<
    ModuleGenV,
    CodegenErrorV,
>
    decreases fs,
{
    if fs.len() == 0 {
        Ok(m)
    } else {
        match declare_function_s(fs[0], m) {
            Err(e) => Err(e),
            Ok(m1) => declare_all_s(fs.subrange(1, fs.len() as int), m1),
        }
    }
}

/// Lowering one function body to its encoded form: parameters seed slots
/// `0 .. param_count`, the body statements are lowered in order, a default
/// zero return is appended when the function declares a return type, and
/// the body is closed with its terminator.
pub open spec fn emit_function_s(f: FunctionDeclV, syms: Seq<(Seq<char>, (u32, bool))>) -> Result<
    (nat, Seq<IrInstruction>),
    CodegenErrorV,
> {
    let g0 = GenV {
        param_count: f.params.len(),
        locals: 0,
        map: Seq::new(f.params.len(), |i: int| (f.params[i], i as u32)),
        instrs: Seq::empty(),
        has_return: f.return_type is Some,
    };
    match crate::codegen::stmt::emit_stmts_s(f.body, g0, syms) {
        Err(e) => Err(e),
        Ok(g1) => {
            let body = if f.return_type is Some {
                g1.instrs + seq![IrInstruction::I64Const(0), IrInstruction::Return]
            } else {
                g1.instrs
            };
            Ok((g1.locals, body.push(IrInstruction::End)))
        },
    }
}

/// Emitting every function of a program against the fixed symbol table.
pub open spec fn emit_all_s(
    fs: Seq<FunctionDeclV>,
    syms: Seq<(Seq<char>, (u32, bool))>,
    m: ModuleGenV,
) -> Result<ModuleGenV, CodegenErrorV>
    decreases fs,
{
    if fs.len() == 0 {
        Ok(m)
    } else {
        match emit_function_s(fs[0], syms) {
            Err(e) => Err(e),
            Ok(entry) => emit_all_s(
                fs.subrange(1, fs.len() as int),
                syms,
                ModuleGenV {
                    types: m.types,
                    imports: m.imports,
                    functions: m.functions,
                    exports: m.exports,
                    codes: m.codes.push(entry),
                    syms: m.syms,
                    next_type: m.next_type,
                },
            ),
        }
    }
}

/// A function declaration small enough for the target's 32-bit local
/// index space.
pub open spec fn decl_fits(f: FunctionDeclV) -> bool {
    f.params.len() + crate::codegen::stmt::let_count_seq(f.body) < u32::MAX
}

/// A program small enough for the target's 32-bit index spaces.
pub open spec fn program_fits(p: crate::ast::ProgramV) -> bool {
    &&& p.functions.len() + 1 < u32::MAX
    &&& forall|i: int| 0 <= i < p.functions.len() ==> decl_fits(#[trigger] p.functions[i])
}

/// Whole-module code generation: declare every function, then emit every
/// body against the completed symbol table. The two-phase order is what
/// resolves forward references.
pub open spec fn compile_program_s(p: crate::ast::ProgramV) -> Result<ModuleGenV, CodegenErrorV> {
    match declare_all_s(p.functions, init_module_s()) {
        Err(e) => Err(e),
        Ok(m1) => emit_all_s(p.functions, m1.syms, m1),
    }
}

/// Whole-module state: type signatures, the host import, the function
/// table, exports and encoded bodies, with the shared symbol table.
pub struct ModuleGen {
    types: TypeSection,
    imports: ImportSection,
    functions: FunctionSection,
    codes: CodeSection,
    exports: ExportSection,
    func_indices: Vec<(String, (u32, bool))>,
    next_type_index: u32,
}

impl View for ModuleGen {
    type V = ModuleGenV;

    closed spec fn view(&self) -> ModuleGenV {
        ModuleGenV {
            types: wasm::type_entries(self.types),
            imports: wasm::import_entries(self.imports),
            functions: wasm::function_entries(self.functions),
            exports: wasm::export_entries(self.exports),
            codes: wasm::code_entries(self.codes),
            syms: syms_view(self.func_indices@),
            next_type: self.next_type_index as nat,
        }
    }
}

impl ModuleGen {
    /// An empty module generator: no sections, no symbols.
    pub fn new() -> (m: ModuleGen)
        ensures
            m@ == (ModuleGenV {
                types: Seq::<(nat, nat)>::empty(),
                imports: Seq::<(Seq<char>, Seq<char>, nat)>::empty(),
                functions: Seq::<nat>::empty(),
                exports: Seq::<(Seq<char>, nat)>::empty(),
                codes: Seq::<(nat, Seq<IrInstruction>)>::empty(),
                syms: Seq::<(Seq<char>, (u32, bool))>::empty(),
                next_type: 0 as nat,
            }),
    {
        let sections = wasm::new_sections();
        let m = ModuleGen {
            types: sections.0,
            imports: sections.1,
            functions: sections.2,
            exports: sections.3,
            codes: sections.4,
            func_indices: Vec::new(),
            next_type_index: 0,
        };
        proof {
            assert(syms_view(m.func_indices@) =~= Seq::<(Seq<char>, (u32, bool))>::empty());
        }
        m
    }

    /// Registers the host imports; must run before any user declaration
    /// so the import's function index stays zero.
    pub fn init_with_host_functions(self) -> (m: ModuleGen)
        requires
            self@ == (ModuleGenV {
                types: Seq::<(nat, nat)>::empty(),
                imports: Seq::<(Seq<char>, Seq<char>, nat)>::empty(),
                functions: Seq::<nat>::empty(),
                exports: Seq::<(Seq<char>, nat)>::empty(),
                codes: Seq::<(nat, Seq<IrInstruction>)>::empty(),
                syms: Seq::<(Seq<char>, (u32, bool))>::empty(),
                next_type: 0 as nat,
            }),
        ensures
            m@ == init_module_s(),
    {
        let mut this = self;
        this.add_print_import();
        this
    }

    /// Registers the one host import: `print_i64` from namespace `env`,
    /// taking one 64-bit integer and returning nothing, under the source
    /// symbol `print` at the first function index.
    fn add_print_import(&mut self)
        requires
            old(self)@.next_type < u32::MAX,
            old(self)@.syms.len() < u32::MAX,
        ensures
            final(self)@ == (ModuleGenV {
                types: old(self)@.types.push((1 as nat, 0 as nat)),
                imports: old(self)@.imports.push(
                    ("env"@, "print_i64"@, old(self)@.next_type),
                ),
                functions: old(self)@.functions,
                exports: old(self)@.exports,
                codes: old(self)@.codes,
                syms: old(self)@.syms.push(("print"@, (old(self)@.syms.len() as u32, false))),
                next_type: old(self)@.next_type + 1,
            }),
    {
        let type_index = self.next_type_index;
        self.next_type_index = self.next_type_index + 1;
        wasm::add_func_type(&mut self.types, 1, 0);
        let idx = self.func_indices.len() as u32;
        self.func_indices.push((String::from_str("print"), (idx, false)));
        wasm::add_import_func(&mut self.imports, "env", "print_i64", type_index);
        proof {
            assert(syms_view(self.func_indices@) =~= syms_view(old(self).func_indices@).push(
                ("print"@, (idx, false)),
            ));
        }
    }

    /// Declare phase for one function; fails with a "duplicate function"
    /// error if the name is already registered.
    pub fn declare_function(&mut self, func: &FunctionDecl) -> (r: Result<(), CodegenError>)
        requires
            old(self)@.syms.len() < u32::MAX,
            old(self)@.next_type < u32::MAX,
        ensures
            (match r {
                Ok(u) => declare_function_s(func@, old(self)@) == Ok::<ModuleGenV, CodegenErrorV>(
                    final(self)@,
                ),
                Err(e) => {
                    &&& declare_function_s(func@, old(self)@) == Err::<ModuleGenV, CodegenErrorV>(
                        e@,
                    )
                    &&& final(self)@ == old(self)@
                },
            }),
    {
        match lookup_func(&self.func_indices, &func.name) {
            Some(_) => Err(CodegenError::DuplicateFunction { name: func.name.clone() }),
            None => {
                let type_index = self.next_type_index;
                self.next_type_index = self.next_type_index + 1;
                let results: usize = if func.return_type.is_some() {
                    1
                } else {
                    0
                };
                wasm::add_func_type(&mut self.types, func.params.len(), results);
                let idx = self.func_indices.len() as u32;
                self.func_indices.push((func.name.clone(), (idx, func.return_type.is_some())));
                wasm::add_function(&mut self.functions, type_index);
                wasm::add_export_func(&mut self.exports, func.name.as_str(), idx);
                proof {
                    assert(syms_view(self.func_indices@) =~= syms_view(
                        old(self).func_indices@,
                    ).push((func.name@, (idx, func.return_type is Some))));
                }
                Ok(())
            },
        }
    }

    /// Emit phase for one function, after all declarations: lowers the
    /// body and stores its encoded form in the code section.
    #[verifier::loop_isolation(false)]
    pub fn emit_function(&mut self, func: &FunctionDecl) -> (r: Result<(), CodegenError>)
        requires
            decl_fits(func@),
        ensures
            (match r {
                Ok(u) => {
                    &&& emit_function_s(func@, old(self)@.syms) matches Ok(entry)
                    &&& final(self)@ == (ModuleGenV {
                        types: old(self)@.types,
                        imports: old(self)@.imports,
                        functions: old(self)@.functions,
                        exports: old(self)@.exports,
                        codes: old(self)@.codes.push(entry),
                        syms: old(self)@.syms,
                        next_type: old(self)@.next_type,
                    })
                },
                Err(e) => {
                    &&& emit_function_s(func@, old(self)@.syms) == Err::<
                        (nat, Seq<IrInstruction>),
                        CodegenErrorV,
                    >(e@)
                    &&& final(self)@ == old(self)@
                },
            }),
    {
        let ghost syms = syms_view(self.func_indices@);
        proof {
            assert(func@.params.len() == func.params@.len());
        }
        let mut fgen = FuncGen {
            param_count: func.params.len() as u32,
            locals: 0,
            local_map: Vec::new(),
            instructions: Vec::new(),
            has_return: func.return_type.is_some(),
        };
        let ghost pmap = Seq::new(func@.params.len(), |i: int| (func@.params[i], i as u32));
        proof {
            crate::codegen::stmt::lemma_let_count_seq_nonneg(func@.body);
        }
        let mut i: usize = 0;
        while i < func.params.len()
            invariant
                i <= func.params.len(),
                fgen.param_count == func.params@.len() as u32,
                fgen.locals == 0,
                fgen.instructions@.len() == 0,
                fgen.has_return == (func.return_type is Some),
                local_map_view(fgen.local_map@) =~= pmap.take(i as int),
            decreases func.params@.len() - i,
        {
            let p = &func.params[i];
            fgen.local_map.push((p.clone(), i as u32));
            i = i + 1;
            proof {
                assert(local_map_view(fgen.local_map@) =~= pmap.take(i as int));
            }
        }
        proof {
            assert(pmap.take(func.params@.len() as int) =~= pmap);
            assert(fgen.instructions@ =~= Seq::<IrInstruction>::empty());
            assert(fgen@ == (GenV {
                param_count: func@.params.len(),
                locals: 0,
                map: pmap,
                instrs: Seq::<IrInstruction>::empty(),
                has_return: func@.return_type is Some,
            }));
        }
        match crate::codegen::stmt::emit_block(&func.body, &mut fgen, &self.func_indices) {
            Ok(_) => (),
            Err(e) => {
                return Err(e);
            },
        }
        let ghost g1 = fgen@;
        if func.return_type.is_some() {
            fgen.instructions.push(IrInstruction::I64Const(0));
            fgen.instructions.push(IrInstruction::Return);
            proof {
                assert(fgen.instructions@ =~= g1.instrs + seq![
                    IrInstruction::I64Const(0),
                    IrInstruction::Return,
                ]);
            }
        }
        let ghost body_s = fgen.instructions@;
        let mut body = wasm::new_func_body(fgen.locals as usize);
        let mut j: usize = 0;
        while j < fgen.instructions.len()
            invariant
                j <= fgen.instructions@.len(),
                wasm::body_locals(body) == g1.locals,
                wasm::body_instrs(body) =~= body_s.take(j as int),
                fgen.instructions@ == body_s,
            decreases fgen.instructions@.len() - j,
        {
            let instr = &fgen.instructions[j];
            instr.encode(&mut body);
            j = j + 1;
            proof {
                assert(wasm::body_instrs(body) =~= body_s.take(j as int));
            }
        }
        proof {
            assert(body_s.take(body_s.len() as int) =~= body_s);
        }
        wasm::emit_end(&mut body);
        wasm::add_code(&mut self.codes, &body);
        proof {
            let entry = emit_function_s(func@, syms)->Ok_0;
            assert(wasm::body_instrs(body) =~= entry.1);
        }
        Ok(())
    }

    /// Assembles the fixed section order — types, imports, functions,
    /// exports, code — and serializes the module to bytes.
    pub fn finish(self) -> (r: Vec<u8>)
        ensures
            r@ == wasm::module_bytes(
                self@.types,
                self@.imports,
                self@.functions,
                self@.exports,
                self@.codes,
            ),
    {
        wasm::assemble_module(&self.types, &self.imports, &self.functions, &self.exports,
            &self.codes)
    }
}

} // verus!

// Laws of the declare-then-emit protocol.

verus! {

/// Pushing a binding resolves that name to it and leaves every other
/// name as before.
pub proof fn lemma_lookup_push<V>(m: Seq<(Seq<char>, V)>, n: Seq<char>, v: V, name: Seq<char>)
    ensures
        lookup_s(m.push((n, v)), name) == (if name == n {
            Some(v)
        } else {
            lookup_s(m, name)
        }),
{
    assert(m.push((n, v)).drop_last() =~= m);
}

/// Forward reference: after the declare phase, every declared function —
/// those declared later in the program included — resolves in the shared
/// symbol table, so a body emitted afterwards can call any of them.
pub proof fn lemma_declare_registers_all(fs: Seq<FunctionDeclV>, m: ModuleGenV)
    requires
        declare_all_s(fs, m) is Ok,
    ensures
        forall|i: int|
            0 <= i < fs.len() ==> lookup_s(
                declare_all_s(fs, m)->Ok_0.syms,
                (#[trigger] fs[i]).name,
            ) is Some,
        forall|n: Seq<char>|
            lookup_s(m.syms, n) is Some ==> lookup_s(
                declare_all_s(fs, m)->Ok_0.syms,
                n,
            ) is Some,
    decreases fs,
{
    if fs.len() > 0 {
        let m1 = declare_function_s(fs[0], m)->Ok_0;
        let tail = fs.subrange(1, fs.len() as int);
        lemma_declare_registers_all(tail, m1);
        assert forall|n: Seq<char>| lookup_s(m.syms, n) is Some implies lookup_s(
            declare_all_s(fs, m)->Ok_0.syms,
            n,
        ) is Some by {
            lemma_lookup_push(m.syms, fs[0].name, (m.syms.len() as u32, fs[0].return_type is Some),
                n);
        }
        assert forall|i: int| 0 <= i < fs.len() implies lookup_s(
            declare_all_s(fs, m)->Ok_0.syms,
            (#[trigger] fs[i]).name,
        ) is Some by {
            if i == 0 {
                lemma_lookup_push(m.syms, fs[0].name, (m.syms.len() as u32, fs[0].return_type
                    is Some), fs[0].name);
                assert(lookup_s(m1.syms, fs[0].name) is Some);
            } else {
                assert(tail[i - 1] == fs[i]);
            }
        }
    }
}

/// Declaring a function whose name is already registered fails, and the
/// failure is a duplicate-function error.
pub proof fn lemma_registered_name_rejected(fs: Seq<FunctionDeclV>, m: ModuleGenV, k: int)
    requires
        0 <= k < fs.len(),
        lookup_s(m.syms, fs[k].name) is Some,
    ensures
        declare_all_s(fs, m) matches Err(e) && e is DuplicateFunction,
    decreases fs,
{
    if lookup_s(m.syms, fs[0].name) is Some {
    } else {
        let m1 = declare_function_s(fs[0], m)->Ok_0;
        let tail = fs.subrange(1, fs.len() as int);
        assert(k > 0);
        assert(tail[k - 1] == fs[k]);
        lemma_lookup_push(m.syms, fs[0].name, (m.syms.len() as u32, fs[0].return_type is Some),
            fs[k].name);
        lemma_registered_name_rejected(tail, m1, k - 1);
    }
}

/// Duplicate-name rejection: a program declaring two functions with the
/// same name fails its declare phase with a duplicate-function error.
pub proof fn lemma_duplicate_function_rejected(
    fs: Seq<FunctionDeclV>,
    m: ModuleGenV,
    i: int,
    j: int,
)
    requires
        0 <= i < j < fs.len(),
        fs[i].name == fs[j].name,
    ensures
        declare_all_s(fs, m) matches Err(e) && e is DuplicateFunction,
    decreases fs,
{
    if lookup_s(m.syms, fs[0].name) is Some {
    } else {
        let m1 = declare_function_s(fs[0], m)->Ok_0;
        let tail = fs.subrange(1, fs.len() as int);
        lemma_lookup_push(m.syms, fs[0].name, (m.syms.len() as u32, fs[0].return_type is Some),
            fs[j].name);
        if i == 0 {
            assert(tail[j - 1] == fs[j]);
            assert(lookup_s(m1.syms, fs[j].name) is Some);
            lemma_registered_name_rejected(tail, m1, j - 1);
        } else {
            assert(tail[i - 1] == fs[i]);
            assert(tail[j - 1] == fs[j]);
            lemma_duplicate_function_rejected(tail, m1, i - 1, j - 1);
        }
    }
}

/// What the declare phase builds: it keeps imports and code untouched,
/// and appends one export, one type, one function entry and one symbol
/// per declared function, with consecutive function indices.
pub proof fn lemma_declare_all_structure(fs: Seq<FunctionDeclV>, m: ModuleGenV)
    requires
        declare_all_s(fs, m) is Ok,
        m.syms.len() + fs.len() <= u32::MAX,
    ensures
        ({
            let r = declare_all_s(fs, m)->Ok_0;
            &&& r.imports == m.imports
            &&& r.codes == m.codes
            &&& r.exports.len() == m.exports.len() + fs.len()
            &&& r.syms.len() == m.syms.len() + fs.len()
            &&& (forall|i: int|
                0 <= i < m.exports.len() ==> #[trigger] r.exports[i] == m.exports[i])
            &&& (forall|i: int|
                0 <= i < fs.len() ==> #[trigger] r.exports[m.exports.len() + i] == (
                    fs[i].name,
                    (m.syms.len() + i) as nat,
                ))
        }),
    decreases fs,
{
    if fs.len() > 0 {
        let m1 = declare_function_s(fs[0], m)->Ok_0;
        let tail = fs.subrange(1, fs.len() as int);
        lemma_declare_all_structure(tail, m1);
        let r = declare_all_s(fs, m)->Ok_0;
        assert forall|i: int| 0 <= i < fs.len() implies #[trigger] r.exports[m.exports.len() + i]
            == (fs[i].name, (m.syms.len() + i) as nat) by {
            if i > 0 {
                assert(tail[i - 1] == fs[i]);
                assert(r.exports[m1.exports.len() + (i - 1)] == (
                    tail[i - 1].name,
                    (m1.syms.len() + (i - 1)) as nat,
                ));
            } else {
                assert(r.exports[m.exports.len() as int] == m1.exports[m.exports.len() as int]);
            }
        }
    }
}

/// What the emit phase builds: it appends one encoded body per function
/// and touches nothing else.
pub proof fn lemma_emit_all_structure(
    fs: Seq<FunctionDeclV>,
    syms: Seq<(Seq<char>, (u32, bool))>,
    m: ModuleGenV,
)
    requires
        emit_all_s(fs, syms, m) is Ok,
    ensures
        ({
            let r = emit_all_s(fs, syms, m)->Ok_0;
            &&& r.imports == m.imports
            &&& r.exports == m.exports
            &&& r.types == m.types
            &&& r.functions == m.functions
            &&& r.syms == m.syms
            &&& r.codes.len() == m.codes.len() + fs.len()
        }),
    decreases fs,
{
    if fs.len() > 0 {
        let entry = emit_function_s(fs[0], syms)->Ok_0;
        let m1 = ModuleGenV {
            types: m.types,
            imports: m.imports,
            functions: m.functions,
            exports: m.exports,
            codes: m.codes.push(entry),
            syms: m.syms,
            next_type: m.next_type,
        };
        lemma_emit_all_structure(fs.subrange(1, fs.len() as int), syms, m1);
    }
}

/// Structural shape of a generated module: exactly one import — the host
/// `print_i64` — and exactly one export and one code body per declared
/// function, exported under its source name at consecutive indices
/// starting after the import.
pub proof fn lemma_module_structure(p: crate::ast::ProgramV)
    requires
        compile_program_s(p) is Ok,
        p.functions.len() + 1 <= u32::MAX,
    ensures
        ({
            let m = compile_program_s(p)->Ok_0;
            &&& m.imports =~= seq![("env"@, "print_i64"@, 0 as nat)]
            &&& m.exports.len() == p.functions.len()
            &&& (forall|i: int|
                0 <= i < p.functions.len() ==> #[trigger] m.exports[i] == (
                    p.functions[i].name,
                    (i + 1) as nat,
                ))
            &&& m.codes.len() == p.functions.len()
        }),
{
    let m0 = init_module_s();
    let m1 = declare_all_s(p.functions, m0)->Ok_0;
    lemma_declare_all_structure(p.functions, m0);
    lemma_emit_all_structure(p.functions, m1.syms, m1);
    let m = compile_program_s(p)->Ok_0;
    assert forall|i: int| 0 <= i < p.functions.len() implies #[trigger] m.exports[i] == (
        p.functions[i].name,
        (i + 1) as nat,
    ) by {
        assert(m1.exports[m0.exports.len() + i] == (
            p.functions[i].name,
            (m0.syms.len() + i) as nat,
        ));
    }
}

} // verus!
