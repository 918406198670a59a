//! The intermediate instruction set: a flat stack-machine opcode list that
//! mirrors the target binary ISA one-for-one, so lowering is written against
//! semantic opcodes and a separate final step maps each opcode to its binary
//! encoding. Structured-control instructions (`Block`, `Loop`, `If`) always
//! open an empty-typed region: the language never passes values on a branch.

use vstd::prelude::*;

use crate::codegen::wasm;
use wasm_encoder::Function;

verus! {

/// One stack-machine instruction of the intermediate representation.
#[derive(Debug, Clone, Copy, PartialEq, Eq, Structural)]
pub enum IrInstruction {
    I64Const(i64),
    I64Eqz,
    BrIf(u32),
    Br(u32),
    LocalSet(u32),
    LocalGet(u32),
    Call(u32),
    If,
    Else,
    Block,
    Loop,
    Drop,
    Return,
    End,
    // arithmetic and comparisons
    I64Add,
    I64Sub,
    I64Mul,
    I64DivS,
    I64Eq,
    I64LtS,
    I64GtS,
    I64ExtendI32S,
    I32Eqz,
}

impl IrInstruction {
    /// Writes this instruction's binary encoding into a function body,
    /// the one place that maps each semantic opcode to the target ISA.
    pub fn encode(&self, f: &mut Function)
        ensures
            wasm::body_locals(*final(f)) == wasm::body_locals(*old(f)),
            wasm::body_instrs(*final(f)) == wasm::body_instrs(*old(f)).push(*self),
    {
        match self {
            IrInstruction::I64Const(v) => wasm::emit_i64_const(f, *v),
            IrInstruction::I64Eqz => wasm::emit_i64_eqz(f),
            IrInstruction::BrIf(l) => wasm::emit_br_if(f, *l),
            IrInstruction::Br(l) => wasm::emit_br(f, *l),
            IrInstruction::LocalSet(l) => wasm::emit_local_set(f, *l),
            IrInstruction::LocalGet(l) => wasm::emit_local_get(f, *l),
            IrInstruction::Call(i) => wasm::emit_call(f, *i),
            IrInstruction::If => wasm::emit_if(f),
            IrInstruction::Else => wasm::emit_else(f),
            IrInstruction::Block => wasm::emit_block(f),
            IrInstruction::Loop => wasm::emit_loop(f),
            IrInstruction::Drop => wasm::emit_drop(f),
            IrInstruction::Return => wasm::emit_return(f),
            IrInstruction::End => wasm::emit_end(f),
            IrInstruction::I64Add => wasm::emit_i64_add(f),
            IrInstruction::I64Sub => wasm::emit_i64_sub(f),
            IrInstruction::I64Mul => wasm::emit_i64_mul(f),
            IrInstruction::I64DivS => wasm::emit_i64_div_s(f),
            IrInstruction::I64Eq => wasm::emit_i64_eq(f),
            IrInstruction::I64LtS => wasm::emit_i64_lt_s(f),
            IrInstruction::I64GtS => wasm::emit_i64_gt_s(f),
            IrInstruction::I64ExtendI32S => wasm::emit_i64_extend_i32_s(f),
            IrInstruction::I32Eqz => wasm::emit_i32_eqz(f),
        }
    }
}

} // verus!
