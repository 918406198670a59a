//! Expression lowering: one expression node to intermediate instructions,
//! in post-order (left operand, right operand, operator), reporting
//! whether the lowered code leaves a value on the evaluation stack.

use vstd::prelude::*;

use crate::ast::{BinOp, Expr, ExprV};
use crate::codegen::ir::IrInstruction;
use crate::codegen::module::{lookup_func, lookup_local, lookup_s, CodegenError, CodegenErrorV,
    FuncGen};

verus! {

/// The single declarative expansion table for binary operators.
/// `Add/Sub/Mul/Div` map to native 64-bit arithmetic; `Eq/Lt/Gt` map to a
/// native comparison whose narrow boolean result is widened back to 64
/// bits; `NotEq/Le/Ge` are the negation of `Eq/Gt/Lt`, as a test of the
/// narrow result for zero followed by the same widening.
pub open spec fn binop_ir(op: BinOp) -> Seq<IrInstruction> {
    match op {
        BinOp::Add => seq![IrInstruction::I64Add],
        BinOp::Sub => seq![IrInstruction::I64Sub],
        BinOp::Mul => seq![IrInstruction::I64Mul],
        BinOp::Div => seq![IrInstruction::I64DivS],
        BinOp::Eq => seq![IrInstruction::I64Eq, IrInstruction::I64ExtendI32S],
        BinOp::Lt => seq![IrInstruction::I64LtS, IrInstruction::I64ExtendI32S],
        BinOp::Gt => seq![IrInstruction::I64GtS, IrInstruction::I64ExtendI32S],
        BinOp::NotEq => seq![
            IrInstruction::I64Eq,
            IrInstruction::I32Eqz,
            IrInstruction::I64ExtendI32S,
        ],
        BinOp::Le => seq![
            IrInstruction::I64GtS,
            IrInstruction::I32Eqz,
            IrInstruction::I64ExtendI32S,
        ],
        BinOp::Ge => seq![
            IrInstruction::I64LtS,
            IrInstruction::I32Eqz,
            IrInstruction::I64ExtendI32S,
        ],
    }
}

/// The instructions one expression lowers to, and whether they leave a
/// value on the stack (everything does, except a call to a function
/// declared without a return type); or the first resolution error.
pub open spec fn emit_expr_s(
    e: ExprV,
    map: Seq<(Seq<char>, u32)>,
    funcs: Seq<(Seq<char>, (u32, bool))>,
) -> Result<(Seq<IrInstruction>, bool), CodegenErrorV>
    decreases e,
{
    match e {
        ExprV::Int(v) => Ok((seq![IrInstruction::I64Const(v)], true)),
        ExprV::Local(name) => match lookup_s(map, name) {
            Some(idx) => Ok((seq![IrInstruction::LocalGet(idx)], true)),
            None => Err(CodegenErrorV::UnknownLocal { name }),
        },
        ExprV::Binary { op, left, right } => match emit_expr_s(*left, map, funcs) {
            Err(er) => Err(er),
            Ok((li, _)) => match emit_expr_s(*right, map, funcs) {
                Err(er) => Err(er),
                Ok((ri, _)) => Ok((li + ri + binop_ir(op), true)),
            },
        },
        ExprV::Call { name, args } => match emit_args_s(args, map, funcs) {
            Err(er) => Err(er),
            Ok(ai) => match lookup_s(funcs, name) {
                Some((idx, has_ret)) => Ok((ai.push(IrInstruction::Call(idx)), has_ret)),
                None => Err(CodegenErrorV::UnknownFunction { name }),
            },
        },
    }
}

/// The concatenated instructions of the argument expressions, lowered
/// left to right.
pub open spec fn emit_args_s(
    args: Seq<ExprV>,
    map: Seq<(Seq<char>, u32)>,
    funcs: Seq<(Seq<char>, (u32, bool))>,
) -> Result<Seq<IrInstruction>, CodegenErrorV>
    decreases args,
{
    if args.len() == 0 {
        Ok(Seq::empty())
    } else {
        match emit_expr_s(args[0], map, funcs) {
            Err(er) => Err(er),
            Ok((i0, _)) => match emit_args_s(args.subrange(1, args.len() as int), map, funcs) {
                Err(er) => Err(er),
                Ok(rest) => Ok(i0 + rest),
            },
        }
    }
}

/// Lowers one expression, appending its instructions to the current
/// function's list, and reports whether it left a value on the stack.
/// An unresolved local or callee name is a structured error naming it.
#[verifier::loop_isolation(false)]
pub fn emit_expr(expr: &Expr, fgen: &mut FuncGen, funcs: &Vec<(String, (u32, bool))>) -> (r:
    Result<bool, CodegenError>)
    ensures
        final(fgen).param_count == old(fgen).param_count,
        final(fgen).locals == old(fgen).locals,
        final(fgen).local_map@ == old(fgen).local_map@,
        final(fgen).has_return == old(fgen).has_return,
        (match r {
            Ok(produced) => {
                &&& emit_expr_s(expr@, old(fgen)@.map, crate::codegen::module::syms_view(funcs@))
                    matches Ok(pr)
                &&& pr.1 == produced
                &&& final(fgen).instructions@ == old(fgen).instructions@ + pr.0
            },
            Err(e) => emit_expr_s(expr@, old(fgen)@.map, crate::codegen::module::syms_view(funcs@))
                == Err::<(Seq<IrInstruction>, bool), CodegenErrorV>(e@),
        }),
    decreases expr,
{
    let ghost map = fgen@.map;
    let ghost fs = crate::codegen::module::syms_view(funcs@);
    let ghost instrs0 = fgen.instructions@;
    match expr {
        Expr::Int(v) => {
            fgen.instructions.push(IrInstruction::I64Const(*v));
            proof {
                assert(fgen.instructions@ =~= instrs0 + seq![IrInstruction::I64Const(*v)]);
            }
            Ok(true)
        },
        Expr::Local(name) => {
            match lookup_local(&fgen.local_map, name) {
                Some(idx) => {
                    fgen.instructions.push(IrInstruction::LocalGet(idx));
                    proof {
                        assert(fgen.instructions@ =~= instrs0 + seq![IrInstruction::LocalGet(idx)]);
                    }
                    Ok(true)
                },
                None => Err(CodegenError::UnknownLocal { name: name.clone() }),
            }
        },
        Expr::Binary { op, left, right } => {
            match emit_expr(left, fgen, funcs) {
                Ok(_) => (),
                Err(e) => {
                    return Err(e);
                },
            }
            let ghost after_left = fgen.instructions@;
            match emit_expr(right, fgen, funcs) {
                Ok(_) => (),
                Err(e) => {
                    return Err(e);
                },
            }
            let ghost after_right = fgen.instructions@;
            emit_binop(*op, fgen);
            proof {
                assert(emit_expr_s(expr@, map, fs) matches Ok(pr) && fgen.instructions@ == instrs0
                    + pr.0) by {
                    let lr = emit_expr_s(left@, map, fs)->Ok_0;
                    let rr = emit_expr_s(right@, map, fs)->Ok_0;
                    assert(after_left == instrs0 + lr.0);
                    assert(after_right == (instrs0 + lr.0) + rr.0);
                    assert(fgen.instructions@ == ((instrs0 + lr.0) + rr.0) + binop_ir(*op));
                    assert(((instrs0 + lr.0) + rr.0) + binop_ir(*op) =~= instrs0 + (lr.0 + rr.0
                        + binop_ir(*op)));
                }
            }
            Ok(true)
        },
        Expr::Call { name, args } => {
            proof {
                assert(crate::ast::exprs_view(args@).subrange(0, args@.len() as int)
                    =~= crate::ast::exprs_view(args@));
            }
            let mut idx: usize = 0;
            while idx < args.len()
                invariant
                    idx <= args.len(),
                    fgen.param_count == old(fgen).param_count,
                    fgen.locals == old(fgen).locals,
                    fgen.local_map@ == old(fgen).local_map@,
                    fgen.has_return == old(fgen).has_return,
                    (match emit_args_s(
                        crate::ast::exprs_view(args@).subrange(
                            idx as int,
                            args@.len() as int,
                        ),
                        map,
                        fs,
                    ) {
                        Ok(rest) => {
                            &&& emit_args_s(crate::ast::exprs_view(args@), map, fs) matches Ok(
                                all,
                            )
                            &&& fgen.instructions@ + rest == instrs0 + all
                        },
                        Err(e) => emit_args_s(crate::ast::exprs_view(args@), map, fs) == Err::<
                            Seq<IrInstruction>,
                            CodegenErrorV,
                        >(e),
                    }),
                decreases args.len() - idx,
            {
                let ghost suffix = crate::ast::exprs_view(args@).subrange(
                    idx as int,
                    args@.len() as int,
                );
                let arg = &args[idx];
                proof {
                    assert(suffix[0] == crate::ast::exprs_view(args@)[idx as int]);
                    assert(decreases_to!(expr => args@[idx as int]));
                }
                let ghost before_arg = fgen.instructions@;
                match emit_expr(arg, fgen, funcs) {
                    Ok(_) => (),
                    Err(e) => {
                        return Err(e);
                    },
                }
                idx = idx + 1;
                proof {
                    assert(suffix.subrange(1, suffix.len() as int) =~= crate::ast::exprs_view(
                        args@,
                    ).subrange(idx as int, args@.len() as int));
                    let ar = emit_expr_s(suffix[0], map, fs)->Ok_0;
                    assert(fgen.instructions@ == before_arg + ar.0);
                    match emit_args_s(
                        crate::ast::exprs_view(args@).subrange(idx as int, args@.len() as int),
                        map,
                        fs,
                    ) {
                        Ok(rest) => {
                            assert(before_arg + (ar.0 + rest) =~= fgen.instructions@ + rest);
                        },
                        Err(_) => {},
                    }
                }
            }
            proof {
                assert(crate::ast::exprs_view(args@).subrange(
                    args@.len() as int,
                    args@.len() as int,
                ) =~= Seq::<ExprV>::empty());
            }
            match lookup_func(funcs, name) {
                Some((fidx, has_ret)) => {
                    fgen.instructions.push(IrInstruction::Call(fidx));
                    proof {
                        let all = emit_args_s(crate::ast::exprs_view(args@), map, fs)->Ok_0;
                        assert(fgen.instructions@ =~= instrs0 + all.push(IrInstruction::Call(
                            fidx,
                        )));
                    }
                    Ok(has_ret)
                },
                None => Err(CodegenError::UnknownFunction { name: name.clone() }),
            }
        },
    }
}

/// Appends the expansion of one binary operator.
fn emit_binop(op: BinOp, fgen: &mut FuncGen)
    ensures
        final(fgen).param_count == old(fgen).param_count,
        final(fgen).locals == old(fgen).locals,
        final(fgen).local_map@ == old(fgen).local_map@,
        final(fgen).has_return == old(fgen).has_return,
        final(fgen).instructions@ == old(fgen).instructions@ + binop_ir(op),
{
    let ghost instrs0 = fgen.instructions@;
    match op {
        BinOp::Add => fgen.instructions.push(IrInstruction::I64Add),
        BinOp::Sub => fgen.instructions.push(IrInstruction::I64Sub),
        BinOp::Mul => fgen.instructions.push(IrInstruction::I64Mul),
        BinOp::Div => fgen.instructions.push(IrInstruction::I64DivS),
        BinOp::Eq => {
            fgen.instructions.push(IrInstruction::I64Eq);
            fgen.instructions.push(IrInstruction::I64ExtendI32S);
        },
        BinOp::Lt => {
            fgen.instructions.push(IrInstruction::I64LtS);
            fgen.instructions.push(IrInstruction::I64ExtendI32S);
        },
        BinOp::Gt => {
            fgen.instructions.push(IrInstruction::I64GtS);
            fgen.instructions.push(IrInstruction::I64ExtendI32S);
        },
        BinOp::NotEq => {
            fgen.instructions.push(IrInstruction::I64Eq);
            fgen.instructions.push(IrInstruction::I32Eqz);
            fgen.instructions.push(IrInstruction::I64ExtendI32S);
        },
        BinOp::Le => {
            fgen.instructions.push(IrInstruction::I64GtS);
            fgen.instructions.push(IrInstruction::I32Eqz);
            fgen.instructions.push(IrInstruction::I64ExtendI32S);
        },
        BinOp::Ge => {
            fgen.instructions.push(IrInstruction::I64LtS);
            fgen.instructions.push(IrInstruction::I32Eqz);
            fgen.instructions.push(IrInstruction::I64ExtendI32S);
        },
    }
    proof {
        assert(fgen.instructions@ =~= instrs0 + binop_ir(op));
    }
}

} // verus!

// The evaluation-stack model of the comparison instructions, and the
// derived-comparison law.

verus! {

/// The sign extension of the low 32 bits of a value: what
/// `I64ExtendI32S` leaves for a 32-bit operand.
pub open spec fn extend32(x: int) -> int {
    ((x + 0x8000_0000) % 0x1_0000_0000) - 0x8000_0000
}

/// One step of the evaluation-stack model, for the instructions the
/// comparison expansions use. Comparison results are the narrow boolean
/// 1 or 0; `None` for an instruction outside the modelled fragment or a
/// stack too short.
pub open spec fn flat_step(i: IrInstruction, stack: Seq<int>) -> Option<Seq<int>> {
    match i {
        IrInstruction::I64Eq => {
            if stack.len() >= 2 {
                Some(
                    stack.drop_last().drop_last().push(
                        if stack[stack.len() - 2] == stack.last() {
                            1int
                        } else {
                            0int
                        },
                    ),
                )
            } else {
                None
            }
        },
        IrInstruction::I64LtS => {
            if stack.len() >= 2 {
                Some(
                    stack.drop_last().drop_last().push(
                        if stack[stack.len() - 2] < stack.last() {
                            1int
                        } else {
                            0int
                        },
                    ),
                )
            } else {
                None
            }
        },
        IrInstruction::I64GtS => {
            if stack.len() >= 2 {
                Some(
                    stack.drop_last().drop_last().push(
                        if stack[stack.len() - 2] > stack.last() {
                            1int
                        } else {
                            0int
                        },
                    ),
                )
            } else {
                None
            }
        },
        IrInstruction::I32Eqz => {
            if stack.len() >= 1 {
                Some(stack.drop_last().push(if stack.last() == 0 {
                    1int
                } else {
                    0int
                }))
            } else {
                None
            }
        },
        IrInstruction::I64ExtendI32S => {
            if stack.len() >= 1 {
                Some(stack.drop_last().push(extend32(stack.last())))
            } else {
                None
            }
        },
        _ => None,
    }
}

/// Running a straight-line instruction sequence on the stack model.
pub open spec fn run_flat(instrs: Seq<IrInstruction>, stack: Seq<int>) -> Option<Seq<int>>
    decreases instrs.len(),
{
    if instrs.len() == 0 {
        Some(stack)
    } else {
        match flat_step(instrs[0], stack) {
            None => None,
            Some(s1) => run_flat(instrs.subrange(1, instrs.len() as int), s1),
        }
    }
}

/// The 64-bit value the lowered comparison leaves on the stack: 1 for
/// true and 0 for false, through the exact negate-then-widen expansion.
pub open spec fn cmp_value(op: BinOp, a: i64, b: i64) -> int {
    match op {
        BinOp::Eq => extend32(if a == b { 1int } else { 0int }),
        BinOp::Lt => extend32(if a < b { 1int } else { 0int }),
        BinOp::Gt => extend32(if a > b { 1int } else { 0int }),
        BinOp::NotEq => extend32(if (if a == b { 1int } else { 0int }) == 0 { 1int } else { 0int }),
        BinOp::Le => extend32(if (if a > b { 1int } else { 0int }) == 0 { 1int } else { 0int }),
        BinOp::Ge => extend32(if (if a < b { 1int } else { 0int }) == 0 { 1int } else { 0int }),
        _ => 0,
    }
}

/// Running the emitted expansion of a comparison operator on a stack
/// holding the two operands pushes exactly `cmp_value`: the stack model
/// agrees with the declarative value of each comparison.
pub proof fn lemma_cmp_lowering(op: BinOp, a: i64, b: i64, stack: Seq<int>)
    requires
        op is Eq || op is NotEq || op is Lt || op is Le || op is Gt || op is Ge,
    ensures
        run_flat(binop_ir(op), stack.push(a as int).push(b as int)) == Some(
            stack.push(cmp_value(op, a, b)),
        ),
{
    let s0 = stack.push(a as int).push(b as int);
    assert(s0[s0.len() - 2] == a as int && s0.last() == b as int);
    assert(s0.drop_last().drop_last() =~= stack);
    reveal_with_fuel(run_flat, 5);
    match op {
        BinOp::Eq => {
            let ir = binop_ir(op);
            let s1 = flat_step(ir[0], s0)->0;
            assert(ir.subrange(1, 2) =~= seq![IrInstruction::I64ExtendI32S]);
            assert(ir.subrange(1, 2).subrange(1, 1) =~= Seq::<IrInstruction>::empty());
            assert(s1.drop_last() =~= stack);
            assert(run_flat(ir, s0) == Some(stack.push(cmp_value(op, a, b))));
        },
        BinOp::Lt => {
            let ir = binop_ir(op);
            let s1 = flat_step(ir[0], s0)->0;
            assert(ir.subrange(1, 2) =~= seq![IrInstruction::I64ExtendI32S]);
            assert(ir.subrange(1, 2).subrange(1, 1) =~= Seq::<IrInstruction>::empty());
            assert(s1.drop_last() =~= stack);
            assert(run_flat(ir, s0) == Some(stack.push(cmp_value(op, a, b))));
        },
        BinOp::Gt => {
            let ir = binop_ir(op);
            let s1 = flat_step(ir[0], s0)->0;
            assert(ir.subrange(1, 2) =~= seq![IrInstruction::I64ExtendI32S]);
            assert(ir.subrange(1, 2).subrange(1, 1) =~= Seq::<IrInstruction>::empty());
            assert(s1.drop_last() =~= stack);
            assert(run_flat(ir, s0) == Some(stack.push(cmp_value(op, a, b))));
        },
        BinOp::NotEq => {
            let ir = binop_ir(op);
            let s1 = flat_step(ir[0], s0)->0;
            assert(s1.drop_last() =~= stack);
            let s2 = flat_step(IrInstruction::I32Eqz, s1)->0;
            assert(s2.drop_last() =~= stack);
            assert(ir.subrange(1, 3) =~= seq![IrInstruction::I32Eqz, IrInstruction::I64ExtendI32S]);
            assert(ir.subrange(1, 3).subrange(1, 2) =~= seq![IrInstruction::I64ExtendI32S]);
            assert(ir.subrange(1, 3).subrange(1, 2).subrange(1, 1) =~= Seq::<
                IrInstruction,
            >::empty());
            assert(run_flat(ir, s0) == Some(stack.push(cmp_value(op, a, b))));
        },
        BinOp::Le => {
            let ir = binop_ir(op);
            let s1 = flat_step(ir[0], s0)->0;
            assert(s1.drop_last() =~= stack);
            let s2 = flat_step(IrInstruction::I32Eqz, s1)->0;
            assert(s2.drop_last() =~= stack);
            assert(ir.subrange(1, 3) =~= seq![IrInstruction::I32Eqz, IrInstruction::I64ExtendI32S]);
            assert(ir.subrange(1, 3).subrange(1, 2) =~= seq![IrInstruction::I64ExtendI32S]);
            assert(ir.subrange(1, 3).subrange(1, 2).subrange(1, 1) =~= Seq::<
                IrInstruction,
            >::empty());
            assert(run_flat(ir, s0) == Some(stack.push(cmp_value(op, a, b))));
        },
        BinOp::Ge => {
            let ir = binop_ir(op);
            let s1 = flat_step(ir[0], s0)->0;
            assert(s1.drop_last() =~= stack);
            let s2 = flat_step(IrInstruction::I32Eqz, s1)->0;
            assert(s2.drop_last() =~= stack);
            assert(ir.subrange(1, 3) =~= seq![IrInstruction::I32Eqz, IrInstruction::I64ExtendI32S]);
            assert(ir.subrange(1, 3).subrange(1, 2) =~= seq![IrInstruction::I64ExtendI32S]);
            assert(ir.subrange(1, 3).subrange(1, 2).subrange(1, 1) =~= Seq::<
                IrInstruction,
            >::empty());
            assert(run_flat(ir, s0) == Some(stack.push(cmp_value(op, a, b))));
        },
        _ => {},
    }
}

/// Derived-comparison identity: for all representable integers `a`, `b`,
/// the compiled result of `a != b` equals `1 -` the compiled result of
/// `a == b`; likewise `a <= b` against `a > b`, and `a >= b` against
/// `a < b`.
pub proof fn derived_comparison_identity(a: i64, b: i64)
    ensures
        cmp_value(BinOp::NotEq, a, b) == 1 - cmp_value(BinOp::Eq, a, b),
        cmp_value(BinOp::Le, a, b) == 1 - cmp_value(BinOp::Gt, a, b),
        cmp_value(BinOp::Ge, a, b) == 1 - cmp_value(BinOp::Lt, a, b),
{
    assert(extend32(0) == 0);
    assert(extend32(1) == 1);
}

} // verus!

// Laws of name resolution.

verus! {

/// Referencing an undeclared local fails deterministically, naming the
/// offending identifier.
pub proof fn lemma_unknown_local_rejected(
    name: Seq<char>,
    map: Seq<(Seq<char>, u32)>,
    funcs: Seq<(Seq<char>, (u32, bool))>,
)
    requires
        lookup_s(map, name) is None,
    ensures
        emit_expr_s(ExprV::Local(name), map, funcs) == Err::<
            (Seq<IrInstruction>, bool),
            CodegenErrorV,
        >(CodegenErrorV::UnknownLocal { name }),
{
}

/// Calling an undeclared function fails deterministically, naming the
/// offending identifier, once its arguments lower.
pub proof fn lemma_unknown_function_rejected(
    name: Seq<char>,
    args: Seq<ExprV>,
    map: Seq<(Seq<char>, u32)>,
    funcs: Seq<(Seq<char>, (u32, bool))>,
)
    requires
        lookup_s(funcs, name) is None,
        emit_args_s(args, map, funcs) is Ok,
    ensures
        emit_expr_s(ExprV::Call { name, args }, map, funcs) == Err::<
            (Seq<IrInstruction>, bool),
            CodegenErrorV,
        >(CodegenErrorV::UnknownFunction { name }),
{
}

} // verus!
