//! Statement lowering: statements to intermediate instructions, threading
//! the per-function generator state (slot allocation, name-to-slot map,
//! accumulated instructions) through blocks in source order.

use vstd::prelude::*;

use crate::ast::{Stmt, StmtV};
use crate::codegen::expr::{emit_expr, emit_expr_s};
use crate::codegen::ir::IrInstruction;
use crate::codegen::module::{syms_view, CodegenError, CodegenErrorV, FuncGen, GenV};

verus! {

/// How many local slots lowering a statement allocates: one per `let`,
/// inside nested blocks included.
pub open spec fn let_count(s: StmtV) -> int
    decreases s,
{
    match s {
        StmtV::Let { .. } => 1,
        StmtV::If { then_block, else_block, .. } => let_count_seq(then_block) + let_count_seq(
            else_block,
        ),
        StmtV::While { body, .. } => let_count_seq(body),
        _ => 0,
    }
}

/// How many local slots lowering a statement sequence allocates.
pub open spec fn let_count_seq(ss: Seq<StmtV>) -> int
    decreases ss,
{
    if ss.len() == 0 {
        0
    } else {
        let_count(ss[0]) + let_count_seq(ss.subrange(1, ss.len() as int))
    }
}

pub proof fn lemma_let_count_nonneg(s: StmtV)
    ensures
        let_count(s) >= 0,
    decreases s,
{
    match s {
        StmtV::If { then_block, else_block, .. } => {
            lemma_let_count_seq_nonneg(then_block);
            lemma_let_count_seq_nonneg(else_block);
        },
        StmtV::While { body, .. } => {
            lemma_let_count_seq_nonneg(body);
        },
        _ => {},
    }
}

pub proof fn lemma_let_count_seq_nonneg(ss: Seq<StmtV>)
    ensures
        let_count_seq(ss) >= 0,
    decreases ss,
{
    if ss.len() > 0 {
        lemma_let_count_nonneg(ss[0]);
        lemma_let_count_seq_nonneg(ss.subrange(1, ss.len() as int));
    }
}

/// The generator state with instructions appended.
pub open spec fn gen_app(g: GenV, more: Seq<IrInstruction>) -> GenV {
    GenV {
        param_count: g.param_count,
        locals: g.locals,
        map: g.map,
        instrs: g.instrs + more,
        has_return: g.has_return,
    }
}

/// The generator state after a `let`: the next slot is allocated and the
/// name is bound to it, shadowing any earlier binding of that name.
pub open spec fn gen_bind(g: GenV, name: Seq<char>, idx: u32) -> GenV {
    GenV {
        param_count: g.param_count,
        locals: g.locals + 1,
        map: g.map.push((name, idx)),
        instrs: g.instrs,
        has_return: g.has_return,
    }
}

/// The generator state after lowering one statement, or the first
/// resolution error.
pub open spec fn emit_stmt_s(s: StmtV, g: GenV, funcs: Seq<(Seq<char>, (u32, bool))>) -> Result<
    GenV,
    CodegenErrorV,
>
    decreases s,
{
    match s {
        StmtV::Let { name, value } => {
            let idx = (g.param_count + g.locals) as u32;
            let g1 = gen_bind(g, name, idx);
            match emit_expr_s(value, g1.map, funcs) {
                Err(e) => Err(e),
                Ok((vi, _)) => Ok(gen_app(g1, vi + seq![IrInstruction::LocalSet(idx)])),
            }
        },
        StmtV::Expr(e) => match emit_expr_s(e, g.map, funcs) {
            Err(er) => Err(er),
            Ok((ei, produced)) => {
                if produced {
                    Ok(gen_app(g, ei + seq![IrInstruction::Drop]))
                } else {
                    Ok(gen_app(g, ei))
                }
            },
        },
        StmtV::Return(opt) => match opt {
            Some(e) => match emit_expr_s(e, g.map, funcs) {
                Err(er) => Err(er),
                Ok((ei, _)) => Ok(gen_app(g, ei + seq![IrInstruction::Return])),
            },
            None => {
                if g.has_return {
                    Ok(gen_app(g, seq![IrInstruction::I64Const(0), IrInstruction::Return]))
                } else {
                    Ok(gen_app(g, seq![IrInstruction::Return]))
                }
            },
        },
        StmtV::If { cond, then_block, else_block } => match emit_expr_s(cond, g.map, funcs) {
            Err(er) => Err(er),
            Ok((ci, _)) => {
                let g1 = gen_app(
                    g,
                    ci + seq![IrInstruction::I64Eqz, IrInstruction::I32Eqz, IrInstruction::If],
                );
                match emit_stmts_s(then_block, g1, funcs) {
                    Err(er) => Err(er),
                    Ok(g2) => {
                        if else_block.len() > 0 {
                            let g3 = gen_app(g2, seq![IrInstruction::Else]);
                            match emit_stmts_s(else_block, g3, funcs) {
                                Err(er) => Err(er),
                                Ok(g4) => Ok(gen_app(g4, seq![IrInstruction::End])),
                            }
                        } else {
                            Ok(gen_app(g2, seq![IrInstruction::End]))
                        }
                    },
                }
            },
        },
        StmtV::While { cond, body } => {
            let g1 = gen_app(g, seq![IrInstruction::Block, IrInstruction::Loop]);
            match emit_expr_s(cond, g1.map, funcs) {
                Err(er) => Err(er),
                Ok((ci, _)) => {
                    let g2 = gen_app(g1, ci + seq![IrInstruction::I64Eqz, IrInstruction::BrIf(1)]);
                    match emit_stmts_s(body, g2, funcs) {
                        Err(er) => Err(er),
                        Ok(g3) => Ok(
                            gen_app(
                                g3,
                                seq![IrInstruction::Br(0), IrInstruction::End, IrInstruction::End],
                            ),
                        ),
                    }
                },
            }
        },
    }
}

/// The generator state after lowering a statement sequence in order.
pub open spec fn emit_stmts_s(
    ss: Seq<StmtV>,
    g: GenV,
    funcs: Seq<(Seq<char>, (u32, bool))>,
) -> Result<GenV, CodegenErrorV>
    decreases ss,
{
    if ss.len() == 0 {
        Ok(g)
    } else {
        match emit_stmt_s(ss[0], g, funcs) {
            Err(e) => Err(e),
            Ok(g1) => emit_stmts_s(ss.subrange(1, ss.len() as int), g1, funcs),
        }
    }
}

/// Lowers one statement into the current function's instruction list,
/// allocating local slots for `let` bindings.
#[verifier::loop_isolation(false)]
pub fn emit_stmt(stmt: &Stmt, fgen: &mut FuncGen, funcs: &Vec<(String, (u32, bool))>) -> (r:
    Result<(), CodegenError>)
    requires
        old(fgen)@.param_count + old(fgen)@.locals + let_count(stmt@) <= u32::MAX,
    ensures
        final(fgen)@.param_count == old(fgen)@.param_count,
        final(fgen)@.has_return == old(fgen)@.has_return,
        final(fgen)@.locals <= old(fgen)@.locals + let_count(stmt@),
        (match r {
            Ok(u) => emit_stmt_s(stmt@, old(fgen)@, syms_view(funcs@)) == Ok::<GenV, CodegenErrorV>(
                final(fgen)@,
            ),
            Err(e) => emit_stmt_s(stmt@, old(fgen)@, syms_view(funcs@)) == Err::<
                GenV,
                CodegenErrorV,
            >(e@),
        }),
    decreases stmt,
{
    let ghost g0 = fgen@;
    let ghost fs = syms_view(funcs@);
    proof {
        lemma_let_count_nonneg(stmt@);
    }
    match stmt {
        Stmt::Let { name, value } => {
            let idx = fgen.param_count + fgen.locals;
            fgen.locals = fgen.locals + 1;
            fgen.local_map.push((name.clone(), idx));
            proof {
                assert(fgen@.map =~= g0.map.push((name@, idx)));
                assert(fgen@ == gen_bind(g0, name@, idx));
            }
            let ghost g1 = fgen@;
            match emit_expr(value, fgen, funcs) {
                Ok(_) => (),
                Err(e) => {
                    return Err(e);
                },
            }
            fgen.instructions.push(IrInstruction::LocalSet(idx));
            proof {
                let vi = emit_expr_s(value@, g1.map, fs)->Ok_0.0;
                assert(fgen.instructions@ =~= g1.instrs + (vi + seq![IrInstruction::LocalSet(
                    idx,
                )]));
                assert(fgen@ == gen_app(gen_bind(g0, name@, idx), vi + seq![
                    IrInstruction::LocalSet(idx),
                ]));
            }
            Ok(())
        },
        Stmt::Expr(e) => {
            let produced = match emit_expr(e, fgen, funcs) {
                Ok(p) => p,
                Err(er) => {
                    return Err(er);
                },
            };
            let ghost ei = emit_expr_s(e@, g0.map, fs)->Ok_0.0;
            if produced {
                fgen.instructions.push(IrInstruction::Drop);
                proof {
                    assert(fgen.instructions@ =~= g0.instrs + (ei + seq![IrInstruction::Drop]));
                    assert(fgen@ == gen_app(g0, ei + seq![IrInstruction::Drop]));
                }
            } else {
                proof {
                    assert(fgen@ == gen_app(g0, ei));
                }
            }
            Ok(())
        },
        Stmt::Return(opt) => {
            match opt {
                Some(e) => {
                    match emit_expr(e, fgen, funcs) {
                        Ok(_) => (),
                        Err(er) => {
                            return Err(er);
                        },
                    }
                    fgen.instructions.push(IrInstruction::Return);
                    proof {
                        let ei = emit_expr_s(e@, g0.map, fs)->Ok_0.0;
                        assert(fgen.instructions@ =~= g0.instrs + (ei + seq![
                            IrInstruction::Return,
                        ]));
                        assert(fgen@ == gen_app(g0, ei + seq![IrInstruction::Return]));
                    }
                },
                None => {
                    if fgen.has_return {
                        fgen.instructions.push(IrInstruction::I64Const(0));
                    }
                    fgen.instructions.push(IrInstruction::Return);
                    proof {
                        if g0.has_return {
                            assert(fgen.instructions@ =~= g0.instrs + seq![
                                IrInstruction::I64Const(0),
                                IrInstruction::Return,
                            ]);
                        } else {
                            assert(fgen.instructions@ =~= g0.instrs + seq![
                                IrInstruction::Return,
                            ]);
                        }
                    }
                },
            }
            Ok(())
        },
        Stmt::If { cond, then_block, else_block } => {
            match emit_expr(cond, fgen, funcs) {
                Ok(_) => (),
                Err(er) => {
                    return Err(er);
                },
            }
            fgen.instructions.push(IrInstruction::I64Eqz);
            fgen.instructions.push(IrInstruction::I32Eqz);
            fgen.instructions.push(IrInstruction::If);
            proof {
                let ci = emit_expr_s(cond@, g0.map, fs)->Ok_0.0;
                assert(fgen.instructions@ =~= g0.instrs + (ci + seq![
                    IrInstruction::I64Eqz,
                    IrInstruction::I32Eqz,
                    IrInstruction::If,
                ]));
                assert(fgen@ == gen_app(g0, ci + seq![
                    IrInstruction::I64Eqz,
                    IrInstruction::I32Eqz,
                    IrInstruction::If,
                ]));
                lemma_let_count_seq_nonneg(crate::ast::stmts_view(then_block@));
                lemma_let_count_seq_nonneg(crate::ast::stmts_view(else_block@));
            }
            match emit_block(then_block, fgen, funcs) {
                Ok(_) => (),
                Err(er) => {
                    return Err(er);
                },
            }
            if else_block.len() > 0 {
                let ghost g2 = fgen@;
                fgen.instructions.push(IrInstruction::Else);
                proof {
                    assert(fgen.instructions@ =~= g2.instrs + seq![IrInstruction::Else]);
                    assert(fgen@ == gen_app(g2, seq![IrInstruction::Else]));
                }
                match emit_block(else_block, fgen, funcs) {
                    Ok(_) => (),
                    Err(er) => {
                        return Err(er);
                    },
                }
            }
            let ghost g4 = fgen@;
            fgen.instructions.push(IrInstruction::End);
            proof {
                assert(fgen.instructions@ =~= g4.instrs + seq![IrInstruction::End]);
                assert(fgen@ == gen_app(g4, seq![IrInstruction::End]));
            }
            Ok(())
        },
        Stmt::While { cond, body } => {
            fgen.instructions.push(IrInstruction::Block);
            fgen.instructions.push(IrInstruction::Loop);
            proof {
                assert(fgen.instructions@ =~= g0.instrs + seq![
                    IrInstruction::Block,
                    IrInstruction::Loop,
                ]);
                assert(fgen@ == gen_app(g0, seq![IrInstruction::Block, IrInstruction::Loop]));
            }
            let ghost g1 = fgen@;
            match emit_expr(cond, fgen, funcs) {
                Ok(_) => (),
                Err(er) => {
                    return Err(er);
                },
            }
            fgen.instructions.push(IrInstruction::I64Eqz);
            fgen.instructions.push(IrInstruction::BrIf(1));
            proof {
                let ci = emit_expr_s(cond@, g1.map, fs)->Ok_0.0;
                assert(fgen.instructions@ =~= g1.instrs + (ci + seq![
                    IrInstruction::I64Eqz,
                    IrInstruction::BrIf(1),
                ]));
                assert(fgen@ == gen_app(g1, ci + seq![
                    IrInstruction::I64Eqz,
                    IrInstruction::BrIf(1),
                ]));
            }
            match emit_block(body, fgen, funcs) {
                Ok(_) => (),
                Err(er) => {
                    return Err(er);
                },
            }
            let ghost g3 = fgen@;
            fgen.instructions.push(IrInstruction::Br(0));
            fgen.instructions.push(IrInstruction::End);
            fgen.instructions.push(IrInstruction::End);
            proof {
                assert(fgen.instructions@ =~= g3.instrs + seq![
                    IrInstruction::Br(0),
                    IrInstruction::End,
                    IrInstruction::End,
                ]);
                assert(fgen@ == gen_app(g3, seq![
                    IrInstruction::Br(0),
                    IrInstruction::End,
                    IrInstruction::End,
                ]));
            }
            Ok(())
        },
    }
}

/// Lowers the statements of one block in source order.
#[verifier::loop_isolation(false)]
pub(crate) fn emit_block(stmts: &Vec<Stmt>, fgen: &mut FuncGen, funcs: &Vec<(String, (u32, bool))>) -> (r:
    Result<(), CodegenError>)
    requires
        old(fgen)@.param_count + old(fgen)@.locals + let_count_seq(
            crate::ast::stmts_view(stmts@),
        ) <= u32::MAX,
    ensures
        final(fgen)@.param_count == old(fgen)@.param_count,
        final(fgen)@.has_return == old(fgen)@.has_return,
        final(fgen)@.locals <= old(fgen)@.locals + let_count_seq(crate::ast::stmts_view(stmts@)),
        (match r {
            Ok(u) => emit_stmts_s(crate::ast::stmts_view(stmts@), old(fgen)@, syms_view(funcs@))
                == Ok::<GenV, CodegenErrorV>(final(fgen)@),
            Err(e) => emit_stmts_s(crate::ast::stmts_view(stmts@), old(fgen)@, syms_view(funcs@))
                == Err::<GenV, CodegenErrorV>(e@),
        }),
    decreases stmts,
{
    let ghost full = crate::ast::stmts_view(stmts@);
    let ghost fs = syms_view(funcs@);
    proof {
        assert(full.subrange(0, full.len() as int) =~= full);
        lemma_let_count_seq_nonneg(full);
    }
    let mut idx: usize = 0;
    while idx < stmts.len()
        invariant
            idx <= stmts.len(),
            fgen@.param_count == old(fgen)@.param_count,
            fgen@.has_return == old(fgen)@.has_return,
            fgen@.locals + let_count_seq(full.subrange(idx as int, full.len() as int)) <= old(
                fgen,
            )@.locals + let_count_seq(full),
            emit_stmts_s(full, old(fgen)@, fs) == emit_stmts_s(
                full.subrange(idx as int, full.len() as int),
                fgen@,
                fs,
            ),
        decreases stmts@.len() - idx,
    {
        let ghost suffix = full.subrange(idx as int, full.len() as int);
        proof {
            assert(suffix[0] == full[idx as int]);
            lemma_let_count_nonneg(full[idx as int]);
            lemma_let_count_seq_nonneg(full.subrange(idx + 1, full.len() as int));
            assert(suffix.subrange(1, suffix.len() as int) =~= full.subrange(
                idx + 1,
                full.len() as int,
            ));
            assert(let_count_seq(suffix) == let_count(suffix[0]) + let_count_seq(
                suffix.subrange(1, suffix.len() as int),
            ));
            assert(decreases_to!(stmts => stmts@[idx as int]));
        }
        let s = &stmts[idx];
        match emit_stmt(s, fgen, funcs) {
            Ok(_) => (),
            Err(e) => {
                return Err(e);
            },
        }
        idx = idx + 1;
    }
    proof {
        assert(full.subrange(full.len() as int, full.len() as int) =~= Seq::<StmtV>::empty());
    }
    Ok(())
}

} // verus!
