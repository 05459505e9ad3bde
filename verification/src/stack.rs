//! The typed stack discipline of emitted code: a small typed stack machine
//! over slot types, and the proof that every expression the emitter lowers
//! pushes exactly the dissolution of its semantic type, so that a function
//! body reaches its `End` with exactly the dissolution of the declared
//! result type on the stack.
use crate::ast::{AstModel, TypeAst};
use crate::emitter::{
    spec_collect_params, spec_concat_dissolve, spec_drops, spec_emit_args, spec_emit_body,
    spec_emit_defn, spec_emit_obj, spec_f32_opcode, spec_head_operator, spec_i32_opcode,
    spec_lookup_function, spec_param_env, FuncModel, ModuleModel, OpCode, PrimitiveType,
};
use crate::env::{Pointer, Variable};
use crate::error::{ErrModel, Operator};
use crate::resolver::{spec_dissolve_type, spec_resolve_type, Type};
use vstd::prelude::*;

verus! {

/// The slots a call pops: the callee's parameter types, dissolved in order.
pub open spec fn spec_callee_params(f: FuncModel) -> Seq<PrimitiveType> {
    spec_concat_dissolve(f.arg_types)
}

/// The slots a call pushes: the callee's result type, dissolved.
pub open spec fn spec_callee_results(f: FuncModel) -> Seq<PrimitiveType> {
    spec_dissolve_type(f.result_type)
}

/// One instruction's effect on the typed stack, `None` where it does not
/// fit. Value instructions pop their operand slots and push their result;
/// the local declaration count and `End` leave the stack alone.
pub open spec fn spec_step(
    funcs: Seq<FuncModel>,
    locals: Seq<PrimitiveType>,
    stack: Seq<PrimitiveType>,
    op: OpCode,
) -> Option<Seq<PrimitiveType>> {
    match op {
        OpCode::Drop => if stack.len() >= 1 {
            Some(stack.drop_last())
        } else {
            None
        },
        OpCode::End => Some(stack),
        OpCode::LocalDeclCount(_) => Some(stack),
        OpCode::LocalGet(n) => if (n as int) < locals.len() {
            Some(stack.push(locals[n as int]))
        } else {
            None
        },
        OpCode::Call(n) => if (n as int) < funcs.len() {
            let params = spec_callee_params(funcs[n as int]);
            if stack.len() >= params.len() && stack.skip(stack.len() - params.len()) == params {
                Some(
                    stack.take(stack.len() - params.len()) + spec_callee_results(
                        funcs[n as int],
                    ),
                )
            } else {
                None
            }
        } else {
            None
        },
        OpCode::I32Const(_) => Some(stack.push(PrimitiveType::I32)),
        OpCode::F32Const(_) => Some(stack.push(PrimitiveType::F32)),
        OpCode::I32Add | OpCode::I32Sub | OpCode::I32Mul | OpCode::I32Div => if stack.len() >= 2
            && stack[stack.len() - 1] == PrimitiveType::I32 && stack[stack.len() - 2]
            == PrimitiveType::I32 {
            Some(stack.drop_last())
        } else {
            None
        },
        OpCode::F32Add | OpCode::F32Sub | OpCode::F32Mul | OpCode::F32Div => if stack.len() >= 2
            && stack[stack.len() - 1] == PrimitiveType::F32 && stack[stack.len() - 2]
            == PrimitiveType::F32 {
            Some(stack.drop_last())
        } else {
            None
        },
        OpCode::F32Neg => if stack.len() >= 1 && stack[stack.len() - 1] == PrimitiveType::F32 {
            Some(stack)
        } else {
            None
        },
        OpCode::F32ConvertI32S => if stack.len() >= 1 && stack[stack.len() - 1]
            == PrimitiveType::I32 {
            Some(stack.drop_last().push(PrimitiveType::F32))
        } else {
            None
        },
    }
}

/// Runs a code sequence on a typed stack, instruction by instruction.
pub open spec fn spec_run(
    funcs: Seq<FuncModel>,
    locals: Seq<PrimitiveType>,
    stack: Seq<PrimitiveType>,
    ops: Seq<OpCode>,
) -> Option<Seq<PrimitiveType>>
    decreases ops.len(),
{
    if ops.len() == 0 {
        Some(stack)
    } else {
        match spec_step(funcs, locals, stack, ops[0]) {
            None => None,
            Some(s2) => spec_run(funcs, locals, s2, ops.drop_first()),
        }
    }
}

/// Running concatenated code runs the first part, then the second on what
/// the first left.
pub proof fn lemma_run_append(
    funcs: Seq<FuncModel>,
    locals: Seq<PrimitiveType>,
    stack: Seq<PrimitiveType>,
    a: Seq<OpCode>,
    b: Seq<OpCode>,
)
    ensures
        spec_run(funcs, locals, stack, a + b) == (match spec_run(funcs, locals, stack, a) {
            None => None,
            Some(s2) => spec_run(funcs, locals, s2, b),
        }),
    decreases a.len(),
{
    if a.len() == 0 {
        assert(a + b =~= b);
    } else {
        assert((a + b)[0] == a[0]);
        assert((a + b).drop_first() =~= a.drop_first() + b);
        match spec_step(funcs, locals, stack, a[0]) {
            None => {},
            Some(s2) => {
                lemma_run_append(funcs, locals, s2, a.drop_first(), b);
            },
        }
    }
}

/// Running one instruction.
proof fn lemma_run_single(
    funcs: Seq<FuncModel>,
    locals: Seq<PrimitiveType>,
    stack: Seq<PrimitiveType>,
    op: OpCode,
)
    ensures
        spec_run(funcs, locals, stack, seq![op]) == spec_step(funcs, locals, stack, op),
{
    assert(seq![op].drop_first() =~= Seq::<OpCode>::empty());
    match spec_step(funcs, locals, stack, op) {
        None => {},
        Some(s2) => {
            assert(spec_run(funcs, locals, s2, Seq::<OpCode>::empty()) == Some(s2));
        },
    }
}

/// The environment's bindings agree with the local slots: every bound
/// variable has a one-slot type, its slot exists, and the slot holds that
/// type's dissolution.
pub open spec fn spec_env_agrees(
    env: Seq<(Seq<char>, Variable)>,
    locals: Seq<PrimitiveType>,
) -> bool {
    forall|i: int|
        0 <= i < env.len() ==> {
            let v = (#[trigger] env[i]).1;
            match v.pointer {
                Pointer::Local(slot) => {
                    &&& spec_dissolve_type(v.t).len() == 1
                    &&& (slot as int) < locals.len()
                    &&& locals[slot as int] == spec_dissolve_type(v.t)[0]
                },
            }
        }
}

/// A bound variable keeps agreeing after a lookup.
proof fn lemma_env_lookup_agrees(
    env: Seq<(Seq<char>, Variable)>,
    locals: Seq<PrimitiveType>,
    name: Seq<char>,
)
    requires
        spec_env_agrees(env, locals),
        crate::env::spec_env_lookup(env, name) is Some,
    ensures
        ({
            let v = crate::env::spec_env_lookup(env, name)->0;
            match v.pointer {
                Pointer::Local(slot) => {
                    &&& spec_dissolve_type(v.t).len() == 1
                    &&& (slot as int) < locals.len()
                    &&& locals[slot as int] == spec_dissolve_type(v.t)[0]
                },
            }
        }),
    decreases env.len(),
{
    if env.len() > 0 {
        if env.last().0 == name {
            assert(env[env.len() - 1] == env.last());
        } else {
            assert(spec_env_agrees(env.drop_last(), locals)) by {
                assert(forall|i: int|
                    0 <= i < env.len() - 1 ==> #[trigger] env.drop_last()[i] == env[i]);
            }
            lemma_env_lookup_agrees(env.drop_last(), locals, name);
        }
    }
}

/// The slots the call arguments `items[i..]` leave on the stack: each
/// argument's emitted type, dissolved, in order.
pub open spec fn spec_args_slots(
    items: Seq<AstModel>,
    i: int,
    env: Seq<(Seq<char>, Variable)>,
    funcs: Seq<FuncModel>,
) -> Seq<PrimitiveType>
    decreases items, (items.len() - i),
{
    if i < 0 || i >= items.len() {
        Seq::empty()
    } else {
        match spec_emit_obj(items[i], env, funcs) {
            Err(_) => Seq::empty(),
            Ok(p) => spec_dissolve_type(p.1) + spec_args_slots(items, i + 1, env, funcs),
        }
    }
}

/// Every call site inside `ast` hands its callee exactly the slots the
/// callee's parameters dissolve to. The emitter itself does not check
/// argument count or types against the callee — a known gap of the language
/// — so the stack discipline assumes it of the program.
pub open spec fn spec_calls_agree(
    ast: AstModel,
    env: Seq<(Seq<char>, Variable)>,
    funcs: Seq<FuncModel>,
) -> bool
    decreases ast, 1int,
{
    match ast {
        AstModel::List(items) => {
            if items.len() == 0 {
                true
            } else if spec_head_operator(items[0]) is Some {
                let op = spec_head_operator(items[0])->0;
                if op == Operator::Sub && items.len() == 2 {
                    spec_calls_agree(items[1], env, funcs)
                } else if items.len() == 3 {
                    spec_calls_agree(items[1], env, funcs) && spec_calls_agree(
                        items[2],
                        env,
                        funcs,
                    )
                } else {
                    true
                }
            } else {
                match items[0] {
                    AstModel::Symbol(name) => {
                        if name == "let"@ {
                            true
                        } else {
                            match spec_lookup_function(funcs, name) {
                                None => true,
                                Some(idx) => spec_args_agree(items, 1, env, funcs)
                                    && spec_args_slots(items, 1, env, funcs)
                                    == spec_callee_params(funcs[idx]),
                            }
                        }
                    },
                    _ => true,
                }
            }
        },
        _ => true,
    }
}

/// Every call site inside the argument forms `items[i..]` agrees.
pub open spec fn spec_args_agree(
    items: Seq<AstModel>,
    i: int,
    env: Seq<(Seq<char>, Variable)>,
    funcs: Seq<FuncModel>,
) -> bool
    decreases items, (items.len() - i),
{
    if i < 0 || i >= items.len() {
        true
    } else {
        spec_calls_agree(items[i], env, funcs) && spec_args_agree(items, i + 1, env, funcs)
    }
}

/// Emitted expression code is stack-disciplined: run on any typed stack it
/// pushes exactly the dissolution of the expression's semantic type.
pub proof fn lemma_emit_obj_stack(
    ast: AstModel,
    env: Seq<(Seq<char>, Variable)>,
    funcs: Seq<FuncModel>,
    locals: Seq<PrimitiveType>,
    stack: Seq<PrimitiveType>,
    ops: Seq<OpCode>,
    t: Type,
)
    requires
        spec_emit_obj(ast, env, funcs) == Ok::<(Seq<OpCode>, Type), ErrModel>((ops, t)),
        spec_env_agrees(env, locals),
        spec_calls_agree(ast, env, funcs),
        funcs.len() < 0x1_0000_0000,
    ensures
        spec_run(funcs, locals, stack, ops) == Some(stack + spec_dissolve_type(t)),
    decreases ast, 1int,
{
    match ast {
        AstModel::NumberLiteral(text) => {
            lemma_run_single(funcs, locals, stack, ops[0]);
            assert(ops =~= seq![ops[0]]);
            assert(stack + spec_dissolve_type(t) =~= stack.push(PrimitiveType::I32));
        },
        AstModel::Symbol(name) => {
            lemma_env_lookup_agrees(env, locals, name);
            lemma_run_single(funcs, locals, stack, ops[0]);
            assert(ops =~= seq![ops[0]]);
            let v = crate::env::spec_env_lookup(env, name)->0;
            match v.pointer {
                Pointer::Local(slot) => {
                    assert(stack + spec_dissolve_type(t) =~= stack.push(locals[slot as int]));
                },
            }
        },
        AstModel::List(items) => {
            if spec_head_operator(items[0]) is Some {
                let op = spec_head_operator(items[0])->0;
                if op == Operator::Sub && items.len() == 2 {
                    let p = spec_emit_obj(items[1], env, funcs)->Ok_0;
                    let (c, t1) = p;
                    lemma_emit_obj_stack(items[1], env, funcs, locals, stack, c, t1);
                    if t1 == Type::F32 {
                        assert(ops == c + seq![OpCode::F32Neg]);
                        lemma_run_append(funcs, locals, stack, c, seq![OpCode::F32Neg]);
                        let s1 = stack + spec_dissolve_type(t1);
                        assert(s1[s1.len() - 1] == PrimitiveType::F32);
                        lemma_run_single(funcs, locals, s1, OpCode::F32Neg);
                    } else {
                        assert(t1 == Type::I32);
                        assert(ops == seq![OpCode::I32Const(0)] + c + seq![OpCode::I32Sub]);
                        lemma_run_append(
                            funcs,
                            locals,
                            stack,
                            seq![OpCode::I32Const(0)] + c,
                            seq![OpCode::I32Sub],
                        );
                        lemma_run_append(funcs, locals, stack, seq![OpCode::I32Const(0)], c);
                        lemma_run_single(funcs, locals, stack, OpCode::I32Const(0));
                        lemma_emit_obj_stack(
                            items[1],
                            env,
                            funcs,
                            locals,
                            stack.push(PrimitiveType::I32),
                            c,
                            t1,
                        );
                        let s1 = stack.push(PrimitiveType::I32) + spec_dissolve_type(t1);
                        assert(s1[s1.len() - 1] == PrimitiveType::I32);
                        assert(s1[s1.len() - 2] == PrimitiveType::I32);
                        lemma_run_single(funcs, locals, s1, OpCode::I32Sub);
                        assert(s1.drop_last() =~= stack.push(PrimitiveType::I32));
                        assert(stack + spec_dissolve_type(t) =~= stack.push(PrimitiveType::I32));
                    }
                } else {
                    assert(items.len() == 3);
                    let l = spec_emit_obj(items[1], env, funcs)->Ok_0;
                    let r = spec_emit_obj(items[2], env, funcs)->Ok_0;
                    let (lc, lt) = l;
                    let (rc, rt) = r;
                    lemma_emit_obj_stack(items[1], env, funcs, locals, stack, lc, lt);
                    if lt == Type::I32 && rt == Type::I32 {
                        let s1 = stack + spec_dissolve_type(lt);
                        lemma_emit_obj_stack(items[2], env, funcs, locals, s1, rc, rt);
                        let s2 = s1 + spec_dissolve_type(rt);
                        assert(ops == lc + rc + seq![spec_i32_opcode(op)]);
                        lemma_run_append(funcs, locals, stack, lc + rc, seq![spec_i32_opcode(op)]);
                        lemma_run_append(funcs, locals, stack, lc, rc);
                        lemma_run_single(funcs, locals, s2, spec_i32_opcode(op));
                        assert(s2[s2.len() - 1] == PrimitiveType::I32);
                        assert(s2[s2.len() - 2] == PrimitiveType::I32);
                        assert(s2.drop_last() =~= s1);
                        assert(stack + spec_dissolve_type(t) =~= s1);
                    } else {
                        let lc2 = if lt == Type::I32 {
                            lc + seq![OpCode::F32ConvertI32S]
                        } else {
                            lc
                        };
                        let rc2 = if rt == Type::I32 {
                            rc + seq![OpCode::F32ConvertI32S]
                        } else {
                            rc
                        };
                        assert(ops == lc2 + rc2 + seq![spec_f32_opcode(op)]);
                        let sf = stack.push(PrimitiveType::F32);
                        assert(spec_run(funcs, locals, stack, lc2) == Some(sf)) by {
                            if lt == Type::I32 {
                                lemma_run_append(
                                    funcs,
                                    locals,
                                    stack,
                                    lc,
                                    seq![OpCode::F32ConvertI32S],
                                );
                                let s1 = stack + spec_dissolve_type(lt);
                                assert(s1[s1.len() - 1] == PrimitiveType::I32);
                                lemma_run_single(funcs, locals, s1, OpCode::F32ConvertI32S);
                                assert(s1.drop_last() =~= stack);
                            } else {
                                assert(lt == Type::F32);
                                assert(stack + spec_dissolve_type(lt) =~= sf);
                            }
                        }
                        let sff = sf.push(PrimitiveType::F32);
                        assert(spec_run(funcs, locals, sf, rc2) == Some(sff)) by {
                            lemma_emit_obj_stack(items[2], env, funcs, locals, sf, rc, rt);
                            if rt == Type::I32 {
                                lemma_run_append(
                                    funcs,
                                    locals,
                                    sf,
                                    rc,
                                    seq![OpCode::F32ConvertI32S],
                                );
                                let s1 = sf + spec_dissolve_type(rt);
                                assert(s1[s1.len() - 1] == PrimitiveType::I32);
                                lemma_run_single(funcs, locals, s1, OpCode::F32ConvertI32S);
                                assert(s1.drop_last() =~= sf);
                                assert(s1.drop_last().push(PrimitiveType::F32) =~= sff);
                            } else {
                                assert(rt == Type::F32);
                                assert(sf + spec_dissolve_type(rt) =~= sff);
                            }
                        }
                        lemma_run_append(funcs, locals, stack, lc2 + rc2, seq![spec_f32_opcode(op)]);
                        lemma_run_append(funcs, locals, stack, lc2, rc2);
                        lemma_run_single(funcs, locals, sff, spec_f32_opcode(op));
                        assert(sff[sff.len() - 1] == PrimitiveType::F32);
                        assert(sff[sff.len() - 2] == PrimitiveType::F32);
                        assert(sff.drop_last() =~= sf);
                        assert(stack + spec_dissolve_type(t) =~= sf);
                    }
                }
            } else {
                match items[0] {
                    AstModel::Symbol(name) => {
                        let idx = spec_lookup_function(funcs, name)->0;
                        lemma_lookup_function_in_range(funcs, name);
                        let argcodes = spec_emit_args(items, 1, env, funcs)->Ok_0;
                        assert(ops == argcodes + seq![OpCode::Call(idx as u32)]);
                        lemma_emit_args_stack(items, 1, env, funcs, locals, stack, argcodes);
                        lemma_run_append(
                            funcs,
                            locals,
                            stack,
                            argcodes,
                            seq![OpCode::Call(idx as u32)],
                        );
                        let s1 = stack + spec_args_slots(items, 1, env, funcs);
                        lemma_run_single(funcs, locals, s1, OpCode::Call(idx as u32));
                        let params = spec_callee_params(funcs[idx]);
                        assert((idx as u32) as int == idx);
                        assert(s1.len() - params.len() == stack.len());
                        assert(s1.skip(stack.len() as int) =~= params);
                        assert(s1.take(stack.len() as int) =~= stack);
                        assert(spec_step(funcs, locals, s1, OpCode::Call(idx as u32)) == Some(
                            stack + spec_callee_results(funcs[idx]),
                        ));
                    },
                    _ => {},
                }
            }
        },
        _ => {},
    }
}

/// The index a successful function lookup gives points into the table.
proof fn lemma_lookup_function_in_range(funcs: Seq<FuncModel>, name: Seq<char>)
    requires
        spec_lookup_function(funcs, name) is Some,
    ensures
        0 <= spec_lookup_function(funcs, name)->0 < funcs.len(),
    decreases funcs.len(),
{
    if funcs.len() > 0 && !(funcs.last().name == name) {
        lemma_lookup_function_in_range(funcs.drop_last(), name);
    }
}

/// Emitted argument code is stack-disciplined: it pushes exactly the
/// arguments' slots, in order.
pub proof fn lemma_emit_args_stack(
    items: Seq<AstModel>,
    i: int,
    env: Seq<(Seq<char>, Variable)>,
    funcs: Seq<FuncModel>,
    locals: Seq<PrimitiveType>,
    stack: Seq<PrimitiveType>,
    ops: Seq<OpCode>,
)
    requires
        spec_emit_args(items, i, env, funcs) == Ok::<Seq<OpCode>, ErrModel>(ops),
        spec_env_agrees(env, locals),
        spec_args_agree(items, i, env, funcs),
        funcs.len() < 0x1_0000_0000,
    ensures
        spec_run(funcs, locals, stack, ops) == Some(stack + spec_args_slots(items, i, env, funcs)),
    decreases items, (items.len() - i),
{
    if i < 0 || i >= items.len() {
        assert(stack + spec_args_slots(items, i, env, funcs) =~= stack);
    } else {
        let p = spec_emit_obj(items[i], env, funcs)->Ok_0;
        let rest = spec_emit_args(items, i + 1, env, funcs)->Ok_0;
        assert(ops == p.0 + rest);
        lemma_emit_obj_stack(items[i], env, funcs, locals, stack, p.0, p.1);
        let s1 = stack + spec_dissolve_type(p.1);
        lemma_emit_args_stack(items, i + 1, env, funcs, locals, s1, rest);
        lemma_run_append(funcs, locals, stack, p.0, rest);
        assert(s1 + spec_args_slots(items, i + 1, env, funcs) =~= stack + spec_args_slots(
            items,
            i,
            env,
            funcs,
        ));
    }
}

/// Draining code leaves the stack as it was before the drained value.
proof fn lemma_run_drops(
    funcs: Seq<FuncModel>,
    locals: Seq<PrimitiveType>,
    stack: Seq<PrimitiveType>,
    t: Type,
)
    ensures
        spec_run(funcs, locals, stack + spec_dissolve_type(t), spec_drops(t)) == Some(stack),
{
    if spec_dissolve_type(t).len() == 0 {
        assert(spec_drops(t) =~= Seq::<OpCode>::empty());
        assert(stack + spec_dissolve_type(t) =~= stack);
    } else {
        assert(spec_dissolve_type(t).len() == 1);
        assert(spec_drops(t) =~= seq![OpCode::Drop]);
        let s1 = stack + spec_dissolve_type(t);
        lemma_run_single(funcs, locals, s1, OpCode::Drop);
        assert(s1.drop_last() =~= stack);
    }
}

/// Every call site inside the body forms `items[i..]` agrees.
pub open spec fn spec_forms_calls_agree(
    items: Seq<AstModel>,
    i: int,
    env: Seq<(Seq<char>, Variable)>,
    funcs: Seq<FuncModel>,
) -> bool
    decreases items, (items.len() - i),
{
    if i < 0 || i >= items.len() {
        true
    } else {
        spec_calls_agree(items[i], env, funcs) && spec_forms_calls_agree(items, i + 1, env, funcs)
    }
}

/// An emitted body is stack-disciplined: run on any stack it leaves exactly
/// the dissolution of the declared result type on top — nothing extra when
/// the declared result is Unit, whose dissolution is empty.
pub proof fn lemma_emit_body_stack(
    items: Seq<AstModel>,
    i: int,
    env: Seq<(Seq<char>, Variable)>,
    funcs: Seq<FuncModel>,
    locals: Seq<PrimitiveType>,
    stack: Seq<PrimitiveType>,
    result_type: Type,
    ops: Seq<OpCode>,
)
    requires
        0 <= i < items.len(),
        spec_emit_body(items, i, env, funcs, result_type) == Ok::<Seq<OpCode>, ErrModel>(ops),
        spec_env_agrees(env, locals),
        spec_forms_calls_agree(items, i, env, funcs),
        funcs.len() < 0x1_0000_0000,
    ensures
        spec_run(funcs, locals, stack, ops) == Some(stack + spec_dissolve_type(result_type)),
    decreases items.len() - i,
{
    let p = spec_emit_obj(items[i], env, funcs)->Ok_0;
    lemma_emit_obj_stack(items[i], env, funcs, locals, stack, p.0, p.1);
    let s1 = stack + spec_dissolve_type(p.1);
    if i == items.len() - 1 {
        if result_type == Type::Unit {
            assert(ops == p.0 + spec_drops(p.1));
            lemma_run_append(funcs, locals, stack, p.0, spec_drops(p.1));
            lemma_run_drops(funcs, locals, stack, p.1);
            assert(stack + spec_dissolve_type(result_type) =~= stack);
        } else {
            assert(p.1 == result_type);
            assert(ops == p.0);
        }
    } else {
        let rest = spec_emit_body(items, i + 1, env, funcs, result_type)->Ok_0;
        assert(ops == p.0 + spec_drops(p.1) + rest);
        lemma_run_append(funcs, locals, stack, p.0 + spec_drops(p.1), rest);
        lemma_run_append(funcs, locals, stack, p.0, spec_drops(p.1));
        lemma_run_drops(funcs, locals, stack, p.1);
        lemma_emit_body_stack(items, i + 1, env, funcs, locals, stack, result_type, rest);
    }
}

/// With every type of `ts` occupying one slot, the concatenated dissolution
/// lines its slots up with the types, position by position.
proof fn lemma_concat_dissolve_singleton(ts: Seq<Type>)
    requires
        forall|k: int| 0 <= k < ts.len() ==> spec_dissolve_type(#[trigger] ts[k]).len() == 1,
    ensures
        spec_concat_dissolve(ts).len() == ts.len(),
        forall|k: int|
            0 <= k < ts.len() ==> spec_concat_dissolve(ts)[k] == spec_dissolve_type(
                #[trigger] ts[k],
            )[0],
    decreases ts.len(),
{
    if ts.len() > 0 {
        assert(forall|k: int|
            0 <= k < ts.drop_first().len() ==> #[trigger] ts.drop_first()[k] == ts[k + 1]);
        lemma_concat_dissolve_singleton(ts.drop_first());
        assert(spec_concat_dissolve(ts) == spec_dissolve_type(ts[0]) + spec_concat_dissolve(
            ts.drop_first(),
        ));
        assert forall|k: int| 0 <= k < ts.len() implies spec_concat_dissolve(ts)[k]
            == spec_dissolve_type(#[trigger] ts[k])[0] by {
            if k == 0 {
                assert(spec_dissolve_type(ts[0]).len() == 1);
                assert(spec_concat_dissolve(ts)[0] == spec_dissolve_type(ts[0])[0]);
            } else {
                assert(spec_concat_dissolve(ts)[k] == spec_concat_dissolve(ts.drop_first())[k
                    - 1]);
                assert(spec_concat_dissolve(ts.drop_first())[k - 1] == spec_dissolve_type(
                    ts.drop_first()[k - 1],
                )[0]);
                assert(ts.drop_first()[k - 1] == ts[k]);
            }
        }
    }
}

/// The parameter environment a declaration's emission builds: each
/// parameter bound to the local slot of its position.
pub open spec fn spec_defn_env(items: Seq<AstModel>, base: int) -> Seq<(Seq<char>, Variable)> {
    if 0 <= base + 1 < items.len() {
        match items[base + 1] {
            AstModel::Vector(ps) => spec_defn_env_of(ps),
            AstModel::List(ps) => spec_defn_env_of(ps),
            _ => Seq::empty(),
        }
    } else {
        Seq::empty()
    }
}

/// The environment a well-formed parameter vector builds.
pub open spec fn spec_defn_env_of(ps: Seq<AstModel>) -> Seq<(Seq<char>, Variable)> {
    match spec_collect_params(ps) {
        Ok(params) => spec_param_env(params),
        Err(_) => Seq::empty(),
    }
}

/// For every function a declaration emits, running its body on an empty
/// typed stack, with the parameters as the locals, ends with exactly the
/// dissolution of the declared result type on the stack: one slot per slot
/// of a non-Unit result, and an empty stack for a Unit result. `End` and
/// the local declaration count leave the stack alone, so this is the stack
/// at the point the body's `End` is reached. The discipline asks that the
/// function have at least one body form, that no parameter have a type
/// that dissolves to no slot, and that every call hand its callee the slots
/// its parameters dissolve to — three things the emitter itself does not
/// enforce.
pub proof fn lemma_function_stack_discipline(
    items: Seq<AstModel>,
    base: int,
    is_export: bool,
    m: ModuleModel,
    m2: ModuleModel,
)
    requires
        spec_emit_defn(items, base, is_export, m) == Ok::<ModuleModel, ErrModel>(m2),
        0 <= base,
        base + 2 < items.len(),
        ({
            let fm = m2.funcs.last();
            forall|k: int|
                0 <= k < fm.arg_types.len() ==> spec_dissolve_type(
                    #[trigger] fm.arg_types[k],
                ).len() == 1
        }),
        spec_forms_calls_agree(items, base + 2, spec_defn_env(items, base), m.funcs),
        m.funcs.len() < 0x1_0000_0000,
    ensures
        ({
            let fm = m2.funcs.last();
            spec_run(m.funcs, spec_concat_dissolve(fm.arg_types), Seq::empty(), fm.body) == Some(
                spec_dissolve_type(fm.result_type),
            )
        }),
{
    let ps = match items[base + 1] {
        AstModel::Vector(ps) => ps,
        AstModel::List(ps) => ps,
        _ => arbitrary(),
    };
    let params = spec_collect_params(ps)->Ok_0;
    let env = spec_param_env(params);
    assert(env == spec_defn_env(items, base));
    let rt_ast = match items[base] {
        AstModel::SymbolWithAnnotation(_, t) => t,
        _ => TypeAst::Unit,
    };
    let arg_types = Seq::new(params.len(), |i: int| spec_resolve_type(params[i].1));
    let result_type = spec_resolve_type(rt_ast);
    let body_codes = spec_emit_body(items, base + 2, env, m.funcs, result_type)->Ok_0;
    let fm = m2.funcs.last();
    assert(m2.funcs == m.funcs.push(fm));
    assert(fm.body == seq![OpCode::LocalDeclCount(0u8)] + body_codes + seq![OpCode::End]);
    assert(fm.arg_types == arg_types);
    assert(fm.result_type == result_type);
    assert(params.len() <= 255);
    let locals = spec_concat_dissolve(arg_types);
    lemma_concat_dissolve_singleton(arg_types);
    assert(spec_env_agrees(env, locals)) by {
        assert forall|k: int| 0 <= k < env.len() implies {
            let v = (#[trigger] env[k]).1;
            match v.pointer {
                Pointer::Local(slot) => {
                    &&& spec_dissolve_type(v.t).len() == 1
                    &&& (slot as int) < locals.len()
                    &&& locals[slot as int] == spec_dissolve_type(v.t)[0]
                },
            }
        } by {
            assert(env[k] == (
                params[k].0,
                Variable {
                    pointer: Pointer::Local(k as u8),
                    t: spec_resolve_type(params[k].1),
                },
            ));
            assert(arg_types[k] == spec_resolve_type(params[k].1));
            assert((k as u8) as int == k);
        }
    }
    lemma_emit_body_stack(
        items,
        base + 2,
        env,
        m.funcs,
        locals,
        Seq::empty(),
        result_type,
        body_codes,
    );
    lemma_run_append(
        m.funcs,
        locals,
        Seq::empty(),
        seq![OpCode::LocalDeclCount(0u8)] + body_codes,
        seq![OpCode::End],
    );
    lemma_run_append(m.funcs, locals, Seq::empty(), seq![OpCode::LocalDeclCount(0u8)], body_codes);
    lemma_run_single(m.funcs, locals, Seq::empty(), OpCode::LocalDeclCount(0));
    assert(Seq::<PrimitiveType>::empty() + spec_dissolve_type(result_type) =~= spec_dissolve_type(
        result_type,
    ));
    lemma_run_single(m.funcs, locals, spec_dissolve_type(result_type), OpCode::End);
}

} // verus!
