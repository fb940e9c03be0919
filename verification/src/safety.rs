//! What the checks at the end of construction are for: a run of a finished
//! module that needs nothing from outside is never stuck.
//!
//! The proof follows a run step by step. Between two steps the run has come
//! to its block along a walk from the entry block, and every value that an
//! instruction of a block passed on the way, or an earlier instruction of the
//! block itself, produces has been computed. A value that an instruction may
//! read is one of those, because its block lies on every walk.

use vstd::prelude::*;
use crate::dominance::lemma_edges_stay_inside;
use crate::ir::{lemma_wf_node, InstView, ModuleView};
use crate::semantics::{run, step, value_of, values_of, wrap, Outcome};
use crate::types::{Ty, Value};

verus! {

/// Whether `out` is an outcome that function `f` of `m` can have without
/// being stuck: it ran out of steps, or it returned, with a value if and
/// only if it declares one.
pub open spec fn is_safe(m: ModuleView, f: int, out: Outcome) -> bool {
    match out {
        Outcome::Return(r) => (r is Some) == (m.functions[f].ret is Some),
        Outcome::OutOfSteps => true,
        Outcome::Stuck => false,
    }
}

/// Whether the run has passed the instruction at position `k` of function
/// `f`: its block lies on the `walk` before the block that the run is in, or
/// it stands before position `at` in that block.
pub open spec fn has_passed(m: ModuleView, f: int, block: int, at: int, walk: Seq<int>, k: int) -> bool {
    let node = m.functions[f].body[k];
    walk.drop_last().contains(node.block as int) || (node.block == block && k < at)
}

/// What holds between two steps of a run of function `f`: the run has come
/// to `block` along `walk`, has not passed the terminator of `block`, and
/// has computed every value that an instruction which it has passed
/// produces.
pub open spec fn between_steps(
    m: ModuleView,
    f: int,
    args: Seq<u32>,
    env: Seq<Option<u32>>,
    block: int,
    at: int,
    walk: Seq<int>,
) -> bool {
    let fun = m.functions[f];
    &&& 0 <= f < m.functions.len()
    &&& args.len() == fun.params.len()
    &&& env.len() == fun.body.len()
    &&& fun.is_walk(walk)
    &&& walk.last() == block
    &&& 0 <= block < fun.blocks.len()
    &&& fun.blocks[block].terminator matches Some(t) && 0 <= at <= t < fun.body.len()
    &&& forall|k: int|
        0 <= k < fun.body.len() && m.result_type(fun.body[k].inst) is Some && has_passed(
            m,
            f,
            block,
            at,
            walk,
            k,
        ) ==> (#[trigger] env[k]) is Some
}

/// What a block records about its terminator, for one block of a
/// well-formed module.
proof fn lemma_recorded_terminator(m: ModuleView, f: int, b: int)
    requires
        m.wf(),
        0 <= f < m.functions.len(),
        0 <= b < m.functions[f].blocks.len(),
        m.functions[f].blocks[b].terminator is Some,
    ensures
        ({
            let fun = m.functions[f];
            let t = fun.blocks[b].terminator->0 as int;
            &&& 0 <= t < fun.body.len()
            &&& fun.body[t].block == b
            &&& fun.body[t].inst.is_terminator()
            &&& forall|k: int|
                0 <= k < fun.body.len() && (#[trigger] fun.body[k]).block == b && k != t ==> k < t
                    && !fun.body[k].inst.is_terminator()
        }),
{
    reveal(ModuleView::wf);
    assert(m.function_ok(f));
    assert(m.functions[f].blocks[b].terminator is Some);
}

/// An instruction of another block is passed over.
proof fn lemma_passes_over(
    m: ModuleView,
    f: int,
    args: Seq<u32>,
    env: Seq<Option<u32>>,
    block: int,
    at: int,
    walk: Seq<int>,
)
    requires
        m.wf(),
        between_steps(m, f, args, env, block, at, walk),
        m.functions[f].body[at].block != block,
    ensures
        between_steps(m, f, args, env, block, at + 1, walk),
{
    lemma_recorded_terminator(m, f, block);
    let fun = m.functions[f];
    assert forall|k: int|
        0 <= k < fun.body.len() && m.result_type(fun.body[k].inst) is Some && has_passed(
            m,
            f,
            block,
            at + 1,
            walk,
            k,
        ) implies (#[trigger] env[k]) is Some by {
        assert(has_passed(m, f, block, at, walk, k));
    }
}

/// An instruction of the block that is no terminator is passed once its
/// result, if it produces one, is stored.
proof fn lemma_advances(
    m: ModuleView,
    f: int,
    args: Seq<u32>,
    env: Seq<Option<u32>>,
    block: int,
    at: int,
    walk: Seq<int>,
    stored: Option<u32>,
)
    requires
        m.wf(),
        between_steps(m, f, args, env, block, at, walk),
        m.functions[f].body[at].block == block,
        !m.functions[f].body[at].inst.is_terminator(),
        m.result_type(m.functions[f].body[at].inst) is Some ==> stored is Some,
    ensures
        between_steps(m, f, args, env.update(at, stored), block, at + 1, walk),
{
    lemma_recorded_terminator(m, f, block);
    let fun = m.functions[f];
    let later = env.update(at, stored);
    assert forall|k: int|
        0 <= k < fun.body.len() && m.result_type(fun.body[k].inst) is Some && has_passed(
            m,
            f,
            block,
            at + 1,
            walk,
            k,
        ) implies (#[trigger] later[k]) is Some by {
        if k != at {
            assert(has_passed(m, f, block, at, walk, k));
            assert(env[k] is Some);
        }
    }
}

/// The terminator of the block hands control to a block that it names, and
/// the walk goes one block further.
proof fn lemma_jumps(
    m: ModuleView,
    f: int,
    args: Seq<u32>,
    env: Seq<Option<u32>>,
    block: int,
    at: int,
    walk: Seq<int>,
    next: int,
)
    requires
        m.finished(),
        between_steps(m, f, args, env, block, at, walk),
        m.functions[f].body[at].block == block,
        m.functions[f].body[at].inst.is_terminator(),
        match m.functions[f].body[at].inst {
            InstView::CondBr { if_true, if_false, .. } => next == if_true || next == if_false,
            InstView::Br { target } => next == target,
            _ => false,
        },
    ensures
        between_steps(m, f, args, env, next, 0, walk.push(next)),
{
    lemma_recorded_terminator(m, f, block);
    lemma_edges_stay_inside(m, f);
    let fun = m.functions[f];
    let further = walk.push(next);
    assert(fun.is_edge(block, next));
    assert(fun.is_walk(further)) by {
        assert forall|i: int| 0 <= i < further.len() - 1 implies fun.is_edge(
            #[trigger] further[i],
            further[i + 1],
        ) by {
            if i < walk.len() - 1 {
                assert(fun.is_edge(walk[i], walk[i + 1]));
            }
        }
    }
    assert(fun.is_closed(next));
    lemma_recorded_terminator(m, f, next);
    assert(further.drop_last() =~= walk);
    assert forall|k: int|
        0 <= k < fun.body.len() && m.result_type(fun.body[k].inst) is Some && has_passed(
            m,
            f,
            next,
            0,
            further,
            k,
        ) implies (#[trigger] env[k]) is Some by {
        let b = fun.body[k].block as int;
        assert(walk.contains(b));
        let i = choose|i: int| 0 <= i < walk.len() && walk[i] == b;
        if i < walk.len() - 1 {
            assert(walk.drop_last()[i] == b);
            assert(has_passed(m, f, block, at, walk, k));
        } else {
            assert(b == block);
            assert(k != at);
            assert(has_passed(m, f, block, at, walk, k));
        }
    }
}

/// A value that an instruction of a finished module reads has been
/// computed when the run comes to the instruction.
proof fn lemma_operand_is_computed(
    m: ModuleView,
    f: int,
    args: Seq<u32>,
    env: Seq<Option<u32>>,
    block: int,
    at: int,
    walk: Seq<int>,
    v: Value,
    ty: Ty,
)
    requires
        between_steps(m, f, args, env, block, at, walk),
        m.functions[f].body[at].block == block,
        m.reads(f, at, v, ty),
        m.functions[f].may_read(at, v),
    ensures
        value_of(args, env, v) is Some,
{
    let fun = m.functions[f];
    if v.origin is Inst {
        let d = v.index as int;
        let from = fun.body[d].block as int;
        if from != block {
            assert(fun.dominates(from, block));
            assert(walk.contains(from));
            let i = choose|i: int| 0 <= i < walk.len() && walk[i] == from;
            assert(walk.drop_last()[i] == from);
        }
        assert(has_passed(m, f, block, at, walk, d));
        assert(env[d] is Some);
    }
}

/// The values that a call of a finished module passes have been computed
/// when the run comes to the call.
proof fn lemma_arguments_are_computed(
    m: ModuleView,
    f: int,
    args: Seq<u32>,
    env: Seq<Option<u32>>,
    block: int,
    at: int,
    walk: Seq<int>,
    passed: Seq<Value>,
    types: Seq<Ty>,
)
    requires
        between_steps(m, f, args, env, block, at, walk),
        m.functions[f].body[at].block == block,
        passed.len() == types.len(),
        forall|j: int|
            0 <= j < passed.len() ==> m.reads(f, at, #[trigger] passed[j], types[j])
                && m.functions[f].may_read(at, passed[j]),
    ensures
        values_of(args, env, passed) is Some,
        values_of(args, env, passed)->0.len() == passed.len(),
    decreases passed.len(),
{
    if passed.len() > 0 {
        let rest = passed.drop_last();
        assert forall|j: int| 0 <= j < rest.len() implies m.reads(
            f,
            at,
            #[trigger] rest[j],
            types.drop_last()[j],
        ) && m.functions[f].may_read(at, rest[j]) by {
            assert(rest[j] == passed[j]);
        }
        lemma_arguments_are_computed(m, f, args, env, block, at, walk, rest, types.drop_last());
        let last = passed.len() - 1;
        assert(passed.last() == passed[last]);
        lemma_operand_is_computed(m, f, args, env, block, at, walk, passed[last], types[last]);
    }
}

/// A run of a function of a finished module that calls no function without
/// a body is never stuck: it returns what the function declares, or the
/// steps run out.
pub proof fn lemma_run_is_safe(m: ModuleView, f: int, args: Seq<u32>, fuel: nat)
    requires
        m.finished(),
        m.self_contained(),
        0 <= f < m.functions.len(),
        m.functions[f].is_defined(),
        args.len() == m.functions[f].params.len(),
    ensures
        is_safe(m, f, run(m, f, args, fuel)),
    decreases fuel, 0int,
{
    if fuel > 0 {
        let fun = m.functions[f];
        let env = Seq::new(fun.body.len(), |i: int| None::<u32>);
        let walk = seq![0int];
        assert(fun.is_closed(0));
        lemma_recorded_terminator(m, f, 0);
        assert(fun.is_walk(walk));
        assert(walk.drop_last() =~= Seq::<int>::empty());
        assert(between_steps(m, f, args, env, 0, 0, walk));
        lemma_step_is_safe(m, f, args, env, 0, 0, (fuel - 1) as nat, walk);
    }
}

/// A run of a function of a finished module that calls no function without
/// a body is not stuck from any point that it can come to.
pub proof fn lemma_step_is_safe(
    m: ModuleView,
    f: int,
    args: Seq<u32>,
    env: Seq<Option<u32>>,
    block: int,
    at: int,
    fuel: nat,
    walk: Seq<int>,
)
    requires
        m.finished(),
        m.self_contained(),
        between_steps(m, f, args, env, block, at, walk),
    ensures
        is_safe(m, f, step(m, f, args, env, block, at, fuel)),
    decreases fuel, m.functions[f].body.len() - at,
{
    let fun = m.functions[f];
    let node = fun.body[at];
    lemma_recorded_terminator(m, f, block);
    lemma_wf_node(m, f, at);
    assert(fun.reads_defined(at));
    assert(m.calls_inside(f, at));
    if node.block != block {
        lemma_passes_over(m, f, args, env, block, at, walk);
        lemma_step_is_safe(m, f, args, env, block, at + 1, fuel, walk);
    } else {
        match node.inst {
            InstView::Const { number } => {
                lemma_advances(m, f, args, env, block, at, walk, Some(number));
                lemma_step_is_safe(
                    m,
                    f,
                    args,
                    env.update(at, Some(number)),
                    block,
                    at + 1,
                    fuel,
                    walk,
                );
            },
            InstView::Add { lhs, rhs } => {
                assert(node.inst.operands()[0] == lhs && node.inst.operands()[1] == rhs);
                lemma_operand_is_computed(m, f, args, env, block, at, walk, lhs, Ty::I32);
                lemma_operand_is_computed(m, f, args, env, block, at, walk, rhs, Ty::I32);
                let stored = Some(wrap(value_of(args, env, lhs)->0 + value_of(args, env, rhs)->0));
                lemma_advances(m, f, args, env, block, at, walk, stored);
                lemma_step_is_safe(m, f, args, env.update(at, stored), block, at + 1, fuel, walk);
            },
            InstView::Sub { lhs, rhs } => {
                assert(node.inst.operands()[0] == lhs && node.inst.operands()[1] == rhs);
                lemma_operand_is_computed(m, f, args, env, block, at, walk, lhs, Ty::I32);
                lemma_operand_is_computed(m, f, args, env, block, at, walk, rhs, Ty::I32);
                let stored = Some(wrap(value_of(args, env, lhs)->0 - value_of(args, env, rhs)->0));
                lemma_advances(m, f, args, env, block, at, walk, stored);
                lemma_step_is_safe(m, f, args, env.update(at, stored), block, at + 1, fuel, walk);
            },
            InstView::Equal { lhs, rhs } => {
                assert(node.inst.operands()[0] == lhs && node.inst.operands()[1] == rhs);
                lemma_operand_is_computed(m, f, args, env, block, at, walk, lhs, Ty::I32);
                lemma_operand_is_computed(m, f, args, env, block, at, walk, rhs, Ty::I32);
                let stored = Some(
                    if value_of(args, env, lhs)->0 == value_of(args, env, rhs)->0 {
                        1u32
                    } else {
                        0u32
                    },
                );
                lemma_advances(m, f, args, env, block, at, walk, stored);
                lemma_step_is_safe(m, f, args, env.update(at, stored), block, at + 1, fuel, walk);
            },
            InstView::Call { callee, args: passed } => {
                let types = m.functions[callee as int].params;
                assert forall|j: int| 0 <= j < passed.len() implies m.reads(
                    f,
                    at,
                    #[trigger] passed[j],
                    types[j],
                ) && fun.may_read(at, passed[j]) by {
                    assert(node.inst.operands()[j] == passed[j]);
                }
                lemma_arguments_are_computed(m, f, args, env, block, at, walk, passed, types);
                if fuel > 0 {
                    let values = values_of(args, env, passed)->0;
                    lemma_run_is_safe(m, callee as int, values, (fuel - 1) as nat);
                    match run(m, callee as int, values, (fuel - 1) as nat) {
                        Outcome::Return(r) => {
                            lemma_advances(m, f, args, env, block, at, walk, r);
                            lemma_step_is_safe(
                                m,
                                f,
                                args,
                                env.update(at, r),
                                block,
                                at + 1,
                                fuel,
                                walk,
                            );
                        },
                        _ => {},
                    }
                }
            },
            InstView::CondBr { cond, if_true, if_false } => {
                assert(node.inst.operands()[0] == cond);
                lemma_operand_is_computed(m, f, args, env, block, at, walk, cond, Ty::Bool);
                if fuel > 0 {
                    let next = if value_of(args, env, cond)->0 != 0 {
                        if_true as int
                    } else {
                        if_false as int
                    };
                    lemma_jumps(m, f, args, env, block, at, walk, next);
                    lemma_step_is_safe(
                        m,
                        f,
                        args,
                        env,
                        next,
                        0,
                        (fuel - 1) as nat,
                        walk.push(next),
                    );
                }
            },
            InstView::Br { target } => {
                if fuel > 0 {
                    lemma_jumps(m, f, args, env, block, at, walk, target as int);
                    lemma_step_is_safe(
                        m,
                        f,
                        args,
                        env,
                        target as int,
                        0,
                        (fuel - 1) as nat,
                        walk.push(target as int),
                    );
                }
            },
            InstView::Ret { value } => {
                match value {
                    Some(v) => {
                        assert(node.inst.operands()[0] == v);
                        lemma_operand_is_computed(
                            m,
                            f,
                            args,
                            env,
                            block,
                            at,
                            walk,
                            v,
                            fun.ret->0,
                        );
                    },
                    None => {},
                }
            },
        }
    }
}

} // verus!
