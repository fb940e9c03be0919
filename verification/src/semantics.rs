//! What a function of a module computes.
//!
//! The meaning is given as a run with a bounded number of steps: every call
//! and every branch costs one, and a run that needs more steps than it has
//! is out of steps. A run is stuck where it meets something that has no
//! meaning: a function without a body, a wrong number of arguments, a value
//! that has not been computed, the end of the body where a terminator should
//! stand. Integers are 32 bits wide and arithmetic wraps around; a comparison
//! gives 1 or 0.

use vstd::prelude::*;
use crate::ir::{Inst, InstView, IrModule, ModuleView};
use crate::types::{FunctionHandle, Origin, Value};

verus! {

/// How a run ends.
#[derive(Clone, Copy, Debug, PartialEq, Eq, Structural)]
pub enum Outcome {
    /// The function returned, with a value where it has one.
    Return(Option<u32>),
    /// The steps ran out before the function returned.
    OutOfSteps,
    /// The run met something that has no meaning.
    Stuck,
}

/// `x` as a 32-bit integer: its remainder modulo 2^32.
pub open spec fn wrap(x: int) -> u32 {
    (x % 0x1_0000_0000) as u32
}

/// The value of `v` in a run with the arguments `args`, where `env` holds
/// the results of the instructions that have run, if `v` has one.
pub open spec fn value_of(args: Seq<u32>, env: Seq<Option<u32>>, v: Value) -> Option<u32> {
    match v.origin {
        Origin::Param => if v.index < args.len() {
            Some(args[v.index as int])
        } else {
            None
        },
        Origin::Inst => if v.index < env.len() {
            env[v.index as int]
        } else {
            None
        },
    }
}

/// The values of `vs`, if each of them has one.
pub open spec fn values_of(args: Seq<u32>, env: Seq<Option<u32>>, vs: Seq<Value>) -> Option<
    Seq<u32>,
>
    decreases vs.len(),
{
    if vs.len() == 0 {
        Some(Seq::empty())
    } else {
        match (values_of(args, env, vs.drop_last()), value_of(args, env, vs.last())) {
            (Some(values), Some(x)) => Some(values.push(x)),
            _ => None,
        }
    }
}

/// The outcome of function `f` of `m` on `args`, within `fuel` steps.
pub open spec fn run(m: ModuleView, f: int, args: Seq<u32>, fuel: nat) -> Outcome
    decreases fuel, 0int,
{
    if fuel == 0 {
        Outcome::OutOfSteps
    } else if f < 0 || f >= m.functions.len() || !m.functions[f].is_defined() || args.len()
        != m.functions[f].params.len() {
        Outcome::Stuck
    } else {
        step(
            m,
            f,
            args,
            Seq::new(m.functions[f].body.len(), |i: int| None),
            0,
            0,
            (fuel - 1) as nat,
        )
    }
}

/// The outcome of function `f` of `m` on `args` from position `at` on, while
/// control is in `block`: instructions of other blocks are passed over.
pub open spec fn step(
    m: ModuleView,
    f: int,
    args: Seq<u32>,
    env: Seq<Option<u32>>,
    block: int,
    at: int,
    fuel: nat,
) -> Outcome
    decreases fuel, m.functions[f].body.len() - at,
{
    let body = m.functions[f].body;
    if at < 0 || at >= body.len() {
        Outcome::Stuck
    } else if body[at].block != block {
        step(m, f, args, env, block, at + 1, fuel)
    } else {
        match body[at].inst {
            InstView::Const { number } => step(
                m,
                f,
                args,
                env.update(at, Some(number)),
                block,
                at + 1,
                fuel,
            ),
            InstView::Add { lhs, rhs } => match (
                value_of(args, env, lhs),
                value_of(args, env, rhs),
            ) {
                (Some(a), Some(b)) => step(
                    m,
                    f,
                    args,
                    env.update(at, Some(wrap(a + b))),
                    block,
                    at + 1,
                    fuel,
                ),
                _ => Outcome::Stuck,
            },
            InstView::Sub { lhs, rhs } => match (
                value_of(args, env, lhs),
                value_of(args, env, rhs),
            ) {
                (Some(a), Some(b)) => step(
                    m,
                    f,
                    args,
                    env.update(at, Some(wrap(a - b))),
                    block,
                    at + 1,
                    fuel,
                ),
                _ => Outcome::Stuck,
            },
            InstView::Equal { lhs, rhs } => match (
                value_of(args, env, lhs),
                value_of(args, env, rhs),
            ) {
                (Some(a), Some(b)) => step(
                    m,
                    f,
                    args,
                    env.update(
                        at,
                        Some(
                            if a == b {
                                1u32
                            } else {
                                0u32
                            },
                        ),
                    ),
                    block,
                    at + 1,
                    fuel,
                ),
                _ => Outcome::Stuck,
            },
            InstView::Call { callee, args: passed } => match values_of(args, env, passed) {
                Some(values) => if fuel == 0 {
                    Outcome::OutOfSteps
                } else {
                    match run(m, callee as int, values, (fuel - 1) as nat) {
                        Outcome::Return(r) => step(
                            m,
                            f,
                            args,
                            env.update(at, r),
                            block,
                            at + 1,
                            fuel,
                        ),
                        other => other,
                    }
                },
                None => Outcome::Stuck,
            },
            InstView::CondBr { cond, if_true, if_false } => match value_of(args, env, cond) {
                Some(c) => if fuel == 0 {
                    Outcome::OutOfSteps
                } else if c != 0 {
                    step(m, f, args, env, if_true as int, 0, (fuel - 1) as nat)
                } else {
                    step(m, f, args, env, if_false as int, 0, (fuel - 1) as nat)
                },
                None => Outcome::Stuck,
            },
            InstView::Br { target } => if fuel == 0 {
                Outcome::OutOfSteps
            } else {
                step(m, f, args, env, target as int, 0, (fuel - 1) as nat)
            },
            InstView::Ret { value } => match value {
                None => Outcome::Return(None),
                Some(v) => match value_of(args, env, v) {
                    Some(x) => Outcome::Return(Some(x)),
                    None => Outcome::Stuck,
                },
            },
        }
    }
}

/// The value of `v`, if it has one.
fn read(args: &Vec<u32>, env: &Vec<Option<u32>>, v: Value) -> (x: Option<u32>)
    ensures
        x == value_of(args@, env@, v),
{
    match v.origin {
        Origin::Param => if v.index < args.len() {
            Some(args[v.index])
        } else {
            None
        },
        Origin::Inst => if v.index < env.len() {
            env[v.index]
        } else {
            None
        },
    }
}

/// The values of `vs`, if each of them has one.
fn read_all(args: &Vec<u32>, env: &Vec<Option<u32>>, vs: &Vec<Value>) -> (values: Option<Vec<u32>>)
    ensures
        match values {
            Some(found) => values_of(args@, env@, vs@) == Some(found@),
            None => values_of(args@, env@, vs@) is None,
        },
{
    let mut found: Vec<u32> = Vec::new();
    let mut j: usize = 0;
    while j < vs.len()
        invariant
            j <= vs@.len(),
            values_of(args@, env@, vs@.subrange(0, j as int)) == Some(found@),
        decreases vs@.len() - j,
    {
        proof {
            let longer = vs@.subrange(0, j + 1);
            assert(longer.drop_last() =~= vs@.subrange(0, j as int));
            assert(longer.last() == vs@[j as int]);
        }
        match read(args, env, vs[j]) {
            Some(x) => {
                found.push(x);
            },
            None => {
                proof {
                    lemma_values_of_prefix(args@, env@, vs@, j + 1);
                }
                return None;
            },
        }
        j += 1;
    }
    proof {
        assert(vs@.subrange(0, j as int) =~= vs@);
    }
    Some(found)
}

/// Where a value among the first `n` of `vs` is missing, one is missing among
/// all of them.
proof fn lemma_values_of_prefix(args: Seq<u32>, env: Seq<Option<u32>>, vs: Seq<Value>, n: int)
    requires
        0 <= n <= vs.len(),
        values_of(args, env, vs.subrange(0, n)) is None,
    ensures
        values_of(args, env, vs) is None,
    decreases vs.len() - n,
{
    if n < vs.len() {
        let longer = vs.subrange(0, n + 1);
        assert(longer.drop_last() =~= vs.subrange(0, n));
        lemma_values_of_prefix(args, env, vs, n + 1);
    } else {
        assert(vs.subrange(0, n) =~= vs);
    }
}

/// The sum of `a` and `b`, modulo 2^32.
fn wrapping_sum(a: u32, b: u32) -> (c: u32)
    ensures
        c == wrap(a + b),
{
    let wide: u64 = a as u64 + b as u64;
    (wide % 0x1_0000_0000) as u32
}

/// The difference of `a` and `b`, modulo 2^32.
fn wrapping_difference(a: u32, b: u32) -> (c: u32)
    ensures
        c == wrap(a - b),
{
    let wide: u64 = a as u64 + 0x1_0000_0000 - b as u64;
    (wide % 0x1_0000_0000) as u32
}

/// Runs function `f` of `module` on `args`, for at most `fuel` steps: the
/// reference against which native code can be held.
pub fn interpret(module: &IrModule, f: FunctionHandle, args: &Vec<u32>, fuel: u64) -> (out: Outcome)
    ensures
        out == run(module@, f.index as int, args@, fuel as nat),
    decreases fuel,
{
    if fuel == 0 {
        return Outcome::OutOfSteps;
    }
    if f.index >= module.functions.len() {
        return Outcome::Stuck;
    }
    let fun = &module.functions[f.index];
    if fun.blocks.len() == 0 || args.len() != fun.params.len() {
        return Outcome::Stuck;
    }
    let mut env: Vec<Option<u32>> = Vec::new();
    let mut i: usize = 0;
    while i < fun.body.len()
        invariant
            i <= fun.body@.len(),
            env@.len() == i,
            forall|j: int| 0 <= j < i ==> env@[j] is None,
        decreases fun.body@.len() - i,
    {
        env.push(None);
        i += 1;
    }
    proof {
        assert(env@ =~= Seq::new(module@.functions[f.index as int].body.len(), |i: int| None));
    }
    let ghost m = module@;
    let ghost g = f.index as int;
    let mut block: usize = 0;
    let mut at: usize = 0;
    let mut left: u64 = fuel - 1;
    loop
        invariant
            m == module@,
            g == f.index,
            f.index < module.functions@.len(),
            *fun == module.functions@[g],
            left < fuel,
            env@.len() == fun.body@.len(),
            run(m, g, args@, fuel as nat) == step(m, g, args@, env@, block as int, at as int, left as nat),
        decreases left, fun.body@.len() - at,
    {
        if at >= fun.body.len() {
            return Outcome::Stuck;
        }
        let node = &fun.body[at];
        assert(node@ == m.functions[g].body[at as int]);
        if node.block != block {
            at += 1;
            continue ;
        }
        match &node.inst {
            Inst::Const { number } => {
                env.set(at, Some(*number));
                at += 1;
            },
            Inst::Add { lhs, rhs } => {
                match (read(args, &env, *lhs), read(args, &env, *rhs)) {
                    (Some(a), Some(b)) => {
                        env.set(at, Some(wrapping_sum(a, b)));
                        at += 1;
                    },
                    _ => {
                        return Outcome::Stuck;
                    },
                }
            },
            Inst::Sub { lhs, rhs } => {
                match (read(args, &env, *lhs), read(args, &env, *rhs)) {
                    (Some(a), Some(b)) => {
                        env.set(at, Some(wrapping_difference(a, b)));
                        at += 1;
                    },
                    _ => {
                        return Outcome::Stuck;
                    },
                }
            },
            Inst::Equal { lhs, rhs } => {
                match (read(args, &env, *lhs), read(args, &env, *rhs)) {
                    (Some(a), Some(b)) => {
                        env.set(at, Some(if a == b { 1 } else { 0 }));
                        at += 1;
                    },
                    _ => {
                        return Outcome::Stuck;
                    },
                }
            },
            Inst::Call { callee, args: passed } => {
                let values = match read_all(args, &env, passed) {
                    Some(values) => values,
                    None => {
                        return Outcome::Stuck;
                    },
                };
                if left == 0 {
                    return Outcome::OutOfSteps;
                }
                match interpret(module, FunctionHandle { index: *callee }, &values, left - 1) {
                    Outcome::Return(r) => {
                        env.set(at, r);
                        at += 1;
                    },
                    other => {
                        return other;
                    },
                }
            },
            Inst::CondBr { cond, if_true, if_false } => {
                match read(args, &env, *cond) {
                    Some(c) => {
                        if left == 0 {
                            return Outcome::OutOfSteps;
                        }
                        block = if c != 0 {
                            *if_true
                        } else {
                            *if_false
                        };
                        at = 0;
                        left = left - 1;
                    },
                    None => {
                        return Outcome::Stuck;
                    },
                }
            },
            Inst::Br { target } => {
                if left == 0 {
                    return Outcome::OutOfSteps;
                }
                block = *target;
                at = 0;
                left = left - 1;
            },
            Inst::Ret { value } => {
                match value {
                    None => {
                        return Outcome::Return(None);
                    },
                    Some(v) => match read(args, &env, *v) {
                        Some(x) => {
                            return Outcome::Return(Some(x));
                        },
                        None => {
                            return Outcome::Stuck;
                        },
                    },
                }
            },
        }
    }
}

/// Instructions of other blocks do not count: where no instruction from
/// `at` up to `to` belongs to `block`, a run from `at` is a run from `to`.
pub proof fn lemma_pass_over(
    m: ModuleView,
    f: int,
    args: Seq<u32>,
    env: Seq<Option<u32>>,
    block: int,
    at: int,
    to: int,
    fuel: nat,
)
    requires
        0 <= at <= to <= m.functions[f].body.len(),
        forall|k: int| at <= k < to ==> (#[trigger] m.functions[f].body[k]).block != block,
    ensures
        step(m, f, args, env, block, at, fuel) == step(m, f, args, env, block, to, fuel),
    decreases to - at,
{
    if at < to {
        lemma_pass_over(m, f, args, env, block, at + 1, to, fuel);
    }
}

} // verus!
