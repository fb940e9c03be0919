//! What the programs of this crate compute: `sum` adds, and `fibo` gives
//! the Fibonacci numbers.

use vstd::prelude::*;
use crate::ir::{FunctionView, InstView, ModuleView};
use crate::programs::{
    fibo_function, param_of, print_declaration, result_of, sum_function, user_main_function,
};
use crate::semantics::{lemma_pass_over, run, step, values_of, wrap, Outcome};
use crate::types::{FunctionHandle, Value};

verus! {

/// The Fibonacci numbers: 0, 1, and from there on the sum of the last two.
pub open spec fn fib(n: nat) -> nat
    decreases n,
{
    if n < 2 {
        n
    } else {
        fib((n - 1) as nat) + fib((n - 2) as nat)
    }
}

/// Whether function `f` of `m` is `sum`.
pub open spec fn is_sum(m: ModuleView, f: int) -> bool {
    0 <= f < m.functions.len() && f <= usize::MAX && m.functions[f] == sum_function(f as usize)
}

/// Adding two wrapped numbers and wrapping the sum is wrapping the sum of
/// the numbers.
proof fn lemma_wrap_add(x: int, y: int)
    ensures
        wrap(wrap(x) + wrap(y)) == wrap(x + y),
{
}

/// `sum` adds its first two arguments, adds the third to that, and returns
/// what it has.
proof fn lemma_sum_steps(m: ModuleView, f: int, x: u32, y: u32, z: u32, fuel: nat)
    requires
        is_sum(m, f),
        fuel >= 1,
    ensures
        run(m, f, seq![x, y, z], fuel) == Outcome::Return(Some(wrap(wrap(x + y) + z))),
{
    let args = seq![x, y, z];
    let rest = (fuel - 1) as nat;
    let g = f as usize;
    let e0 = Seq::new(3, |i: int| None::<u32>);
    let e1 = e0.update(0, Some(wrap(x + y)));
    let e2 = e1.update(1, Some(wrap(wrap(x + y) + z)));
    let body = m.functions[f].body;
    assert(body.len() == 3);
    assert(body[0].block == 0 && body[0].inst == InstView::Add { lhs: param_of(g, 0), rhs: param_of(g, 1) });
    assert(body[1].block == 0 && body[1].inst == InstView::Add { lhs: result_of(g, 0), rhs: param_of(g, 2) });
    assert(body[2].block == 0 && body[2].inst == InstView::Ret { value: Some(result_of(g, 1)) });
    assert(step(m, f, args, e2, 0, 2, rest) == Outcome::Return(Some(wrap(wrap(x + y) + z))));
    assert(step(m, f, args, e1, 0, 1, rest) == step(m, f, args, e2, 0, 2, rest));
    assert(step(m, f, args, e0, 0, 0, rest) == step(m, f, args, e1, 0, 1, rest));
    assert(m.functions[f].params.len() == 3);
    assert(m.functions[f].blocks.len() == 1);
}

/// `sum` returns the sum of its three arguments, modulo 2^32.
pub proof fn lemma_sum_adds(m: ModuleView, f: int, x: u32, y: u32, z: u32, fuel: nat)
    requires
        is_sum(m, f),
        fuel >= 1,
    ensures
        run(m, f, seq![x, y, z], fuel) == Outcome::Return(Some(wrap(x + y + z))),
{
    lemma_sum_steps(m, f, x, y, z, fuel);
    lemma_wrap_add(x + y, z as int);
}

/// Whether function `f` of `m` is `fibo`.
#[verifier::opaque]
pub open spec fn is_fibo(m: ModuleView, f: int) -> bool {
    0 <= f < m.functions.len() && f <= usize::MAX && m.functions[f] == fibo_function(f as usize)
}

/// In `fibo`, the block `n_is_0` returns 0.
proof fn lemma_fibo_returns_zero(
    m: ModuleView,
    f: int,
    args: Seq<u32>,
    env: Seq<Option<u32>>,
    fuel: nat,
)
    requires
        is_fibo(m, f),
        env.len() == 18,
    ensures
        step(m, f, args, env, 1, 0, fuel) == Outcome::Return(Some(0u32)),
{
    reveal(is_fibo);
    let body = m.functions[f].body;
    assert(body.len() == 18);
    assert(body[0].block == 0 && body[1].block == 0 && body[2].block == 0);
    lemma_pass_over(m, f, args, env, 1, 0, 3, fuel);
    assert(body[3].block == 1 && body[3].inst == InstView::Const { number: 0 });
    assert(body[4].block == 1 && body[4].inst == InstView::Ret { value: Some(result_of(f as usize, 3)) });
    let e1 = env.update(3, Some(0u32));
    assert(step(m, f, args, e1, 1, 4, fuel) == Outcome::Return(Some(0u32)));
    assert(step(m, f, args, env, 1, 3, fuel) == step(m, f, args, e1, 1, 4, fuel));
}

/// In `fibo`, the block `n_is_1` returns 1.
proof fn lemma_fibo_returns_one(
    m: ModuleView,
    f: int,
    args: Seq<u32>,
    env: Seq<Option<u32>>,
    fuel: nat,
)
    requires
        is_fibo(m, f),
        env.len() == 18,
    ensures
        step(m, f, args, env, 3, 0, fuel) == Outcome::Return(Some(1u32)),
{
    reveal(is_fibo);
    let body = m.functions[f].body;
    assert(body.len() == 18);
    assert(body[0].block == 0 && body[1].block == 0 && body[2].block == 0);
    assert(body[3].block == 1 && body[4].block == 1);
    assert(body[5].block == 2 && body[6].block == 2 && body[7].block == 2);
    lemma_pass_over(m, f, args, env, 3, 0, 8, fuel);
    assert(body[8].block == 3 && body[8].inst == InstView::Const { number: 1 });
    assert(body[9].block == 3 && body[9].inst == InstView::Ret { value: Some(result_of(f as usize, 8)) });
    let e1 = env.update(8, Some(1u32));
    assert(step(m, f, args, e1, 3, 9, fuel) == Outcome::Return(Some(1u32)));
    assert(step(m, f, args, env, 3, 8, fuel) == step(m, f, args, e1, 3, 9, fuel));
}

/// In `fibo`, the block `entry` goes on in `n_is_0` where the argument is 0
/// and in `n_is_not_0` where it is not.
proof fn lemma_fibo_tests_zero(m: ModuleView, f: int, n: u32, env: Seq<Option<u32>>, fuel: nat) -> (later:
    Seq<Option<u32>>)
    requires
        is_fibo(m, f),
        env.len() == 18,
        fuel >= 1,
    ensures
        later.len() == 18,
        step(m, f, seq![n], env, 0, 0, fuel) == step(
            m,
            f,
            seq![n],
            later,
            if n == 0 {
                1int
            } else {
                2int
            },
            0,
            (fuel - 1) as nat,
        ),
{
    reveal(is_fibo);
    let body = m.functions[f].body;
    let args = seq![n];
    let hit = if n == 0 {
        1u32
    } else {
        0u32
    };
    let e1 = env.update(0, Some(0u32));
    let e2 = e1.update(1, Some(hit));
    let next = if n == 0 {
        1int
    } else {
        2int
    };
    assert(body.len() == 18);
    assert(body[0].block == 0 && body[0].inst == InstView::Const { number: 0 });
    assert(body[1].block == 0 && body[1].inst == InstView::Equal { lhs: param_of(f as usize, 0), rhs: result_of(f as usize, 0) });
    assert(body[2].block == 0 && body[2].inst == InstView::CondBr { cond: result_of(f as usize, 1), if_true: 1, if_false: 2 });
    assert(step(m, f, args, e2, 0, 2, fuel) == step(m, f, args, e2, next, 0, (fuel - 1) as nat));
    assert(step(m, f, args, e1, 0, 1, fuel) == step(m, f, args, e2, 0, 2, fuel));
    assert(step(m, f, args, env, 0, 0, fuel) == step(m, f, args, e1, 0, 1, fuel));
    e2
}

/// In `fibo`, the block `n_is_not_0` goes on in `n_is_1` where the argument
/// is 1 and in `n_gt_1` where it is not.
proof fn lemma_fibo_tests_one(m: ModuleView, f: int, n: u32, env: Seq<Option<u32>>, fuel: nat) -> (later:
    Seq<Option<u32>>)
    requires
        is_fibo(m, f),
        env.len() == 18,
        fuel >= 1,
    ensures
        later.len() == 18,
        step(m, f, seq![n], env, 2, 0, fuel) == step(
            m,
            f,
            seq![n],
            later,
            if n == 1 {
                3int
            } else {
                4int
            },
            0,
            (fuel - 1) as nat,
        ),
{
    reveal(is_fibo);
    let body = m.functions[f].body;
    let args = seq![n];
    let hit = if n == 1 {
        1u32
    } else {
        0u32
    };
    let e1 = env.update(5, Some(1u32));
    let e2 = e1.update(6, Some(hit));
    let next = if n == 1 {
        3int
    } else {
        4int
    };
    assert(body.len() == 18);
    assert(body[0].block == 0 && body[1].block == 0 && body[2].block == 0);
    assert(body[3].block == 1 && body[4].block == 1);
    lemma_pass_over(m, f, args, env, 2, 0, 5, fuel);
    assert(body[5].block == 2 && body[5].inst == InstView::Const { number: 1 });
    assert(body[6].block == 2 && body[6].inst == InstView::Equal { lhs: param_of(f as usize, 0), rhs: result_of(f as usize, 5) });
    assert(body[7].block == 2 && body[7].inst == InstView::CondBr { cond: result_of(f as usize, 6), if_true: 3, if_false: 4 });
    assert(step(m, f, args, e2, 2, 7, fuel) == step(m, f, args, e2, next, 0, (fuel - 1) as nat));
    assert(step(m, f, args, e1, 2, 6, fuel) == step(m, f, args, e2, 2, 7, fuel));
    assert(step(m, f, args, env, 2, 5, fuel) == step(m, f, args, e1, 2, 6, fuel));
    e2
}

/// In `fibo`, the block `n_gt_1` first computes the two numbers before the
/// argument.
proof fn lemma_fibo_subtracts(m: ModuleView, f: int, n: u32, env: Seq<Option<u32>>, fuel: nat) -> (later:
    Seq<Option<u32>>)
    requires
        is_fibo(m, f),
        env.len() == 18,
        n >= 2,
    ensures
        later.len() == 18,
        step(m, f, seq![n], env, 4, 0, fuel) == step(m, f, seq![n], later, 4, 14, fuel),
        later[11] == Some((n - 1) as u32),
        later[13] == Some((n - 2) as u32),
{
    reveal(is_fibo);
    let body = m.functions[f].body;
    let args = seq![n];
    let g = f as usize;
    assert(body.len() == 18);
    assert(body[0].block == 0 && body[1].block == 0 && body[2].block == 0);
    assert(body[3].block == 1 && body[4].block == 1);
    assert(body[5].block == 2 && body[6].block == 2 && body[7].block == 2);
    assert(body[8].block == 3 && body[9].block == 3);
    lemma_pass_over(m, f, args, env, 4, 0, 10, fuel);
    assert(body[10].block == 4 && body[10].inst == InstView::Const { number: 1 });
    assert(body[11].block == 4 && body[11].inst == InstView::Sub { lhs: param_of(g, 0), rhs: result_of(g, 10) });
    assert(body[12].block == 4 && body[12].inst == InstView::Const { number: 2 });
    assert(body[13].block == 4 && body[13].inst == InstView::Sub { lhs: param_of(g, 0), rhs: result_of(g, 12) });
    let e1 = env.update(10, Some(1u32));
    let e2 = e1.update(11, Some((n - 1) as u32));
    let e3 = e2.update(12, Some(2u32));
    let e4 = e3.update(13, Some((n - 2) as u32));
    assert(wrap(n - 1) == (n - 1) as u32);
    assert(wrap(n - 2) == (n - 2) as u32);
    assert(step(m, f, args, e3, 4, 13, fuel) == step(m, f, args, e4, 4, 14, fuel));
    assert(step(m, f, args, e2, 4, 12, fuel) == step(m, f, args, e3, 4, 13, fuel));
    assert(step(m, f, args, e1, 4, 11, fuel) == step(m, f, args, e2, 4, 12, fuel));
    assert(step(m, f, args, env, 4, 10, fuel) == step(m, f, args, e1, 4, 11, fuel));
    e4
}

/// In `fibo`, a call of `fibo` itself on the result of the instruction at
/// position `from` stores what that run returns.
proof fn lemma_fibo_calls_itself(
    m: ModuleView,
    f: int,
    n: u32,
    env: Seq<Option<u32>>,
    fuel: nat,
    at: int,
    from: int,
    passed: u32,
    x: u32,
)
    requires
        is_fibo(m, f),
        env.len() == 18,
        fuel >= 1,
        (at == 14 && from == 11) || (at == 15 && from == 13),
        env[from] == Some(passed),
        run(m, f, seq![passed], (fuel - 1) as nat) == Outcome::Return(Some(x)),
    ensures
        step(m, f, seq![n], env, 4, at, fuel) == step(
            m,
            f,
            seq![n],
            env.update(at, Some(x)),
            4,
            at + 1,
            fuel,
        ),
{
    reveal(is_fibo);
    let body = m.functions[f].body;
    let args = seq![n];
    let g = f as usize;
    assert(body.len() == 18);
    assert(body[14].block == 4 && body[14].inst == InstView::Call { callee: g, args: seq![result_of(g, 11)] });
    assert(body[15].block == 4 && body[15].inst == InstView::Call { callee: g, args: seq![result_of(g, 13)] });
    let vs = seq![result_of(g, from as usize)];
    assert(vs.drop_last() =~= Seq::<Value>::empty());
    assert(values_of(args, env, vs.drop_last()) == Some(Seq::<u32>::empty()));
    assert(values_of(args, env, vs) == Some(Seq::<u32>::empty().push(passed)));
    assert(Seq::<u32>::empty().push(passed) =~= seq![passed]);
}

/// In `fibo`, the block `n_gt_1` ends by returning the sum of the results of
/// the two calls.
proof fn lemma_fibo_returns_sum(
    m: ModuleView,
    f: int,
    n: u32,
    env: Seq<Option<u32>>,
    fuel: nat,
    a: u32,
    b: u32,
)
    requires
        is_fibo(m, f),
        env.len() == 18,
        env[14] == Some(a),
        env[15] == Some(b),
    ensures
        step(m, f, seq![n], env, 4, 16, fuel) == Outcome::Return(Some(wrap(a + b))),
{
    reveal(is_fibo);
    let body = m.functions[f].body;
    let args = seq![n];
    let g = f as usize;
    assert(body.len() == 18);
    assert(body[16].block == 4 && body[16].inst == InstView::Add { lhs: result_of(g, 14), rhs: result_of(g, 15) });
    assert(body[17].block == 4 && body[17].inst == InstView::Ret { value: Some(result_of(g, 16)) });
    let e1 = env.update(16, Some(wrap(a + b)));
    assert(step(m, f, args, e1, 4, 17, fuel) == Outcome::Return(Some(wrap(a + b))));
    assert(step(m, f, args, env, 4, 16, fuel) == step(m, f, args, e1, 4, 17, fuel));
}

/// In `fibo`, the block `n_gt_1` returns the sum of what `fibo` returns for
/// the two numbers before the argument.
proof fn lemma_fibo_adds_calls(
    m: ModuleView,
    f: int,
    n: u32,
    env: Seq<Option<u32>>,
    fuel: nat,
    a: u32,
    b: u32,
)
    requires
        is_fibo(m, f),
        env.len() == 18,
        n >= 2,
        fuel >= 1,
        run(m, f, seq![(n - 1) as u32], (fuel - 1) as nat) == Outcome::Return(Some(a)),
        run(m, f, seq![(n - 2) as u32], (fuel - 1) as nat) == Outcome::Return(Some(b)),
    ensures
        step(m, f, seq![n], env, 4, 0, fuel) == Outcome::Return(Some(wrap(a + b))),
{
    let e4 = lemma_fibo_subtracts(m, f, n, env, fuel);
    lemma_fibo_calls_itself(m, f, n, e4, fuel, 14, 11, (n - 1) as u32, a);
    let e5 = e4.update(14, Some(a));
    lemma_fibo_calls_itself(m, f, n, e5, fuel, 15, 13, (n - 2) as u32, b);
    let e6 = e5.update(15, Some(b));
    lemma_fibo_returns_sum(m, f, n, e6, fuel, a, b);
}

/// A run of `fibo` on one argument starts in the block `entry`, with
/// nothing computed yet.
proof fn lemma_fibo_enters(m: ModuleView, f: int, n: u32, fuel: nat) -> (env: Seq<Option<u32>>)
    requires
        is_fibo(m, f),
        fuel >= 1,
    ensures
        env.len() == 18,
        run(m, f, seq![n], fuel) == step(m, f, seq![n], env, 0, 0, (fuel - 1) as nat),
{
    reveal(is_fibo);
    assert(m.functions[f].params.len() == 1);
    assert(m.functions[f].blocks.len() == 5);
    assert(m.functions[f].body.len() == 18);
    Seq::new(18, |i: int| None::<u32>)
}

/// `fibo` computes the Fibonacci numbers, modulo 2^32: on `n` it returns
/// `fib(n)`, given four steps for each unit of `n` and two more.
pub proof fn lemma_fibo_computes_fib(m: ModuleView, f: int, n: u32, fuel: nat)
    requires
        is_fibo(m, f),
        fuel >= 4 * n + 2,
    ensures
        run(m, f, seq![n], fuel) == Outcome::Return(Some(wrap(fib(n as nat) as int))),
    decreases n,
{
    let args = seq![n];
    let f1 = (fuel - 1) as nat;
    let f2 = (fuel - 2) as nat;
    let f3 = (fuel - 3) as nat;
    let e0 = lemma_fibo_enters(m, f, n, fuel);
    let e1 = lemma_fibo_tests_zero(m, f, n, e0, f1);
    if n == 0 {
        lemma_fibo_returns_zero(m, f, args, e1, f2);
    } else {
        let e2 = lemma_fibo_tests_one(m, f, n, e1, f2);
        if n == 1 {
            lemma_fibo_returns_one(m, f, args, e2, f3);
        } else {
            let a = wrap(fib((n - 1) as nat) as int);
            let b = wrap(fib((n - 2) as nat) as int);
            lemma_fibo_computes_fib(m, f, (n - 1) as u32, (f3 - 1) as nat);
            lemma_fibo_computes_fib(m, f, (n - 2) as u32, (f3 - 1) as nat);
            lemma_fibo_adds_calls(m, f, n, e2, f3, a, b);
            lemma_wrap_add(fib((n - 1) as nat) as int, fib((n - 2) as nat) as int);
        }
    }
}

/// What `fibo` returns for a number from 2 on is the sum, modulo 2^32, of
/// what it returns for the two numbers before.
pub proof fn lemma_fibo_recurrence(m: ModuleView, f: int, n: u32, fuel: nat)
    requires
        is_fibo(m, f),
        n >= 2,
        fuel >= 4 * n + 2,
    ensures
        ({
            let here = run(m, f, seq![n], fuel);
            let one_before = run(m, f, seq![(n - 1) as u32], fuel);
            let two_before = run(m, f, seq![(n - 2) as u32], fuel);
            &&& here is Return && here->0 is Some
            &&& one_before is Return && one_before->0 is Some
            &&& two_before is Return && two_before->0 is Some
            &&& here->0->0 == wrap(one_before->0->0 + two_before->0->0)
        }),
{
    lemma_fibo_computes_fib(m, f, n, fuel);
    lemma_fibo_computes_fib(m, f, (n - 1) as u32, fuel);
    lemma_fibo_computes_fib(m, f, (n - 2) as u32, fuel);
    lemma_wrap_add(fib((n - 1) as nat) as int, fib((n - 2) as nat) as int);
}

/// `fibo` returns 0 for 0, 1 for 1 and 55 for 10.
pub proof fn lemma_fibo_values(m: ModuleView, f: int)
    requires
        is_fibo(m, f),
    ensures
        run(m, f, seq![0u32], 42) == Outcome::Return(Some(0u32)),
        run(m, f, seq![1u32], 42) == Outcome::Return(Some(1u32)),
        run(m, f, seq![10u32], 42) == Outcome::Return(Some(55u32)),
{
    lemma_fibo_computes_fib(m, f, 0, 42);
    lemma_fibo_computes_fib(m, f, 1, 42);
    lemma_fibo_computes_fib(m, f, 10, 42);
    assert(fib(10) == 55) by {
        reveal_with_fuel(fib, 11);
    }
}

/// A module holds `fibo` where its function is what `compile_fibo` builds.
pub proof fn lemma_is_fibo(m: ModuleView, h: FunctionHandle)
    requires
        h.index < m.functions.len(),
        m.functions[h.index as int] == fibo_function(h.index),
    ensures
        is_fibo(m, h.index as int),
{
    reveal(is_fibo);
}

/// An instruction that reads only parameters and results of its own block
/// may read all that it reads.
proof fn lemma_reads_of_own_block(fun: FunctionView, k: int)
    requires
        0 <= k < fun.body.len(),
        forall|j: int|
            0 <= j < fun.body[k].inst.operands().len() ==> {
                let v = #[trigger] fun.body[k].inst.operands()[j];
                v.origin is Inst ==> 0 <= v.index < fun.body.len() && fun.body[v.index as int].block
                    == fun.body[k].block
            },
    ensures
        fun.reads_defined(k),
{
}

/// Every block of `fibo` is closed, and every instruction of `fibo` may read
/// what it reads: parameters and results of its own block.
pub proof fn lemma_fibo_passes_the_checks(f: usize)
    ensures
        forall|b: int| 0 <= b < 5 ==> #[trigger] fibo_function(f).is_closed(b),
        forall|k: int| 0 <= k < 18 ==> #[trigger] fibo_function(f).reads_defined(k),
{
    let fun = fibo_function(f);
    assert(fun.blocks.len() == 5 && fun.body.len() == 18);
    assert forall|k: int| 0 <= k < 18 implies #[trigger] fun.reads_defined(k) by {
        lemma_reads_of_own_block(fun, k);
    }
}

/// The block of `sum` is closed, and every instruction of `sum` may read
/// what it reads.
pub proof fn lemma_sum_passes_the_checks(f: usize)
    ensures
        sum_function(f).is_closed(0),
        forall|k: int| 0 <= k < 3 ==> #[trigger] sum_function(f).reads_defined(k),
{
    let fun = sum_function(f);
    assert(fun.blocks.len() == 1 && fun.body.len() == 3);
    assert forall|k: int| 0 <= k < 3 implies #[trigger] fun.reads_defined(k) by {
        lemma_reads_of_own_block(fun, k);
    }
}

/// The block of `user_main` is closed, and every instruction of `user_main`
/// may read what it reads.
pub proof fn lemma_user_main_passes_the_checks(f: usize, fibo: usize, print: usize)
    ensures
        user_main_function(f, fibo, print).is_closed(0),
        forall|k: int|
            0 <= k < 4 ==> #[trigger] user_main_function(f, fibo, print).reads_defined(k),
{
    let fun = user_main_function(f, fibo, print);
    assert(fun.blocks.len() == 1 && fun.body.len() == 4);
    assert forall|k: int| 0 <= k < 4 implies #[trigger] fun.reads_defined(k) by {
        lemma_reads_of_own_block(fun, k);
    }
}

/// What `compile_fibo` and `compile_user_main` build, one after the other,
/// in an empty module is ready to be lowered.
pub proof fn lemma_programs_are_finished(m: ModuleView)
    requires
        m.wf(),
        m.functions == seq![
            fibo_function(0),
            print_declaration(),
            user_main_function(2, 0, 1),
        ],
    ensures
        m.finished(),
{
    lemma_fibo_passes_the_checks(0);
    lemma_user_main_passes_the_checks(2, 0, 1);
    assert(m.functions[0] == fibo_function(0));
    assert(m.functions[1] == print_declaration());
    assert(m.functions[2] == user_main_function(2, 0, 1));
    assert(m.complete());
    assert(m.defined_before_use());
}

/// What `compile_fibo` and `compile_sum` build, one after the other, in an
/// empty module is ready to be lowered and calls nothing from outside, so
/// that its runs are never stuck.
pub proof fn lemma_fibo_and_sum_are_safe(m: ModuleView)
    requires
        m.wf(),
        m.functions == seq![fibo_function(0), sum_function(1)],
    ensures
        m.finished(),
        m.self_contained(),
{
    lemma_fibo_passes_the_checks(0);
    lemma_sum_passes_the_checks(1);
    assert(m.functions[0] == fibo_function(0));
    assert(m.functions[1] == sum_function(1));
    assert(m.complete());
    assert(m.defined_before_use());
    assert(m.self_contained());
}

} // verus!
