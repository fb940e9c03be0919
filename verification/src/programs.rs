//! The programs that the crate builds: the sum of three integers, the
//! Fibonacci function, and a procedure that prints one Fibonacci number.

use vstd::prelude::*;
use crate::builder::{CodeGen, CodeGenView};
use crate::ir::{
    has_nul, lemma_index_of, named, unnamed, BlockView, FunctionView, InstView, ModuleView,
    NodeView,
};
use crate::types::{BlockHandle, BuildError, FunctionHandle, Origin, Ty, Value};

verus! {

/// Parameter `index` of function `f`.
pub open spec fn param_of(f: usize, index: usize) -> Value {
    Value { function: f, origin: Origin::Param, index }
}

/// The result of the instruction at position `index` of function `f`.
pub open spec fn result_of(f: usize, index: usize) -> Value {
    Value { function: f, origin: Origin::Inst, index }
}

/// The function `sum`, declared at position `f`:
///
/// ```text
/// sum(x, y, z):
///   entry:  t = x + y
///           r = t + z
///           return r
/// ```
pub open spec fn sum_function(f: usize) -> FunctionView {
    FunctionView {
        name: "sum"@,
        params: seq![Ty::I32, Ty::I32, Ty::I32],
        ret: Some(Ty::I32),
        gc: None,
        blocks: seq![BlockView { label: "entry"@, terminator: Some(2usize) }],
        body: seq![
            named(0, "x + y"@, InstView::Add { lhs: param_of(f, 0), rhs: param_of(f, 1) }),
            named(0, "x + y + z"@, InstView::Add { lhs: result_of(f, 0), rhs: param_of(f, 2) }),
            unnamed(0, InstView::Ret { value: Some(result_of(f, 1)) }),
        ],
    }
}

/// The function `fibo`, declared at position `f`:
///
/// ```text
/// fibo(n):
///   entry:       if n == 0 goto n_is_0 else n_is_not_0
///   n_is_0:      return 0
///   n_is_not_0:  if n == 1 goto n_is_1 else n_gt_1
///   n_is_1:      return 1
///   n_gt_1:      return fibo(n - 1) + fibo(n - 2)
/// ```
///
/// The function leaves its blocks by returns only: it comes back to itself
/// through the two calls, never through a branch.
pub open spec fn fibo_function(f: usize) -> FunctionView {
    let n = param_of(f, 0);
    FunctionView {
        name: "fibo"@,
        params: seq![Ty::I32],
        ret: Some(Ty::I32),
        gc: Some("shadow-stack"@),
        blocks: seq![
            BlockView { label: "entry"@, terminator: Some(2usize) },
            BlockView { label: "n_is_0"@, terminator: Some(4usize) },
            BlockView { label: "n_is_not_0"@, terminator: Some(7usize) },
            BlockView { label: "n_is_1"@, terminator: Some(9usize) },
            BlockView { label: "n_gt_1"@, terminator: Some(17usize) },
        ],
        body: seq![
            unnamed(0, InstView::Const { number: 0 }),
            named(0, "n == 0"@, InstView::Equal { lhs: n, rhs: result_of(f, 0) }),
            unnamed(0, InstView::CondBr { cond: result_of(f, 1), if_true: 1, if_false: 2 }),
            unnamed(1, InstView::Const { number: 0 }),
            unnamed(1, InstView::Ret { value: Some(result_of(f, 3)) }),
            unnamed(2, InstView::Const { number: 1 }),
            named(2, "n == 1"@, InstView::Equal { lhs: n, rhs: result_of(f, 5) }),
            unnamed(2, InstView::CondBr { cond: result_of(f, 6), if_true: 3, if_false: 4 }),
            unnamed(3, InstView::Const { number: 1 }),
            unnamed(3, InstView::Ret { value: Some(result_of(f, 8)) }),
            unnamed(4, InstView::Const { number: 1 }),
            named(4, "n - 1"@, InstView::Sub { lhs: n, rhs: result_of(f, 10) }),
            unnamed(4, InstView::Const { number: 2 }),
            named(4, "n - 2"@, InstView::Sub { lhs: n, rhs: result_of(f, 12) }),
            named(4, "f(n-1)"@, InstView::Call { callee: f, args: seq![result_of(f, 11)] }),
            named(4, "f(n-2)"@, InstView::Call { callee: f, args: seq![result_of(f, 13)] }),
            named(
                4,
                "f(n-1)+f(n-2)"@,
                InstView::Add { lhs: result_of(f, 14), rhs: result_of(f, 15) },
            ),
            unnamed(4, InstView::Ret { value: Some(result_of(f, 16)) }),
        ],
    }
}

/// The declaration of `rustlib_print`, a procedure that takes one integer
/// and is defined outside the module.
pub open spec fn print_declaration() -> FunctionView {
    FunctionView {
        name: "rustlib_print"@,
        params: seq![Ty::I32],
        ret: None,
        gc: None,
        blocks: Seq::empty(),
        body: Seq::empty(),
    }
}

/// The procedure `user_main`, declared at position `f`, where `fibo` and
/// `print` are the positions of `fibo` and `rustlib_print`:
///
/// ```text
/// user_main():
///   entry:  rustlib_print(fibo(10))
///           return
/// ```
pub open spec fn user_main_function(f: usize, fibo: usize, print: usize) -> FunctionView {
    FunctionView {
        name: "user_main"@,
        params: Seq::empty(),
        ret: None,
        gc: None,
        blocks: seq![BlockView { label: "entry"@, terminator: Some(3usize) }],
        body: seq![
            unnamed(0, InstView::Const { number: 10 }),
            named(0, "fibo(10)"@, InstView::Call { callee: fibo, args: seq![result_of(f, 0)] }),
            named(0, "fibo(10)"@, InstView::Call { callee: print, args: seq![result_of(f, 1)] }),
            unnamed(0, InstView::Ret { value: None }),
        ],
    }
}

/// Block `b` of function `f` where it returns the constant `number`, its
/// first instruction at position `at`.
pub open spec fn constant_return(f: usize, b: usize, at: usize, number: u32) -> Seq<NodeView> {
    seq![
        unnamed(b, InstView::Const { number }),
        unnamed(b, InstView::Ret { value: Some(result_of(f, at)) }),
    ]
}

/// Block `b` of function `f` where it continues in `if_true` when `n`
/// equals `against`, else in `if_false`, its first instruction at position
/// `at` and the outcome of the test called `name`.
pub open spec fn test_against(
    f: usize,
    b: usize,
    at: usize,
    n: Value,
    against: u32,
    name: Seq<char>,
    if_true: usize,
    if_false: usize,
) -> Seq<NodeView> {
    seq![
        unnamed(b, InstView::Const { number: against }),
        named(b, name, InstView::Equal { lhs: n, rhs: result_of(f, at) }),
        unnamed(b, InstView::CondBr { cond: result_of(f, (at + 1) as usize), if_true, if_false }),
    ]
}

/// Block `b` of function `f` where it returns `f(n - 1) + f(n - 2)`, its
/// first instruction at position `at`.
pub open spec fn recursive_sum(f: usize, b: usize, at: usize, n: Value) -> Seq<NodeView> {
    seq![
        unnamed(b, InstView::Const { number: 1 }),
        named(b, "n - 1"@, InstView::Sub { lhs: n, rhs: result_of(f, at) }),
        unnamed(b, InstView::Const { number: 2 }),
        named(b, "n - 2"@, InstView::Sub { lhs: n, rhs: result_of(f, (at + 2) as usize) }),
        named(
            b,
            "f(n-1)"@,
            InstView::Call { callee: f, args: seq![result_of(f, (at + 1) as usize)] },
        ),
        named(
            b,
            "f(n-2)"@,
            InstView::Call { callee: f, args: seq![result_of(f, (at + 3) as usize)] },
        ),
        named(
            b,
            "f(n-1)+f(n-2)"@,
            InstView::Add {
                lhs: result_of(f, (at + 4) as usize),
                rhs: result_of(f, (at + 5) as usize),
            },
        ),
        unnamed(b, InstView::Ret { value: Some(result_of(f, (at + 6) as usize)) }),
    ]
}

/// What `fibo` is before its blocks are filled: the declaration and five
/// open blocks.
pub open spec fn fibo_shell() -> FunctionView {
    FunctionView {
        name: "fibo"@,
        params: seq![Ty::I32],
        ret: Some(Ty::I32),
        gc: Some("shadow-stack"@),
        blocks: seq![
            BlockView { label: "entry"@, terminator: None },
            BlockView { label: "n_is_0"@, terminator: None },
            BlockView { label: "n_is_not_0"@, terminator: None },
            BlockView { label: "n_is_1"@, terminator: None },
            BlockView { label: "n_gt_1"@, terminator: None },
        ],
        body: Seq::empty(),
    }
}

/// Whether `fun` takes one integer and returns one.
pub open spec fn is_unary(fun: FunctionView) -> bool {
    fun.params.len() == 1 && fun.params[0] == Ty::I32 && fun.ret == Some(Ty::I32)
}

/// None of the names that the programs use holds a NUL character.
proof fn lemma_names_without_nul()
    ensures
        !has_nul("fibo"@),
        !has_nul("sum"@),
        !has_nul("rustlib_print"@),
        !has_nul("user_main"@),
        !has_nul("entry"@),
        !has_nul("n_is_0"@),
        !has_nul("n_is_not_0"@),
        !has_nul("n_is_1"@),
        !has_nul("n_gt_1"@),
        !has_nul("x + y"@),
        !has_nul("x + y + z"@),
        !has_nul("n == 0"@),
        !has_nul("n == 1"@),
        !has_nul("n - 1"@),
        !has_nul("n - 2"@),
        !has_nul("f(n-1)"@),
        !has_nul("f(n-2)"@),
        !has_nul("f(n-1)+f(n-2)"@),
        !has_nul("fibo(10)"@),
{
    reveal_strlit("fibo");
    reveal_strlit("sum");
    reveal_strlit("rustlib_print");
    reveal_strlit("user_main");
    reveal_strlit("entry");
    reveal_strlit("n_is_0");
    reveal_strlit("n_is_not_0");
    reveal_strlit("n_is_1");
    reveal_strlit("n_gt_1");
    reveal_strlit("x + y");
    reveal_strlit("x + y + z");
    reveal_strlit("n == 0");
    reveal_strlit("n == 1");
    reveal_strlit("n - 1");
    reveal_strlit("n - 2");
    reveal_strlit("f(n-1)");
    reveal_strlit("f(n-2)");
    reveal_strlit("f(n-1)+f(n-2)");
    reveal_strlit("fibo(10)");
}

/// The labels of the blocks of `fibo` are five different strings.
proof fn lemma_fibo_labels_differ()
    ensures
        "entry"@ != "n_is_0"@,
        "entry"@ != "n_is_not_0"@,
        "entry"@ != "n_is_1"@,
        "entry"@ != "n_gt_1"@,
        "n_is_0"@ != "n_is_not_0"@,
        "n_is_0"@ != "n_is_1"@,
        "n_is_0"@ != "n_gt_1"@,
        "n_is_not_0"@ != "n_is_1"@,
        "n_is_not_0"@ != "n_gt_1"@,
        "n_is_1"@ != "n_gt_1"@,
{
    reveal_strlit("entry");
    reveal_strlit("n_is_0");
    reveal_strlit("n_is_not_0");
    reveal_strlit("n_is_1");
    reveal_strlit("n_gt_1");
    assert("entry"@.len() == 5 && "n_is_0"@.len() == 6 && "n_is_not_0"@.len() == 10);
    assert("n_is_1"@.len() == 6 && "n_gt_1"@.len() == 6);
    assert("n_is_0"@[5] != "n_is_1"@[5]);
    assert("n_is_0"@[2] != "n_gt_1"@[2]);
    assert("n_is_1"@[2] != "n_gt_1"@[2]);
}

impl CodeGenView {
    /// The state after `fun` has been declared and built, with the insertion
    /// point left in its block `last`.
    pub open spec fn with_built(self, fun: FunctionView, last: usize) -> CodeGenView {
        CodeGenView {
            module: ModuleView { functions: self.module.functions.push(fun), ..self.module },
            position: Some(
                BlockHandle { function: self.module.functions.len() as usize, index: last },
            ),
        }
    }

    /// Why `user_main` cannot be built, if so: `fibo` is not declared, one
    /// of the two names that are about to be declared is taken, or `fibo`
    /// does not take one integer and return one.
    pub open spec fn user_main_error(self) -> Option<BuildError> {
        let fibo = self.module.functions[self.module.index_of("fibo"@)];
        if !self.module.declares("fibo"@) {
            Some(BuildError::UnresolvedCallee)
        } else if self.module.declares("rustlib_print"@) || self.module.declares("user_main"@) {
            Some(BuildError::DuplicateDefinition)
        } else if fibo.params.len() != 1 {
            Some(BuildError::ArityMismatch)
        } else if fibo.params[0] != Ty::I32 || fibo.ret != Some(Ty::I32) {
            Some(BuildError::TypeMismatch)
        } else {
            None
        }
    }

    /// The state after `rustlib_print` has been declared and `user_main`
    /// declared and built, with the insertion point left in its only block.
    pub open spec fn with_user_main(self) -> CodeGenView {
        let print = self.module.functions.len() as usize;
        let main = (print + 1) as usize;
        let fibo = self.module.index_of("fibo"@) as usize;
        CodeGenView {
            module: ModuleView {
                functions: self.module.functions.push(print_declaration()).push(
                    user_main_function(main, fibo, print),
                ),
                ..self.module
            },
            position: Some(BlockHandle { function: main, index: 0 }),
        }
    }
}

impl<'t> CodeGen<'t> {
    /// Declares and builds `sum`, which adds its three parameters.
    ///
    /// Fails, and changes nothing, if the module already declares `sum`.
    pub fn compile_sum(&mut self) -> (res: Result<FunctionHandle, BuildError>)
        ensures
            match res {
                Ok(h) => {
                    &&& !old(self)@.module.declares("sum"@)
                    &&& h.index == old(self)@.module.functions.len()
                    &&& final(self)@ == old(self)@.with_built(sum_function(h.index), 0)
                },
                Err(e) => {
                    &&& e == BuildError::DuplicateDefinition
                    &&& old(self)@.module.declares("sum"@)
                    &&& final(self)@ == old(self)@
                },
            },
    {
        proof {
            lemma_names_without_nul();
        }
        let mut params: Vec<Ty> = Vec::new();
        params.push(Ty::I32);
        params.push(Ty::I32);
        params.push(Ty::I32);
        let function = match self.declare_function("sum", params, Some(Ty::I32)) {
            Ok(h) => h,
            Err(e) => {
                return Err(e);
            },
        };
        let x = self.param(function, 0).unwrap();
        let y = self.param(function, 1).unwrap();
        let z = self.param(function, 2).unwrap();
        let entry = self.append_block(function, "entry").unwrap();
        self.position_at(entry).unwrap();
        let t = self.emit_add(x, y, "x + y").unwrap();
        let r = self.emit_add(t, z, "x + y + z").unwrap();
        self.emit_return(Some(r)).unwrap();
        proof {
            let built = self@.function(function);
            let expected = sum_function(function.index);
            assert(built.params =~= expected.params);
            assert(built.blocks =~= expected.blocks);
            assert(built.body =~= expected.body);
            assert(self@.module.functions =~= old(self)@.module.functions.push(expected));
        }
        Ok(function)
    }
    /// Fills `block` with the return of the constant `number`.
    fn fill_constant_return(&mut self, block: BlockHandle, number: u32)
        requires
            old(self)@.has_open_block(block),
            old(self)@.module.functions[block.function as int].ret == Some(Ty::I32),
            old(self)@.module.functions[block.function as int].body.len() < usize::MAX - 8,
        ensures
            final(self)@ == old(self)@.with_filled_block(
                block,
                constant_return(
                    block.function,
                    block.index,
                    old(self)@.next_index(block),
                    number,
                ),
            ),
    {
        self.position_at(block).unwrap();
        let c = self.emit_const(number).unwrap();
        self.emit_return(Some(c)).unwrap();
        proof {
            let f = block.function as int;
            let expected = old(self)@.with_filled_block(
                block,
                constant_return(
                    block.function,
                    block.index,
                    old(self)@.next_index(block),
                    number,
                ),
            );
            assert(self@.module.functions[f].blocks =~= expected.module.functions[f].blocks);
            assert(self@.module.functions[f].body =~= expected.module.functions[f].body);
            assert(self@.module.functions =~= expected.module.functions);
        }
    }

    /// Fills `block` with the test whether `n` equals `against`, which
    /// continues in `if_true` if so and in `if_false` if not. The outcome
    /// of the test is called `name`.
    fn fill_test(
        &mut self,
        block: BlockHandle,
        n: Value,
        against: u32,
        name: &str,
        if_true: BlockHandle,
        if_false: BlockHandle,
    )
        requires
            old(self)@.has_open_block(block),
            old(self)@.has_block(if_true),
            old(self)@.has_block(if_false),
            if_true.function == block.function,
            if_false.function == block.function,
            n == param_of(block.function, 0),
            is_unary(old(self)@.function(FunctionHandle { index: block.function })),
            old(self)@.function(FunctionHandle { index: block.function }).body.len() < usize::MAX - 8,
            !has_nul(name@),
        ensures
            final(self)@ == old(self)@.with_filled_block(
                block,
                test_against(
                    block.function,
                    block.index,
                    old(self)@.next_index(block),
                    n,
                    against,
                    name@,
                    if_true.index,
                    if_false.index,
                ),
            ),
    {
        self.position_at(block).unwrap();
        let c = self.emit_const(against).unwrap();
        let hit = self.emit_icmp_eq(n, c, name).unwrap();
        self.emit_cond_branch(hit, if_true, if_false).unwrap();
        proof {
            let h = FunctionHandle { index: block.function };
            let expected = old(self)@.with_filled_block(
                block,
                test_against(
                    block.function,
                    block.index,
                    old(self)@.next_index(block),
                    n,
                    against,
                    name@,
                    if_true.index,
                    if_false.index,
                ),
            );
            assert(self@.function(h).blocks =~= expected.function(h).blocks);
            assert(self@.function(h).body =~= expected.function(h).body);
            assert(self@.module.functions =~= expected.module.functions);
        }
    }

    /// Fills `block` with the return of `f(n - 1) + f(n - 2)`, where `f` is
    /// the function that the block belongs to.
    fn fill_recursive_sum(&mut self, block: BlockHandle, n: Value)
        requires
            old(self)@.has_open_block(block),
            n == param_of(block.function, 0),
            is_unary(old(self)@.function(FunctionHandle { index: block.function })),
            old(self)@.function(FunctionHandle { index: block.function }).body.len() < usize::MAX - 8,
        ensures
            final(self)@ == old(self)@.with_filled_block(
                block,
                recursive_sum(block.function, block.index, old(self)@.next_index(block), n),
            ),
    {
        let function = FunctionHandle { index: block.function };
        proof {
            reveal_with_fuel(CodeGenView::args_error, 2);
            lemma_names_without_nul();
        }
        self.position_at(block).unwrap();
        let one = self.emit_const(1).unwrap();
        let n_min_1 = self.emit_sub(n, one, "n - 1").unwrap();
        let two = self.emit_const(2).unwrap();
        let n_min_2 = self.emit_sub(n, two, "n - 2").unwrap();
        let mut args_1: Vec<Value> = Vec::new();
        args_1.push(n_min_1);
        let n_prev1 = self.emit_call(function, args_1, "f(n-1)").unwrap().unwrap();
        let mut args_2: Vec<Value> = Vec::new();
        args_2.push(n_min_2);
        let n_prev2 = self.emit_call(function, args_2, "f(n-2)").unwrap().unwrap();
        let n_next = self.emit_add(n_prev1, n_prev2, "f(n-1)+f(n-2)").unwrap();
        self.emit_return(Some(n_next)).unwrap();
        proof {
            let expected = old(self)@.with_filled_block(
                block,
                recursive_sum(block.function, block.index, old(self)@.next_index(block), n),
            );
            assert(args_1@ =~= seq![n_min_1]);
            assert(args_2@ =~= seq![n_min_2]);
            assert(self@.function(function).blocks =~= expected.function(function).blocks);
            assert(self@.function(function).body =~= expected.function(function).body);
            assert(self@.module.functions =~= expected.module.functions);
        }
    }

    /// Declares `fibo` and appends its five blocks, all empty.
    fn declare_fibo(&mut self) -> (res: Result<FunctionHandle, BuildError>)
        ensures
            match res {
                Ok(h) => {
                    &&& !old(self)@.module.declares("fibo"@)
                    &&& h.index == old(self)@.module.functions.len()
                    &&& final(self)@ == (CodeGenView {
                        module: ModuleView {
                            functions: old(self)@.module.functions.push(fibo_shell()),
                            ..old(self)@.module
                        },
                        ..old(self)@
                    })
                },
                Err(e) => {
                    &&& e == BuildError::DuplicateDefinition
                    &&& old(self)@.module.declares("fibo"@)
                    &&& final(self)@ == old(self)@
                },
            },
    {
        proof {
            lemma_names_without_nul();
        }
        let mut params: Vec<Ty> = Vec::new();
        params.push(Ty::I32);
        let function = match self.declare_function("fibo", params, Some(Ty::I32)) {
            Ok(h) => h,
            Err(e) => {
                return Err(e);
            },
        };
        self.set_gc(function, "shadow-stack").unwrap();
        proof {
            lemma_fibo_labels_differ();
        }
        self.append_block(function, "entry").unwrap();
        assert(self@.function(function).blocks.len() == 1);
        self.append_block(function, "n_is_0").unwrap();
        assert(self@.function(function).blocks.len() == 2);
        self.append_block(function, "n_is_not_0").unwrap();
        assert(self@.function(function).blocks.len() == 3);
        self.append_block(function, "n_is_1").unwrap();
        assert(self@.function(function).blocks.len() == 4);
        self.append_block(function, "n_gt_1").unwrap();
        proof {
            let built = self@.function(function);
            assert(built.params =~= fibo_shell().params);
            assert(built.blocks =~= fibo_shell().blocks);
            assert(built.body =~= fibo_shell().body);
            assert(self@.module.functions =~= old(self)@.module.functions.push(fibo_shell()));
        }
        Ok(function)
    }

    /// Declares and builds `fibo`, the Fibonacci function: two nested tests
    /// for 0 and 1, and for anything larger the sum of two calls of `fibo`
    /// itself, which exist as soon as the function is declared.
    ///
    /// Fails, and changes nothing, if the module already declares `fibo`.
    pub fn compile_fibo(&mut self) -> (res: Result<FunctionHandle, BuildError>)
        ensures
            match res {
                Ok(h) => {
                    &&& !old(self)@.module.declares("fibo"@)
                    &&& h.index == old(self)@.module.functions.len()
                    &&& final(self)@ == old(self)@.with_built(fibo_function(h.index), 4)
                },
                Err(e) => {
                    &&& e == BuildError::DuplicateDefinition
                    &&& old(self)@.module.declares("fibo"@)
                    &&& final(self)@ == old(self)@
                },
            },
    {
        let function = match self.declare_fibo() {
            Ok(h) => h,
            Err(e) => {
                return Err(e);
            },
        };
        let f = function.index;
        let n = self.param(function, 0).unwrap();
        let entry = BlockHandle { function: f, index: 0 };
        let n_is_0 = BlockHandle { function: f, index: 1 };
        let n_is_not_0 = BlockHandle { function: f, index: 2 };
        let n_is_1 = BlockHandle { function: f, index: 3 };
        let n_gt_1 = BlockHandle { function: f, index: 4 };
        proof {
            lemma_names_without_nul();
        }

        self.fill_test(entry, n, 0, "n == 0", n_is_0, n_is_not_0);
        self.fill_constant_return(n_is_0, 0);
        self.fill_test(n_is_not_0, n, 1, "n == 1", n_is_1, n_gt_1);
        self.fill_constant_return(n_is_1, 1);
        self.fill_recursive_sum(n_gt_1, n);

        proof {
            let built = self@.function(function);
            let expected = fibo_function(f);
            assert(built.params =~= expected.params);
            assert(built.blocks =~= expected.blocks);
            assert(built.body =~= expected.body);
            assert(self@.module.functions =~= old(self)@.module.functions.push(expected));
        }
        Ok(function)
    }
    /// Declares `rustlib_print`, a procedure defined elsewhere that takes one
    /// integer, and declares and builds the procedure `user_main`, which
    /// hands `fibo(10)` to it.
    ///
    /// The module must declare `fibo`, taking one integer and returning one,
    /// and neither of the two new names. If not, this fails and changes
    /// nothing.
    pub fn compile_user_main(&mut self) -> (res: Result<FunctionHandle, BuildError>)
        ensures
            match res {
                Ok(h) => {
                    &&& old(self)@.user_main_error() is None
                    &&& h.index == old(self)@.module.functions.len() + 1
                    &&& final(self)@ == old(self)@.with_user_main()
                },
                Err(e) => old(self)@.user_main_error() == Some(e) && final(self)@ == old(self)@,
            },
    {
        let fibo = match self.get_function("fibo") {
            Ok(h) => h,
            Err(e) => {
                return Err(e);
            },
        };
        let module = self.module();
        proof {
            lemma_index_of(self@.module, fibo.index as int, "fibo"@);
        }
        if module.find_function("rustlib_print").is_some() || module.find_function(
            "user_main",
        ).is_some() {
            return Err(BuildError::DuplicateDefinition);
        }
        let declared = &module.functions[fibo.index];
        if declared.params.len() != 1 {
            return Err(BuildError::ArityMismatch);
        }
        match (declared.params[0], declared.ret) {
            (Ty::I32, Some(Ty::I32)) => {},
            _ => {
                return Err(BuildError::TypeMismatch);
            },
        }
        proof {
            lemma_names_without_nul();
            reveal_strlit("rustlib_print");
            reveal_strlit("user_main");
            assert("rustlib_print"@.len() == 13 && "user_main"@.len() == 9);
            reveal_with_fuel(CodeGenView::args_error, 2);
        }
        let mut print_params: Vec<Ty> = Vec::new();
        print_params.push(Ty::I32);
        let print = self.declare_function("rustlib_print", print_params, None).unwrap();
        let function = self.declare_function("user_main", Vec::new(), None).unwrap();
        let entry = self.append_block(function, "entry").unwrap();
        self.position_at(entry).unwrap();

        let ten = self.emit_const(10).unwrap();
        let mut fibo_args: Vec<Value> = Vec::new();
        fibo_args.push(ten);
        let fibo_10 = self.emit_call(fibo, fibo_args, "fibo(10)").unwrap().unwrap();
        let mut print_args: Vec<Value> = Vec::new();
        print_args.push(fibo_10);
        self.emit_call(print, print_args, "fibo(10)").unwrap();
        self.emit_return(None).unwrap();

        proof {
            let expected = old(self)@.with_user_main();
            let declared = self@.function(print);
            let built = self@.function(function);
            assert(declared.params =~= print_declaration().params);
            assert(declared.blocks =~= print_declaration().blocks);
            assert(declared.body =~= print_declaration().body);
            assert(built.params =~= expected.function(function).params);
            assert(built.blocks =~= expected.function(function).blocks);
            assert(built.body =~= expected.function(function).body);
            assert(self@.module.functions =~= expected.module.functions);
        }
        Ok(function)
    }
}

} // verus!
