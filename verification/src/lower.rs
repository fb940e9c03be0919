//! Lowering: a finished module is rebuilt, instruction by instruction, as a
//! module of the backend.
//!
//! What the backend answers is not known beforehand, so success is promised
//! only where nothing is asked that the backend can refuse. What is proved
//! is that lowering never reads outside what the module holds, that it has
//! a value of the backend for whatever an instruction reads and hands that
//! value on, and that a module is refused only where the backend refuses
//! or could not take it as it is, which comes out as
//! [`GatewayError::LoweringError`].

use vstd::prelude::*;
use crate::backend;
use crate::finish::FinishedModule;
use crate::ir::{
    contains_nul, has_nul, lemma_wf_node, Function, FunctionView, Inst, IrModule, ModuleView,
};
use crate::types::{GatewayError, Origin, Ty, Value};

verus! {

impl FunctionView {
    /// Whether the function takes no parameters and holds no instruction
    /// but constants, so that lowering its body asks nothing of the backend
    /// that the backend can refuse.
    pub open spec fn only_constants(self) -> bool {
        &&& self.params.len() == 0
        &&& forall|k: int| 0 <= k < self.body.len() ==> (#[trigger] self.body[k]).inst is Const
    }
}

impl ModuleView {
    /// Whether the backend can take the module's name and its signatures as
    /// they are: it would cut the name at a NUL character, and it counts
    /// parameters in 32 bits.
    pub open spec fn fits_backend(self) -> bool {
        &&& !has_nul(self.name)
        &&& forall|f: int|
            0 <= f < self.functions.len() ==> (#[trigger] self.functions[f]).params.len()
                <= u32::MAX
    }
}

/// What an answer of the backend's builder means for lowering: a result is
/// kept, and any refusal is a lowering error.
pub fn builder_answer<T>(res: Result<T, inkwell::builder::BuilderError>) -> (out: Result<
    T,
    GatewayError,
>)
    ensures
        match res {
            Ok(t) => out == Ok::<T, GatewayError>(t),
            Err(_) => out == Err::<T, GatewayError>(GatewayError::LoweringError),
        },
{
    match res {
        Ok(t) => Ok(t),
        Err(_) => Err(GatewayError::LoweringError),
    }
}

/// What a value of the backend that may be missing means for lowering: a
/// missing one is a lowering error.
pub fn backend_value<T>(found: Option<T>) -> (out: Result<T, GatewayError>)
    ensures
        match found {
            Some(t) => out == Ok::<T, GatewayError>(t),
            None => out == Err::<T, GatewayError>(GatewayError::LoweringError),
        },
{
    match found {
        Some(t) => Ok(t),
        None => Err(GatewayError::LoweringError),
    }
}

/// What the backend holds while one function is lowered.
struct Frame<'a, 'ctx> {
    /// The functions of the module, in declaration order.
    functions: &'a Vec<inkwell::values::FunctionValue<'ctx>>,
    /// The blocks of the function.
    blocks: Vec<inkwell::basic_block::BasicBlock<'ctx>>,
    /// The parameters of the function.
    params: Vec<inkwell::values::IntValue<'ctx>>,
    /// The results of the instructions lowered so far.
    values: Vec<Option<inkwell::values::IntValue<'ctx>>>,
}

impl<'a, 'ctx> Frame<'a, 'ctx> {
    /// Whether the frame can serve the instruction at position `k` of
    /// function `f` of `m`.
    spec fn serves(&self, m: ModuleView, f: int, k: int) -> bool {
        &&& 0 <= f < m.functions.len()
        &&& self.functions@.len() == m.functions.len()
        &&& self.blocks@.len() == m.functions[f].blocks.len()
        &&& self.params@.len() == m.functions[f].params.len()
        &&& self.values@.len() == k
        &&& forall|j: int|
            0 <= j < k ==> ((#[trigger] self.values@[j]) is Some) == (m.result_type(
                m.functions[f].body[j].inst,
            ) is Some)
    }

    /// What the frame holds for `v`: the parameter at that position, or what
    /// the instruction at that position gave, if it gave a value.
    spec fn found(&self, v: Value) -> Option<inkwell::values::IntValue<'ctx>> {
        match v.origin {
            Origin::Param => if v.index < self.params@.len() {
                Some(self.params@[v.index as int])
            } else {
                None
            },
            Origin::Inst => if v.index < self.values@.len() {
                self.values@[v.index as int]
            } else {
                None
            },
        }
    }

    /// Whether the frame holds a value for each of `args`.
    spec fn finds_all(&self, args: Seq<Value>) -> bool {
        forall|j: int| 0 <= j < args.len() ==> self.found(#[trigger] args[j]) is Some
    }

    /// A frame that serves an instruction holds a value for whatever the
    /// instruction may read: a parameter, or the result of an earlier
    /// instruction that produces one.
    proof fn lemma_finds(&self, m: ModuleView, f: int, k: int, v: Value, ty: Ty)
        requires
            self.serves(m, f, k),
            m.reads(f, k, v, ty),
        ensures
            self.found(v) is Some,
    {
        if v.origin is Inst {
            assert(self.values@[v.index as int] is Some);
        }
    }

    /// The backend's value for `v`: what the frame holds for it.
    fn operand(&self, v: Value) -> (value: inkwell::values::IntValue<'ctx>)
        requires
            self.found(v) is Some,
        ensures
            self.found(v) == Some(value),
    {
        match v.origin {
            Origin::Param => self.params[v.index],
            Origin::Inst => self.values[v.index].unwrap(),
        }
    }

    /// The backend's values for `args`, in order: what the frame holds for
    /// each.
    fn operands(&self, args: &Vec<Value>) -> (values: Vec<inkwell::values::IntValue<'ctx>>)
        requires
            self.finds_all(args@),
        ensures
            values@.len() == args@.len(),
            forall|j: int|
                0 <= j < args@.len() ==> self.found(args@[j]) == Some(#[trigger] values@[j]),
    {
        let mut values: Vec<inkwell::values::IntValue<'ctx>> = Vec::new();
        let mut j: usize = 0;
        while j < args.len()
            invariant
                self.finds_all(args@),
                j <= args@.len(),
                values@.len() == j,
                forall|i: int| 0 <= i < j ==> self.found(args@[i]) == Some(#[trigger] values@[i]),
            decreases args@.len() - j,
        {
            assert(self.found(args@[j as int]) is Some);
            values.push(self.operand(args[j]));
            j += 1;
        }
        values
    }

    /// The backend's values for both operands of an instruction over two
    /// integers: what the frame holds for `lhs` and for `rhs`.
    fn operand_pair(&self, lhs: Value, rhs: Value) -> (pair: (
        inkwell::values::IntValue<'ctx>,
        inkwell::values::IntValue<'ctx>,
    ))
        requires
            self.found(lhs) is Some,
            self.found(rhs) is Some,
        ensures
            self.found(lhs) == Some(pair.0),
            self.found(rhs) == Some(pair.1),
    {
        (self.operand(lhs), self.operand(rhs))
    }

    /// Lowers a call of the function at position `callee` with `args`,
    /// whose value is called `name`, and hands out that value where the
    /// callee gives one.
    ///
    /// What the backend is asked to call is the callee with what the frame
    /// holds for the arguments. Whether it builds the call is its own to
    /// decide.
    fn lower_call(
        &self,
        builder: &inkwell::builder::Builder<'ctx>,
        has_result: bool,
        callee: usize,
        args: &Vec<Value>,
        name: &str,
    ) -> (res: Result<Option<inkwell::values::IntValue<'ctx>>, GatewayError>)
        requires
            callee < self.functions@.len(),
            args@.len() <= u32::MAX,
            self.finds_all(args@),
        ensures
            match res {
                Ok(value) => (value is Some) == has_result,
                Err(e) => e == GatewayError::LoweringError,
            },
    {
        let values = self.operands(args);
        let call = match builder_answer(
            backend::build_call(builder, self.functions[callee], &values, name),
        ) {
            Ok(c) => c,
            Err(e) => {
                return Err(e);
            },
        };
        if has_result {
            match backend_value(backend::call_result(call)) {
                Ok(v) => Ok(Some(v)),
                Err(e) => Err(e),
            }
        } else {
            Ok(None)
        }
    }

    /// Builds the instruction at position `k` of function `f` at the
    /// builder's position and hands out its result, where it produces one.
    /// A constant is never refused; anything else the backend may refuse.
    fn build_inst(
        &self,
        builder: &inkwell::builder::Builder<'ctx>,
        i32_type: inkwell::types::IntType<'ctx>,
        module: &IrModule,
        f: usize,
        k: usize,
    ) -> (res: Result<Option<inkwell::values::IntValue<'ctx>>, GatewayError>)
        requires
            module@.wf(),
            module@.fits_backend(),
            self.serves(module@, f as int, k as int),
            k < module@.functions[f as int].body.len(),
        ensures
            match res {
                Ok(value) => (value is Some) == (module@.result_type(
                    module@.functions[f as int].body[k as int].inst,
                ) is Some),
                Err(e) => e == GatewayError::LoweringError,
            },
            module@.functions[f as int].body[k as int].inst is Const ==> res is Ok,
    {
        proof {
            lemma_wf_node(module@, f as int, k as int);
        }
        let inst = &module.functions[f].body[k].inst;
        let name = module.functions[f].body[k].name.as_str();
        let value = match inst {
            Inst::Const { number } => Some(backend::const_int(i32_type, *number)),
            Inst::Add { lhs, rhs } => {
                proof {
                    self.lemma_finds(module@, f as int, k as int, *lhs, Ty::I32);
                    self.lemma_finds(module@, f as int, k as int, *rhs, Ty::I32);
                }
                let (a, b) = self.operand_pair(*lhs, *rhs);
                match builder_answer(backend::build_add(builder, a, b, name)) {
                    Ok(v) => Some(v),
                    Err(e) => {
                        return Err(e);
                    },
                }
            },
            Inst::Sub { lhs, rhs } => {
                proof {
                    self.lemma_finds(module@, f as int, k as int, *lhs, Ty::I32);
                    self.lemma_finds(module@, f as int, k as int, *rhs, Ty::I32);
                }
                let (a, b) = self.operand_pair(*lhs, *rhs);
                match builder_answer(backend::build_sub(builder, a, b, name)) {
                    Ok(v) => Some(v),
                    Err(e) => {
                        return Err(e);
                    },
                }
            },
            Inst::Equal { lhs, rhs } => {
                proof {
                    self.lemma_finds(module@, f as int, k as int, *lhs, Ty::I32);
                    self.lemma_finds(module@, f as int, k as int, *rhs, Ty::I32);
                }
                let (a, b) = self.operand_pair(*lhs, *rhs);
                match builder_answer(backend::build_equal(builder, a, b, name)) {
                    Ok(v) => Some(v),
                    Err(e) => {
                        return Err(e);
                    },
                }
            },
            Inst::Call { callee, args } => {
                assert((#[trigger] module@.functions[*callee as int]).params.len() <= u32::MAX);
                proof {
                    let types = module@.functions[*callee as int].params;
                    assert forall|j: int| 0 <= j < args@.len() implies self.found(
                        #[trigger] args@[j],
                    ) is Some by {
                        self.lemma_finds(module@, f as int, k as int, args@[j], types[j]);
                    }
                }
                let has_result = module.functions[*callee].ret.is_some();
                match self.lower_call(builder, has_result, *callee, args, name) {
                    Ok(v) => v,
                    Err(e) => {
                        return Err(e);
                    },
                }
            },
            Inst::CondBr { cond, if_true, if_false } => {
                proof {
                    self.lemma_finds(module@, f as int, k as int, *cond, Ty::Bool);
                }
                let c = self.operand(*cond);
                let answer = backend::build_cond_branch(
                    builder,
                    c,
                    self.blocks[*if_true],
                    self.blocks[*if_false],
                );
                if let Err(e) = builder_answer(answer) {
                    return Err(e);
                }
                None
            },
            Inst::Br { target } => {
                if let Err(e) = builder_answer(backend::build_branch(builder, self.blocks[*target])) {
                    return Err(e);
                }
                None
            },
            Inst::Ret { value } => {
                let returned = match value {
                    None => None,
                    Some(v) => {
                        proof {
                            let ty = module@.functions[f as int].ret->0;
                            self.lemma_finds(module@, f as int, k as int, *v, ty);
                        }
                        Some(self.operand(*v))
                    },
                };
                if let Err(e) = builder_answer(backend::build_return(builder, returned)) {
                    return Err(e);
                }
                None
            },
        };
        Ok(value)
    }

    /// Lowers the instruction at position `k` of function `f` at the
    /// builder's position and records its result: the frame grows by one
    /// entry, which holds a value if and only if the instruction produces
    /// one. Where the backend refuses, the frame stays as it is.
    fn lower_inst(
        &mut self,
        builder: &inkwell::builder::Builder<'ctx>,
        i32_type: inkwell::types::IntType<'ctx>,
        module: &IrModule,
        f: usize,
        k: usize,
    ) -> (res: Result<(), GatewayError>)
        requires
            module@.wf(),
            module@.fits_backend(),
            old(self).serves(module@, f as int, k as int),
            k < module@.functions[f as int].body.len(),
        ensures
            match res {
                Ok(()) => {
                    &&& final(self).serves(module@, f as int, k + 1)
                    &&& final(self).functions == old(self).functions
                    &&& final(self).blocks@ == old(self).blocks@
                    &&& final(self).params@ == old(self).params@
                    &&& final(self).values@.drop_last() == old(self).values@
                    &&& (final(self).values@.last() is Some) == (module@.result_type(
                        module@.functions[f as int].body[k as int].inst,
                    ) is Some)
                },
                Err(e) => e == GatewayError::LoweringError && *final(self) == *old(self),
            },
            module@.functions[f as int].body[k as int].inst is Const ==> res is Ok,
    {
        let value = match self.build_inst(builder, i32_type, module, f, k) {
            Ok(value) => value,
            Err(e) => {
                return Err(e);
            },
        };
        self.values.push(value);
        proof {
            assert(self.values@.drop_last() =~= old(self).values@);
        }
        Ok(())
    }
}

/// The backend's type for `ty`, where `i32_type` is its type of 32-bit
/// integers and `bool_type` its type of booleans.
pub open spec fn type_for<'ctx>(
    i32_type: inkwell::types::IntType<'ctx>,
    bool_type: inkwell::types::IntType<'ctx>,
    ty: Ty,
) -> inkwell::types::IntType<'ctx> {
    match ty {
        Ty::I32 => i32_type,
        Ty::Bool => bool_type,
    }
}

/// The backend's types for `params`, in order.
fn parameter_types<'ctx>(
    i32_type: inkwell::types::IntType<'ctx>,
    bool_type: inkwell::types::IntType<'ctx>,
    params: &Vec<Ty>,
) -> (types: Vec<inkwell::types::IntType<'ctx>>)
    ensures
        types@.len() == params@.len(),
        forall|i: int|
            0 <= i < params@.len() ==> #[trigger] types@[i] == type_for(
                i32_type,
                bool_type,
                params@[i],
            ),
{
    let mut types: Vec<inkwell::types::IntType<'ctx>> = Vec::new();
    let mut i: usize = 0;
    while i < params.len()
        invariant
            i <= params@.len(),
            types@.len() == i,
            forall|j: int|
                0 <= j < i ==> #[trigger] types@[j] == type_for(i32_type, bool_type, params@[j]),
        decreases params@.len() - i,
    {
        match params[i] {
            Ty::I32 => types.push(i32_type),
            Ty::Bool => types.push(bool_type),
        }
        i += 1;
    }
    types
}

/// Declares function `fun` in the backend's module: asks the backend for a
/// function of that name, with the backend's types for the parameters and
/// for the result, and names the garbage collection strategy where the
/// function has one.
///
/// What comes back is the backend's handle for the function, of which
/// nothing is known.
fn declare<'ctx>(
    context: &'ctx inkwell::context::Context,
    lowered: &inkwell::module::Module<'ctx>,
    fun: &Function,
) -> (res: inkwell::values::FunctionValue<'ctx>)
    requires
        fun@.params.len() <= u32::MAX,
{
    let i32_type = backend::i32_type(context);
    let bool_type = backend::bool_type(context);
    let params = parameter_types(i32_type, bool_type, &fun.params);
    let signature = match fun.ret {
        None => backend::void_fn_type(backend::void_type(context), &params),
        Some(Ty::I32) => backend::int_fn_type(i32_type, &params),
        Some(Ty::Bool) => backend::int_fn_type(bool_type, &params),
    };
    let function = backend::add_function(lowered, fun.name.as_str(), signature);
    match &fun.gc {
        Some(strategy) => backend::set_gc(function, strategy.as_str()),
        None => {},
    }
    function
}

/// Lowers the body of function `f`: its blocks, then its instructions in the
/// order in which they were emitted, each at the end of its block.
///
/// The backend can refuse to hand out a parameter and to build any
/// instruction but a constant. Where the function has neither, lowering its
/// body succeeds; otherwise the backend decides.
fn lower_body<'ctx>(
    context: &'ctx inkwell::context::Context,
    builder: &inkwell::builder::Builder<'ctx>,
    module: &IrModule,
    functions: &Vec<inkwell::values::FunctionValue<'ctx>>,
    f: usize,
) -> (res: Result<(), GatewayError>)
    requires
        module@.wf(),
        module@.fits_backend(),
        f < module@.functions.len(),
        functions@.len() == module@.functions.len(),
    ensures
        res matches Err(e) ==> e == GatewayError::LoweringError,
        module@.functions[f as int].only_constants() ==> res is Ok,
{
    let fun = &module.functions[f];
    let function = functions[f];
    let mut frame = Frame { functions, blocks: Vec::new(), params: Vec::new(), values: Vec::new() };
    assert((#[trigger] module@.functions[f as int]).params.len() <= u32::MAX);

    let mut b: usize = 0;
    while b < fun.blocks.len()
        invariant
            b <= fun.blocks@.len(),
            frame.blocks@.len() == b,
            frame.functions == functions,
            frame.params@.len() == 0,
            frame.values@.len() == 0,
        decreases fun.blocks@.len() - b,
    {
        frame.blocks.push(backend::append_block(context, function, fun.blocks[b].label.as_str()));
        b += 1;
    }

    let mut i: usize = 0;
    while i < fun.params.len()
        invariant
            f < module@.functions.len(),
            fun.params@ == module@.functions[f as int].params,
            fun.params@.len() <= u32::MAX,
            i <= fun.params@.len(),
            frame.params@.len() == i,
            frame.blocks@.len() == fun.blocks@.len(),
            frame.functions == functions,
            frame.values@.len() == 0,
        decreases fun.params@.len() - i,
    {
        let param = match backend_value(backend::nth_param(function, i as u32)) {
            Ok(p) => p,
            Err(e) => {
                return Err(e);
            },
        };
        frame.params.push(param);
        i += 1;
    }

    let i32_type = backend::i32_type(context);
    let mut k: usize = 0;
    while k < fun.body.len()
        invariant
            module@.wf(),
            module@.fits_backend(),
            f < module@.functions.len(),
            *fun == module.functions@[f as int],
            k <= fun.body@.len(),
            frame.serves(module@, f as int, k as int),
        decreases fun.body@.len() - k,
    {
        proof {
            lemma_wf_node(module@, f as int, k as int);
        }
        backend::position_at_end(builder, frame.blocks[fun.body[k].block]);
        if let Err(e) = frame.lower_inst(builder, i32_type, module, f, k) {
            assert(!(module@.functions[f as int].body[k as int].inst is Const));
            return Err(e);
        }
        k += 1;
    }
    Ok(())
}

/// Rebuilds `module` in `context` as a module of the backend: every function
/// is declared, in declaration order, then every body is lowered, the
/// target is set where the module has one, and the backend checks the result.
///
/// A module whose name or signatures the backend cannot take as they are is
/// refused.
pub fn lower<'ctx>(module: &FinishedModule, context: &'ctx inkwell::context::Context) -> (res:
    Result<inkwell::module::Module<'ctx>, GatewayError>)
    ensures
        res matches Err(e) ==> e == GatewayError::LoweringError,
        !module@.fits_backend() ==> res is Err,
{
    let ir = module.ir();
    if contains_nul(ir.name.as_str()) {
        return Err(GatewayError::LoweringError);
    }
    let lowered = backend::new_module(context, ir.name.as_str());
    let builder = backend::new_builder(context);

    let mut functions: Vec<inkwell::values::FunctionValue<'ctx>> = Vec::new();
    let mut f: usize = 0;
    while f < ir.functions.len()
        invariant
            f <= ir.functions@.len(),
            functions@.len() == f,
            forall|g: int| 0 <= g < f ==> (#[trigger] ir@.functions[g]).params.len() <= u32::MAX,
        decreases ir.functions@.len() - f,
    {
        if ir.functions[f].params.len() > u32::MAX as usize {
            return Err(GatewayError::LoweringError);
        }
        functions.push(declare(context, &lowered, &ir.functions[f]));
        f += 1;
    }

    let mut f: usize = 0;
    while f < ir.functions.len()
        invariant
            ir@.wf(),
            ir@.fits_backend(),
            f <= ir.functions@.len(),
            functions@.len() == ir@.functions.len(),
        decreases ir.functions@.len() - f,
    {
        if let Err(e) = lower_body(context, &builder, ir, &functions, f) {
            return Err(e);
        }
        f += 1;
    }

    match ir.target {
        Some(target) => {
            backend::set_triple(&lowered, target.triple.as_str());
            let layout = backend::data_layout(&backend::target_data(&target.handle));
            backend::set_data_layout(&lowered, &layout);
        },
        None => {},
    }
    if !backend::verify_module(&lowered) {
        return Err(GatewayError::LoweringError);
    }
    Ok(lowered)
}

} // verus!
