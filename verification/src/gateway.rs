//! What can be had from a finished module: its text, its native code as
//! bytes, and the address of one of its functions, compiled into the running
//! process.

use vstd::prelude::*;
use crate::backend;
use crate::finish::FinishedModule;
use crate::ir::{
    lemma_index_of, lemma_wf_names, lemma_wf_node, FunctionView, Inst, InstView, ModuleView,
};
use crate::lower::{backend_value, lower};
use crate::target::TargetDescriptor;
use crate::types::{same_return_type, same_type, Format, GatewayError, Optimization, Ty};

verus! {

/// A signature: the types of the parameters and of the result, if any.
#[derive(Clone, Debug, PartialEq, Eq)]
pub struct Signature {
    pub params: Vec<Ty>,
    pub ret: Option<Ty>,
}

/// The view of a [`Signature`].
pub struct SignatureView {
    pub params: Seq<Ty>,
    pub ret: Option<Ty>,
}

impl View for Signature {
    type V = SignatureView;

    open spec fn view(&self) -> SignatureView {
        SignatureView { params: self.params@, ret: self.ret }
    }
}

impl FunctionView {
    /// The signature of the function.
    pub open spec fn signature(self) -> SignatureView {
        SignatureView { params: self.params, ret: self.ret }
    }
}

/// A function compiled into the running process: the address of its native
/// code and the signature that the code has. The code lives as long as this
/// value does.
pub struct NativeCallable<'ctx> {
    pub address: usize,
    pub signature: Signature,
    pub engine: inkwell::execution_engine::ExecutionEngine<'ctx>,
}

/// A module of the backend together with the module that it was lowered
/// from.
pub(crate) struct Lowered<'m, 't, 'ctx> {
    pub(crate) source: &'m FinishedModule<'t>,
    pub(crate) module: inkwell::module::Module<'ctx>,
}

/// An execution engine together with the module that it was made for.
pub(crate) struct Compiled<'m, 't, 'ctx> {
    pub(crate) source: &'m FinishedModule<'t>,
    pub(crate) engine: inkwell::execution_engine::ExecutionEngine<'ctx>,
}

impl ModuleView {
    /// Whether the instruction at position `k` of function `f` needs nothing
    /// from outside the module: it is no call, or it calls a function that
    /// has a body.
    pub open spec fn calls_inside(self, f: int, k: int) -> bool {
        match self.functions[f].body[k].inst {
            InstView::Call { callee, .. } => self.functions[callee as int].is_defined(),
            _ => true,
        }
    }

    /// Whether every function that some instruction calls has a body, so
    /// that native code needs nothing from outside the module.
    pub open spec fn self_contained(self) -> bool {
        forall|f: int, k: int|
            0 <= f < self.functions.len() && 0 <= k < self.functions[f].body.len()
                ==> #[trigger] self.calls_inside(f, k)
    }

    /// Why the function called `name` cannot be handed out with the
    /// signature `expected`, whatever the backend does: no such function is
    /// declared, it is declared with another signature, or native code for
    /// it would need a function that has no body.
    pub open spec fn lookup_error(self, name: Seq<char>, expected: SignatureView) -> Option<
        GatewayError,
    > {
        let fun = self.functions[self.index_of(name)];
        if !self.declares(name) {
            Some(GatewayError::SymbolNotFound)
        } else if fun.signature() != expected {
            Some(GatewayError::SignatureMismatch)
        } else if !fun.is_defined() || !self.self_contained() {
            Some(GatewayError::SymbolNotFound)
        } else {
            None
        }
    }
}

/// The text of `module`, as the backend prints it.
///
/// The module is lowered first. What the backend answers to that cannot be
/// known beforehand: where it refuses, the outcome is a lowering error.
pub fn print_ir(module: &FinishedModule) -> (res: Result<String, GatewayError>)
    ensures
        res matches Err(e) ==> e == GatewayError::LoweringError,
        !module@.fits_backend() ==> res is Err,
{
    let context = backend::new_context();
    let lowered = match lower(module, &context) {
        Ok(m) => m,
        Err(e) => {
            return Err(e);
        },
    };
    Ok(backend::print_module(&lowered))
}

/// Lowers `module` through `machine` to assembly text or to an object file
/// and hands out the bytes.
///
/// Where the backend cannot lower the module, or cannot emit it, the outcome
/// is a lowering error.
pub fn emit(module: &FinishedModule, machine: &TargetDescriptor, format: Format) -> (res: Result<
    Vec<u8>,
    GatewayError,
>)
    ensures
        res matches Err(e) ==> e == GatewayError::LoweringError,
        !module@.fits_backend() ==> res is Err,
{
    let context = backend::new_context();
    let ir = module.ir();
    let lowered = match lower(module, &context) {
        Ok(m) => m,
        Err(e) => {
            return Err(e);
        },
    };
    let lowered = Lowered { source: module, module: lowered };
    proof {
        lemma_wf_names(module@);
    }
    backend_value(backend::write_to_memory(&machine.handle, &lowered, format))
}

/// Tests whether `params` and `ret` are the signature `expected`.
pub fn signature_matches(params: &Vec<Ty>, ret: Option<Ty>, expected: &Signature) -> (same: bool)
    ensures
        same == (SignatureView { params: params@, ret } == expected@),
{
    if !same_return_type(ret, expected.ret) || params.len() != expected.params.len() {
        return false;
    }
    let mut i: usize = 0;
    while i < params.len()
        invariant
            i <= params@.len(),
            params@.len() == expected.params@.len(),
            forall|j: int| 0 <= j < i ==> params@[j] == expected.params@[j],
        decreases params@.len() - i,
    {
        if !same_type(params[i], expected.params[i]) {
            return false;
        }
        i += 1;
    }
    assert(params@ =~= expected.params@);
    true
}

/// Tests whether every function that `module` calls has a body.
pub fn is_self_contained(module: &FinishedModule) -> (b: bool)
    ensures
        b == module@.self_contained(),
{
    let ir = module.ir();
    let mut f: usize = 0;
    while f < ir.functions.len()
        invariant
            ir@ == module@,
            ir@.wf(),
            f <= ir.functions@.len(),
            forall|g: int, k: int|
                0 <= g < f && 0 <= k < ir@.functions[g].body.len() ==> #[trigger] ir@.calls_inside(
                    g,
                    k,
                ),
        decreases ir.functions@.len() - f,
    {
        let mut k: usize = 0;
        while k < ir.functions[f].body.len()
            invariant
                ir@ == module@,
                ir@.wf(),
                f < ir.functions@.len(),
                k <= ir.functions@[f as int].body@.len(),
                forall|g: int, k: int|
                    0 <= g < f && 0 <= k < ir@.functions[g].body.len()
                        ==> #[trigger] ir@.calls_inside(g, k),
                forall|j: int| 0 <= j < k ==> #[trigger] ir@.calls_inside(f as int, j),
            decreases ir.functions@[f as int].body@.len() - k,
        {
            proof {
                lemma_wf_node(ir@, f as int, k as int);
            }
            match &ir.functions[f].body[k].inst {
                Inst::Call { callee, .. } => {
                    if ir.functions[*callee].blocks.len() == 0 {
                        assert(!ir@.calls_inside(f as int, k as int));
                        return false;
                    }
                },
                _ => {},
            }
            k += 1;
        }
        f += 1;
    }
    true
}

/// What the backend's answer to a request for an address means: the
/// function with that address and the signature that was checked, or an
/// unknown symbol where it has no address.
pub fn resolved<'ctx>(
    address: Option<usize>,
    signature: Signature,
    engine: inkwell::execution_engine::ExecutionEngine<'ctx>,
) -> (res: Result<NativeCallable<'ctx>, GatewayError>)
    ensures
        match address {
            Some(a) => res == Ok::<NativeCallable<'ctx>, GatewayError>(
                NativeCallable { address: a, signature, engine },
            ),
            None => res == Err::<NativeCallable<'ctx>, GatewayError>(GatewayError::SymbolNotFound),
        },
{
    match address {
        Some(a) => Ok(NativeCallable { address: a, signature, engine }),
        None => Err(GatewayError::SymbolNotFound),
    }
}

/// Compiles `module` into the running process and hands out the function
/// called `function_name`, which the caller expects to have the signature
/// `expected`.
///
/// The name must be declared, with that signature and with a body, and
/// nothing in the module may call a function without a body. Then the
/// backend decides: it may fail to lower the module, or to find the symbol.
pub fn jit_lookup<'ctx>(
    module: &FinishedModule,
    context: &'ctx inkwell::context::Context,
    function_name: &str,
    expected: Signature,
) -> (res: Result<NativeCallable<'ctx>, GatewayError>)
    ensures
        match res {
            Ok(callable) => {
                &&& module@.lookup_error(function_name@, expected@) is None
                &&& callable.address != 0
                &&& callable.signature == expected
            },
            Err(e) => match module@.lookup_error(function_name@, expected@) {
                Some(refusal) => e == refusal,
                None => e == GatewayError::LoweringError || e == GatewayError::SymbolNotFound,
            },
        },
{
    let index = match module.ir().find_function(function_name) {
        Some(i) => i,
        None => {
            return Err(GatewayError::SymbolNotFound);
        },
    };
    proof {
        lemma_index_of(module@, index as int, function_name@);
    }
    let fun = &module.ir().functions[index];
    if !signature_matches(&fun.params, fun.ret, &expected) {
        return Err(GatewayError::SignatureMismatch);
    }
    if fun.blocks.len() == 0 || !is_self_contained(module) {
        return Err(GatewayError::SymbolNotFound);
    }
    let lowered = match lower(module, context) {
        Ok(m) => m,
        Err(e) => {
            return Err(e);
        },
    };
    let engine = match backend::create_jit(&lowered, Optimization::Off) {
        Some(e) => e,
        None => {
            return Err(GatewayError::LoweringError);
        },
    };
    let compiled = Compiled { source: module, engine };
    proof {
        lemma_wf_names(module@);
    }
    let address = backend::function_address(&compiled, function_name);
    resolved(address, expected, compiled.engine)
}

} // verus!
