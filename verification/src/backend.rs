//! The boundary to LLVM, through the `inkwell` crate.
//!
//! Nothing in this file is proved. The types are opaque to the verifier, and
//! each function makes one call into `inkwell` and claims of it only what is
//! written in its contract; most claim nothing. What the backend keeps behind
//! its handles is not modelled: the functions that use this file are verified
//! for every answer that the backend may give.

use vstd::prelude::*;
use crate::gateway::{Compiled, Lowered};
use crate::types::{CodeModelKind, Format, Optimization, Relocation};

verus! {

/// `inkwell::context::Context`: the owner of everything that is built.
#[verifier::external_type_specification]
#[verifier::external_body]
pub struct ExContext(inkwell::context::Context);

/// `inkwell::module::Module`: a module as the backend holds it.
#[verifier::external_type_specification]
#[verifier::external_body]
pub struct ExModule<'ctx>(inkwell::module::Module<'ctx>);

/// `inkwell::builder::Builder`: the backend's instruction builder.
#[verifier::external_type_specification]
#[verifier::external_body]
pub struct ExBuilder<'ctx>(inkwell::builder::Builder<'ctx>);

/// `inkwell::builder::BuilderError`: why the builder refused an instruction.
#[verifier::external_type_specification]
#[verifier::external_body]
pub struct ExBuilderError(inkwell::builder::BuilderError);

/// `inkwell::types::IntType`: an integer type of some width.
#[verifier::external_type_specification]
#[verifier::external_body]
pub struct ExIntType<'ctx>(inkwell::types::IntType<'ctx>);

/// `inkwell::types::VoidType`: the type of no value.
#[verifier::external_type_specification]
#[verifier::external_body]
pub struct ExVoidType<'ctx>(inkwell::types::VoidType<'ctx>);

/// `inkwell::types::FunctionType`: a signature.
#[verifier::external_type_specification]
#[verifier::external_body]
pub struct ExFunctionType<'ctx>(inkwell::types::FunctionType<'ctx>);

/// `inkwell::values::FunctionValue`: a function of a backend module.
#[verifier::external_type_specification]
#[verifier::external_body]
pub struct ExFunctionValue<'ctx>(inkwell::values::FunctionValue<'ctx>);

/// `inkwell::values::IntValue`: an integer value.
#[verifier::external_type_specification]
#[verifier::external_body]
pub struct ExIntValue<'ctx>(inkwell::values::IntValue<'ctx>);

/// `inkwell::values::CallSiteValue`: a call instruction.
#[verifier::external_type_specification]
#[verifier::external_body]
pub struct ExCallSiteValue<'ctx>(inkwell::values::CallSiteValue<'ctx>);

/// `inkwell::basic_block::BasicBlock`: a block of a backend function.
#[verifier::external_type_specification]
#[verifier::external_body]
pub struct ExBasicBlock<'ctx>(inkwell::basic_block::BasicBlock<'ctx>);

/// `inkwell::targets::Target`: a code generator for one processor family.
#[verifier::external_type_specification]
#[verifier::external_body]
pub struct ExTarget(inkwell::targets::Target);

/// `inkwell::targets::TargetMachine`: a target with its code generation
/// options.
#[verifier::external_type_specification]
#[verifier::external_body]
pub struct ExTargetMachine(inkwell::targets::TargetMachine);

/// `inkwell::targets::TargetData`: how a target lays out data.
#[verifier::external_type_specification]
#[verifier::external_body]
pub struct ExTargetData(inkwell::targets::TargetData);

/// `inkwell::data_layout::DataLayout`: a data layout in its textual form.
#[verifier::external_type_specification]
#[verifier::external_body]
pub struct ExDataLayout(inkwell::data_layout::DataLayout);

/// `inkwell::execution_engine::ExecutionEngine`: a compiler that turns a
/// module into native code inside the running process.
#[verifier::external_type_specification]
#[verifier::external_body]
pub struct ExExecutionEngine<'ctx>(inkwell::execution_engine::ExecutionEngine<'ctx>);

/// Calls `Context::create`. Nothing is claimed of the context.
#[verifier::external_body]
pub(crate) fn new_context() -> (context: inkwell::context::Context) {
    inkwell::context::Context::create()
}

/// Calls `Context::create_module` with `name`. Nothing is claimed of the
/// module.
#[verifier::external_body]
pub(crate) fn new_module<'ctx>(
    context: &'ctx inkwell::context::Context,
    name: &str,
) -> (module: inkwell::module::Module<'ctx>) {
    context.create_module(name)
}

/// Calls `Context::create_builder`. Nothing is claimed of the builder; it has
/// no position yet.
#[verifier::external_body]
pub(crate) fn new_builder<'ctx>(context: &'ctx inkwell::context::Context) -> (builder:
    inkwell::builder::Builder<'ctx>) {
    context.create_builder()
}

/// Calls `Context::i32_type`.
#[verifier::external_body]
pub(crate) fn i32_type<'ctx>(context: &'ctx inkwell::context::Context) -> (ty:
    inkwell::types::IntType<'ctx>) {
    context.i32_type()
}

/// Calls `Context::bool_type`.
#[verifier::external_body]
pub(crate) fn bool_type<'ctx>(context: &'ctx inkwell::context::Context) -> (ty:
    inkwell::types::IntType<'ctx>) {
    context.bool_type()
}

/// Calls `Context::void_type`.
#[verifier::external_body]
pub(crate) fn void_type<'ctx>(context: &'ctx inkwell::context::Context) -> (ty:
    inkwell::types::VoidType<'ctx>) {
    context.void_type()
}

/// Calls `IntType::fn_type` on `ret` with `params` and no variable
/// arguments. The call hands the number of parameters on as a `u32`; larger
/// numbers are left out.
#[verifier::external_body]
pub(crate) fn int_fn_type<'ctx>(
    ret: inkwell::types::IntType<'ctx>,
    params: &Vec<inkwell::types::IntType<'ctx>>,
) -> (ty: inkwell::types::FunctionType<'ctx>)
    requires
        params@.len() <= u32::MAX,
{
    let params: Vec<inkwell::types::BasicMetadataTypeEnum<'ctx>> = params.iter().map(
        |p| (*p).into(),
    ).collect();
    ret.fn_type(&params, false)
}

/// Calls `VoidType::fn_type` on `ret` with `params` and no variable
/// arguments. The call hands the number of parameters on as a `u32`; larger
/// numbers are left out.
#[verifier::external_body]
pub(crate) fn void_fn_type<'ctx>(
    ret: inkwell::types::VoidType<'ctx>,
    params: &Vec<inkwell::types::IntType<'ctx>>,
) -> (ty: inkwell::types::FunctionType<'ctx>)
    requires
        params@.len() <= u32::MAX,
{
    let params: Vec<inkwell::types::BasicMetadataTypeEnum<'ctx>> = params.iter().map(
        |p| (*p).into(),
    ).collect();
    ret.fn_type(&params, false)
}

/// Calls `Module::add_function` with `name`, `ty` and the default linkage.
/// Nothing is claimed of the function: where the name is taken, the backend
/// picks another.
#[verifier::external_body]
pub(crate) fn add_function<'ctx>(
    module: &inkwell::module::Module<'ctx>,
    name: &str,
    ty: inkwell::types::FunctionType<'ctx>,
) -> (function: inkwell::values::FunctionValue<'ctx>) {
    module.add_function(name, ty, None)
}

/// Calls `FunctionValue::set_gc` with `strategy`.
#[verifier::external_body]
pub(crate) fn set_gc<'ctx>(function: inkwell::values::FunctionValue<'ctx>, strategy: &str) {
    function.set_gc(strategy)
}

/// Calls `FunctionValue::get_nth_param` and hands the parameter on where it
/// is an integer. The call computes `nth + 1`, so the largest `u32` is left
/// out. Nothing is claimed of the result.
///
/// The call gives up on a parameter whose type is none of the backend's
/// value types. The functions that this crate declares take integers only.
#[verifier::external_body]
pub(crate) fn nth_param<'ctx>(function: inkwell::values::FunctionValue<'ctx>, nth: u32) -> (param:
    Option<inkwell::values::IntValue<'ctx>>)
    requires
        nth < u32::MAX,
{
    match function.get_nth_param(nth) {
        Some(inkwell::values::BasicValueEnum::IntValue(v)) => Some(v),
        _ => None,
    }
}

/// Calls `Context::append_basic_block` with `function` and `label`. Nothing
/// is claimed of the block.
#[verifier::external_body]
pub(crate) fn append_block<'ctx>(
    context: &'ctx inkwell::context::Context,
    function: inkwell::values::FunctionValue<'ctx>,
    label: &str,
) -> (block: inkwell::basic_block::BasicBlock<'ctx>) {
    context.append_basic_block(function, label)
}

/// Calls `Builder::position_at_end` with `block`.
#[verifier::external_body]
pub(crate) fn position_at_end<'ctx>(
    builder: &inkwell::builder::Builder<'ctx>,
    block: inkwell::basic_block::BasicBlock<'ctx>,
) {
    builder.position_at_end(block)
}

/// Calls `IntType::const_int` on `ty` with `number`, not sign-extended.
#[verifier::external_body]
pub(crate) fn const_int<'ctx>(ty: inkwell::types::IntType<'ctx>, number: u32) -> (value:
    inkwell::values::IntValue<'ctx>) {
    ty.const_int(u64::from(number), false)
}

/// Calls `Builder::build_int_add` with `name` for the sum. Nothing is
/// claimed of the result: the builder refuses where it has no position.
#[verifier::external_body]
pub(crate) fn build_add<'ctx>(
    builder: &inkwell::builder::Builder<'ctx>,
    lhs: inkwell::values::IntValue<'ctx>,
    rhs: inkwell::values::IntValue<'ctx>,
    name: &str,
) -> (res: Result<inkwell::values::IntValue<'ctx>, inkwell::builder::BuilderError>) {
    builder.build_int_add(lhs, rhs, name)
}

/// Calls `Builder::build_int_sub` with `name` for the difference. Nothing is
/// claimed of the result.
#[verifier::external_body]
pub(crate) fn build_sub<'ctx>(
    builder: &inkwell::builder::Builder<'ctx>,
    lhs: inkwell::values::IntValue<'ctx>,
    rhs: inkwell::values::IntValue<'ctx>,
    name: &str,
) -> (res: Result<inkwell::values::IntValue<'ctx>, inkwell::builder::BuilderError>) {
    builder.build_int_sub(lhs, rhs, name)
}

/// Calls `Builder::build_int_compare` with the predicate `EQ` and `name` for
/// the outcome. Nothing is claimed of the result.
#[verifier::external_body]
pub(crate) fn build_equal<'ctx>(
    builder: &inkwell::builder::Builder<'ctx>,
    lhs: inkwell::values::IntValue<'ctx>,
    rhs: inkwell::values::IntValue<'ctx>,
    name: &str,
) -> (res: Result<inkwell::values::IntValue<'ctx>, inkwell::builder::BuilderError>) {
    builder.build_int_compare(inkwell::IntPredicate::EQ, lhs, rhs, name)
}

/// Calls `Builder::build_conditional_branch`. Nothing is claimed of the
/// result.
#[verifier::external_body]
pub(crate) fn build_cond_branch<'ctx>(
    builder: &inkwell::builder::Builder<'ctx>,
    cond: inkwell::values::IntValue<'ctx>,
    if_true: inkwell::basic_block::BasicBlock<'ctx>,
    if_false: inkwell::basic_block::BasicBlock<'ctx>,
) -> (res: Result<(), inkwell::builder::BuilderError>) {
    builder.build_conditional_branch(cond, if_true, if_false).map(|_| ())
}

/// Calls `Builder::build_unconditional_branch`. Nothing is claimed of the
/// result.
#[verifier::external_body]
pub(crate) fn build_branch<'ctx>(
    builder: &inkwell::builder::Builder<'ctx>,
    target: inkwell::basic_block::BasicBlock<'ctx>,
) -> (res: Result<(), inkwell::builder::BuilderError>) {
    builder.build_unconditional_branch(target).map(|_| ())
}

/// Calls `Builder::build_call` with `function`, `args` and `name` for what
/// the call gives; the backend drops the name where the function gives
/// nothing. The call hands the number of arguments on as a `u32`; larger
/// numbers are left out. Nothing is claimed of the result.
#[verifier::external_body]
pub(crate) fn build_call<'ctx>(
    builder: &inkwell::builder::Builder<'ctx>,
    function: inkwell::values::FunctionValue<'ctx>,
    args: &Vec<inkwell::values::IntValue<'ctx>>,
    name: &str,
) -> (res: Result<inkwell::values::CallSiteValue<'ctx>, inkwell::builder::BuilderError>)
    requires
        args@.len() <= u32::MAX,
{
    let args: Vec<inkwell::values::BasicMetadataValueEnum<'ctx>> = args.iter().map(
        |a| (*a).into(),
    ).collect();
    builder.build_call(function, &args, name)
}

/// Calls `CallSiteValue::try_as_basic_value` and hands the value of the call
/// on where it is an integer. Nothing is claimed of the result.
///
/// The call gives up on a value whose type is neither void nor one of the
/// backend's value types. The functions that this crate declares return an
/// integer or nothing.
#[verifier::external_body]
pub(crate) fn call_result<'ctx>(call: inkwell::values::CallSiteValue<'ctx>) -> (value: Option<
    inkwell::values::IntValue<'ctx>,
>) {
    match call.try_as_basic_value().left() {
        Some(inkwell::values::BasicValueEnum::IntValue(v)) => Some(v),
        _ => None,
    }
}

/// Calls `Builder::build_return`, with `value` where there is one. Nothing
/// is claimed of the result.
#[verifier::external_body]
pub(crate) fn build_return<'ctx>(
    builder: &inkwell::builder::Builder<'ctx>,
    value: Option<inkwell::values::IntValue<'ctx>>,
) -> (res: Result<(), inkwell::builder::BuilderError>) {
    let value: Option<&dyn inkwell::values::BasicValue<'ctx>> = match &value {
        Some(v) => Some(v),
        None => None,
    };
    builder.build_return(value).map(|_| ())
}

/// Calls `Module::verify`, the backend's own check of a module, and says
/// whether it passed. Nothing is claimed of the answer.
#[verifier::external_body]
pub(crate) fn verify_module<'ctx>(module: &inkwell::module::Module<'ctx>) -> (valid: bool) {
    module.verify().is_ok()
}

/// Calls `Module::print_to_string` and copies the text. Nothing is claimed
/// of the text.
#[verifier::external_body]
pub(crate) fn print_module<'ctx>(module: &inkwell::module::Module<'ctx>) -> (text: String) {
    module.print_to_string().to_string()
}

/// Calls `Target::initialize_x86` with the default configuration, which
/// registers every part of the x86 backend. Calling it again changes nothing.
#[verifier::external_body]
pub(crate) fn initialize_x86() {
    inkwell::targets::Target::initialize_x86(&inkwell::targets::InitializationConfig::default())
}

/// Calls `TargetMachine::get_default_triple` and copies the triple. Nothing
/// is claimed of it: it depends on the machine.
#[verifier::external_body]
pub(crate) fn default_triple() -> (triple: String) {
    inkwell::targets::TargetMachine::get_default_triple().as_str().to_string_lossy().into_owned()
}

/// Calls `Target::from_triple` with `triple`. Nothing is claimed of the
/// result: it is `None` where no registered backend serves the triple.
#[verifier::external_body]
pub(crate) fn target_from_triple(triple: &str) -> (target: Option<inkwell::targets::Target>) {
    inkwell::targets::Target::from_triple(&inkwell::targets::TargetTriple::create(triple)).ok()
}

/// Calls `Target::create_target_machine` with `triple`, `cpu`, `features`
/// and the backend's optimization level, relocation mode and code model
/// that stand for `level`, `relocation` and `code_model`. Nothing is claimed
/// of the result.
#[verifier::external_body]
pub(crate) fn create_target_machine(
    target: &inkwell::targets::Target,
    triple: &str,
    cpu: &str,
    features: &str,
    level: Optimization,
    relocation: Relocation,
    code_model: CodeModelKind,
) -> (machine: Option<inkwell::targets::TargetMachine>) {
    let level = match level {
        Optimization::Off => inkwell::OptimizationLevel::None,
    };
    let relocation = match relocation {
        Relocation::TargetDefault => inkwell::targets::RelocMode::Default,
    };
    let code_model = match code_model {
        CodeModelKind::TargetDefault => inkwell::targets::CodeModel::Default,
    };
    let triple = inkwell::targets::TargetTriple::create(triple);
    target.create_target_machine(&triple, cpu, features, level, relocation, code_model)
}

/// Calls `TargetMachine::get_target_data`. Nothing is claimed of the result.
#[verifier::external_body]
pub(crate) fn target_data(machine: &inkwell::targets::TargetMachine) -> (data:
    inkwell::targets::TargetData) {
    machine.get_target_data()
}

/// Calls `TargetData::get_data_layout`. Nothing is claimed of the result.
#[verifier::external_body]
pub(crate) fn data_layout(data: &inkwell::targets::TargetData) -> (layout:
    inkwell::data_layout::DataLayout) {
    data.get_data_layout()
}

/// Calls `DataLayout::as_str` and copies the text. Nothing is claimed of the
/// text.
#[verifier::external_body]
pub(crate) fn layout_text(layout: &inkwell::data_layout::DataLayout) -> (text: String) {
    layout.as_str().to_string_lossy().into_owned()
}

/// Calls `Module::set_data_layout` with `layout`.
#[verifier::external_body]
pub(crate) fn set_data_layout<'ctx>(
    module: &inkwell::module::Module<'ctx>,
    layout: &inkwell::data_layout::DataLayout,
) {
    module.set_data_layout(layout)
}

/// Calls `Module::set_triple` with `triple`.
#[verifier::external_body]
pub(crate) fn set_triple<'ctx>(module: &inkwell::module::Module<'ctx>, triple: &str) {
    module.set_triple(&inkwell::targets::TargetTriple::create(triple))
}

/// Calls `TargetMachine::write_to_memory_buffer` on the backend module of
/// `lowered`, for the file type that stands for `format`, and copies the
/// bytes. Nothing is claimed of the result: it is `None` where the backend
/// cannot emit the module.
///
/// The call makes the backend generate code, and the backend ends the
/// process where a function names a garbage collection strategy that it
/// does not find. Modules with a strategy that it is not known to take are
/// therefore left out.
#[verifier::external_body]
pub(crate) fn write_to_memory(
    machine: &inkwell::targets::TargetMachine,
    lowered: &Lowered,
    format: Format,
) -> (bytes: Option<Vec<u8>>)
    requires
        lowered.source@.names_fit(),
{
    let file_type = match format {
        Format::Assembly => inkwell::targets::FileType::Assembly,
        Format::Object => inkwell::targets::FileType::Object,
    };
    machine.write_to_memory_buffer(&lowered.module, file_type).ok().map(|b| b.as_slice().to_vec())
}

/// Calls `Module::create_jit_execution_engine` with the backend's
/// optimization level that stands for `level`. Nothing is claimed of the
/// result.
#[verifier::external_body]
pub(crate) fn create_jit<'ctx>(
    module: &inkwell::module::Module<'ctx>,
    level: Optimization,
) -> (engine: Option<inkwell::execution_engine::ExecutionEngine<'ctx>>) {
    let level = match level {
        Optimization::Off => inkwell::OptimizationLevel::None,
    };
    module.create_jit_execution_engine(level).ok()
}

/// Calls `ExecutionEngine::get_function_address` with `name` on the engine
/// of `compiled`. The call answers with an error where the address is 0, so
/// an address that is handed on is not 0.
///
/// The call makes the backend generate and link native code for the whole
/// module. The backend ends the process where that code needs a symbol that
/// it cannot find, and where a function names a garbage collection strategy
/// that it does not find. Modules that call a function without a body, or
/// that name a strategy which the backend is not known to take, are
/// therefore left out.
#[verifier::external_body]
pub(crate) fn function_address(compiled: &Compiled, name: &str) -> (address: Option<usize>)
    requires
        compiled.source@.self_contained(),
        compiled.source@.names_fit(),
    ensures
        address matches Some(a) ==> a != 0,
{
    compiled.engine.get_function_address(name).ok()
}

} // verus!
