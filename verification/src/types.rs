//! Scalar types, handles and errors shared by the whole crate.

use vstd::prelude::*;

verus! {

/// The scalar types a value can have.
#[derive(Clone, Copy, Debug, PartialEq, Eq, Structural)]
pub enum Ty {
    /// A 32-bit unsigned integer.
    I32,
    /// The one-bit outcome of a comparison.
    Bool,
}

/// A function of a module, by its position in declaration order.
///
/// A handle exists as soon as the function is declared, so a body can call
/// functions that have no body yet, its own function among them.
#[derive(Clone, Copy, Debug, PartialEq, Eq, Structural)]
pub struct FunctionHandle {
    pub index: usize,
}

/// A basic block: the function that owns it and its position among that
/// function's blocks.
#[derive(Clone, Copy, Debug, PartialEq, Eq, Structural)]
pub struct BlockHandle {
    pub function: usize,
    pub index: usize,
}

/// Where a value comes from.
#[derive(Clone, Copy, Debug, PartialEq, Eq, Structural)]
pub enum Origin {
    /// A parameter of the function, by position.
    Param,
    /// The result of an instruction, by its position in the function's body.
    Inst,
}

/// A value: a parameter or the result of one instruction. It is written once,
/// when it is produced, and only read afterwards.
#[derive(Clone, Copy, Debug, PartialEq, Eq, Structural)]
pub struct Value {
    pub function: usize,
    pub origin: Origin,
    pub index: usize,
}

/// Why a construction step was refused. A refused step changes nothing.
#[derive(Clone, Copy, Debug, PartialEq, Eq, Structural)]
pub enum BuildError {
    /// The module already has a function of that name.
    DuplicateDefinition,
    /// The function already has a block with that label.
    DuplicateLabel,
    /// No function of that name, or behind that handle, is declared.
    UnresolvedCallee,
    /// The block handle names no block, or a block of another function than
    /// the one being built.
    InvalidBlock,
    /// The value handle names no value of the function being built.
    InvalidValue,
    /// No block has been chosen to receive instructions.
    NoInsertionPoint,
    /// The block at the insertion point already ends in a terminator.
    BlockAlreadyTerminated,
    /// An operand, an argument or a returned value has the wrong type.
    TypeMismatch,
    /// A call passes another number of arguments than the callee declares.
    ArityMismatch,
    /// The target of the module was set before.
    TargetAlreadySet,
    /// The name holds a NUL character, at which the backend would cut it.
    InvalidName,
    /// The backend is not known to take a garbage collection strategy of
    /// that name.
    UnknownStrategy,
    /// A block of a function with a body has no terminator.
    MissingTerminator { function: usize, block: usize },
    /// An instruction reads a value that is not computed on every path that
    /// leads to it.
    UseBeforeDefinition { function: usize, instruction: usize },
}

/// Why the backend could not serve a request.
#[derive(Clone, Copy, Debug, PartialEq, Eq, Structural)]
pub enum GatewayError {
    /// The host's target triple names no target that the backend supports.
    UnsupportedTarget,
    /// The backend could not lower the module.
    LoweringError,
    /// No function of that name can be resolved to native code.
    SymbolNotFound,
    /// The signature that the caller expects is not the declared one.
    SignatureMismatch,
}

/// How far the backend goes in improving the code that it generates. This
/// library asks for code as it stands.
#[derive(Clone, Copy, Debug, PartialEq, Eq, Structural)]
pub enum Optimization {
    /// No optimization.
    Off,
}

/// How generated code refers to addresses.
#[derive(Clone, Copy, Debug, PartialEq, Eq, Structural)]
pub enum Relocation {
    /// What the target does by default.
    TargetDefault,
}

/// How large generated code and its data may grow.
#[derive(Clone, Copy, Debug, PartialEq, Eq, Structural)]
pub enum CodeModelKind {
    /// What the target does by default.
    TargetDefault,
}

/// What the backend can emit for a module.
#[derive(Clone, Copy, Debug, PartialEq, Eq, Structural)]
pub enum Format {
    /// Assembly text for the target.
    Assembly,
    /// A relocatable object file.
    Object,
}

/// Tests whether two types are the same.
pub fn same_type(a: Ty, b: Ty) -> (same: bool)
    ensures
        same == (a == b),
{
    match (a, b) {
        (Ty::I32, Ty::I32) => true,
        (Ty::Bool, Ty::Bool) => true,
        _ => false,
    }
}

/// Tests whether two optional types are the same.
pub fn same_return_type(a: Option<Ty>, b: Option<Ty>) -> (same: bool)
    ensures
        same == (a == b),
{
    match (a, b) {
        (None, None) => true,
        (Some(x), Some(y)) => same_type(x, y),
        _ => false,
    }
}

} // verus!
