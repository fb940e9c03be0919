//! The description of the processor that code is generated for.

use vstd::prelude::*;
use crate::backend;
use crate::types::{CodeModelKind, GatewayError, Optimization, Relocation};

verus! {

/// A target machine: the triple, the processor and its features, the data
/// layout, and the backend's handle for all of them. Code is generated
/// without optimization, with the default relocation mode and the default
/// code model.
#[derive(Debug)]
pub struct TargetDescriptor {
    pub triple: String,
    pub cpu: String,
    pub features: String,
    pub optimization: Optimization,
    pub relocation: Relocation,
    pub code_model: CodeModelKind,
    pub data_layout: String,
    pub handle: inkwell::targets::TargetMachine,
}

/// The view of a [`TargetDescriptor`]: what describes it, without the handle.
pub struct TargetView {
    pub triple: Seq<char>,
    pub cpu: Seq<char>,
    pub features: Seq<char>,
    pub optimization: Optimization,
    pub relocation: Relocation,
    pub code_model: CodeModelKind,
    pub data_layout: Seq<char>,
}

impl View for TargetDescriptor {
    type V = TargetView;

    open spec fn view(&self) -> TargetView {
        TargetView {
            triple: self.triple@,
            cpu: self.cpu@,
            features: self.features@,
            optimization: self.optimization,
            relocation: self.relocation,
            code_model: self.code_model,
            data_layout: self.data_layout@,
        }
    }
}

/// What the backend's answer to a request for a machine means: where it has
/// one, the description of that machine with what was asked for; where it
/// has none, the target is not supported.
pub fn describe_target(
    triple: String,
    cpu: &str,
    features: &str,
    optimization: Optimization,
    relocation: Relocation,
    code_model: CodeModelKind,
    machine: Option<inkwell::targets::TargetMachine>,
) -> (res: Result<TargetDescriptor, GatewayError>)
    ensures
        match res {
            Ok(target) => {
                &&& machine == Some(target.handle)
                &&& target@.triple == triple@
                &&& target@.cpu == cpu@
                &&& target@.features == features@
                &&& target@.optimization == optimization
                &&& target@.relocation == relocation
                &&& target@.code_model == code_model
            },
            Err(e) => machine is None && e == GatewayError::UnsupportedTarget,
        },
{
    match machine {
        None => Err(GatewayError::UnsupportedTarget),
        Some(handle) => {
            let data_layout = backend::layout_text(
                &backend::data_layout(&backend::target_data(&handle)),
            );
            Ok(
                TargetDescriptor {
                    triple,
                    cpu: cpu.to_owned(),
                    features: features.to_owned(),
                    optimization,
                    relocation,
                    code_model,
                    data_layout,
                    handle,
                },
            )
        },
    }
}

/// Resolves the machine that the process runs on: registers the x86 backend,
/// which is harmless to repeat, asks for the host's triple and for a machine
/// that serves it: a generic processor without extra features, code without
/// optimization, the default relocation mode and the default code model.
///
/// Fails if the backend has no target for the triple, or no machine for the
/// target.
pub fn resolve_host_target() -> (res: Result<TargetDescriptor, GatewayError>)
    ensures
        match res {
            Ok(target) => {
                &&& target@.cpu == "generic"@
                &&& target@.features == ""@
                &&& target@.optimization == Optimization::Off
                &&& target@.relocation == Relocation::TargetDefault
                &&& target@.code_model == CodeModelKind::TargetDefault
            },
            Err(e) => e == GatewayError::UnsupportedTarget,
        },
{
    backend::initialize_x86();
    let triple = backend::default_triple();
    let cpu = "generic";
    let features = "";
    let optimization = Optimization::Off;
    let relocation = Relocation::TargetDefault;
    let code_model = CodeModelKind::TargetDefault;
    let machine = match backend::target_from_triple(triple.as_str()) {
        None => None,
        Some(target) => backend::create_target_machine(
            &target,
            triple.as_str(),
            cpu,
            features,
            optimization,
            relocation,
            code_model,
        ),
    };
    describe_target(triple, cpu, features, optimization, relocation, code_model, machine)
}

} // verus!
