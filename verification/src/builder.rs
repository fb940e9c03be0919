//! The builder: a module under construction and the block that receives the
//! next instruction.
//!
//! Every step checks what it is given and either extends the module or
//! refuses and leaves everything as it was.

use vstd::prelude::*;
use crate::ir::{
    contains_nul, has_nul, is_known_strategy, lemma_accepts_stable, lemma_function_ok_stable,
    names_known_strategy, Block, BlockView, Function, FunctionView, Inst, InstView, IrModule,
    ModuleView, Node, NodeView,
};
use crate::target::{TargetDescriptor, TargetView};
use crate::types::{same_type, BlockHandle, BuildError, FunctionHandle, Origin, Ty, Value};

verus! {

/// A module under construction, with the insertion point: the block to which
/// instructions are appended.
///
/// What it holds is always well formed: see [`CodeGenView::wf`].
#[derive(Debug)]
pub struct CodeGen<'t> {
    module: IrModule<'t>,
    position: Option<BlockHandle>,
}

/// The view of a [`CodeGen`].
pub struct CodeGenView {
    pub module: ModuleView,
    pub position: Option<BlockHandle>,
}

impl<'t> View for CodeGen<'t> {
    type V = CodeGenView;

    closed spec fn view(&self) -> CodeGenView {
        CodeGenView { module: self.module@, position: self.position }
    }
}

impl CodeGenView {
    /// An empty module called `name`, with no insertion point.
    pub open spec fn fresh(name: Seq<char>) -> CodeGenView {
        CodeGenView {
            module: ModuleView { name, functions: Seq::empty(), target: None },
            position: None,
        }
    }

    /// The module is well formed and the insertion point, if there is one,
    /// is a block of the module.
    pub open spec fn wf(self) -> bool {
        &&& self.module.wf()
        &&& match self.position {
            Some(p) => self.has_block(p),
            None => true,
        }
    }

    /// Whether `h` names a declared function.
    pub open spec fn has_function(self, h: FunctionHandle) -> bool {
        h.index < self.module.functions.len()
    }

    /// The function that `h` names.
    pub open spec fn function(self, h: FunctionHandle) -> FunctionView {
        self.module.functions[h.index as int]
    }

    /// Whether `b` names a block of the module.
    pub open spec fn has_block(self, b: BlockHandle) -> bool {
        &&& b.function < self.module.functions.len()
        &&& b.index < self.module.functions[b.function as int].blocks.len()
    }

    /// The state after the machine that the module is meant for has been
    /// set.
    pub open spec fn with_target(self, machine: TargetView) -> CodeGenView {
        CodeGenView { module: ModuleView { target: Some(machine), ..self.module }, ..self }
    }

    /// Why a function called `name` cannot be declared, if so: the name
    /// holds a NUL character, or it is taken.
    pub open spec fn declare_error(self, name: Seq<char>) -> Option<BuildError> {
        if has_nul(name) {
            Some(BuildError::InvalidName)
        } else if self.module.declares(name) {
            Some(BuildError::DuplicateDefinition)
        } else {
            None
        }
    }

    /// The state after a function has been declared.
    pub open spec fn with_function(
        self,
        name: Seq<char>,
        params: Seq<Ty>,
        ret: Option<Ty>,
    ) -> CodeGenView {
        CodeGenView {
            module: ModuleView {
                functions: self.module.functions.push(
                    FunctionView {
                        name,
                        params,
                        ret,
                        gc: None,
                        blocks: Seq::empty(),
                        body: Seq::empty(),
                    },
                ),
                ..self.module
            },
            ..self
        }
    }

    /// The state after function `f` has been replaced by `fun`.
    pub open spec fn with_function_at(self, f: int, fun: FunctionView) -> CodeGenView {
        CodeGenView {
            module: ModuleView { functions: self.module.functions.update(f, fun), ..self.module },
            ..self
        }
    }

    /// The state after an empty block labelled `label` has been appended to
    /// function `f`.
    pub open spec fn with_block(self, f: int, label: Seq<char>) -> CodeGenView {
        let fun = self.module.functions[f];
        self.with_function_at(
            f,
            FunctionView { blocks: fun.blocks.push(BlockView { label, terminator: None }), ..fun },
        )
    }

    /// Whether function `f` has a block labelled `label`.
    pub open spec fn has_label(self, f: int, label: Seq<char>) -> bool {
        exists|b: int|
            0 <= b < self.module.functions[f].blocks.len() && self.module.functions[f].blocks[b].label
                == label
    }

    /// Why a block labelled `label` cannot be appended to function `f`, if
    /// so: the function is not declared, the label holds a NUL character, or
    /// the function has a block with that label.
    pub open spec fn append_error(self, f: FunctionHandle, label: Seq<char>) -> Option<
        BuildError,
    > {
        if !self.has_function(f) {
            Some(BuildError::UnresolvedCallee)
        } else if has_nul(label) {
            Some(BuildError::InvalidName)
        } else if self.has_label(f.index as int, label) {
            Some(BuildError::DuplicateLabel)
        } else {
            None
        }
    }

    /// Why function `f` cannot be given the garbage collection strategy
    /// called `strategy`, if so: the function is not declared, or the
    /// backend is not known to take a strategy of that name.
    pub open spec fn gc_error(self, f: FunctionHandle, strategy: Seq<char>) -> Option<BuildError> {
        if !self.has_function(f) {
            Some(BuildError::UnresolvedCallee)
        } else if !is_known_strategy(strategy) {
            Some(BuildError::UnknownStrategy)
        } else {
            None
        }
    }

    /// The state after `inst` has been appended at the insertion point, its
    /// value called `name`. A terminator closes the block.
    pub open spec fn with_named(self, name: Seq<char>, inst: InstView) -> CodeGenView {
        let p = self.position->0;
        let fun = self.module.functions[p.function as int];
        let at = fun.body.len() as usize;
        let blocks = if inst.is_terminator() {
            fun.blocks.update(
                p.index as int,
                BlockView { terminator: Some(at), ..fun.blocks[p.index as int] },
            )
        } else {
            fun.blocks
        };
        self.with_function_at(
            p.function as int,
            FunctionView {
                blocks,
                body: fun.body.push(NodeView { block: p.index, name, inst }),
                ..fun
            },
        )
    }

    /// The state after `inst` has been appended at the insertion point,
    /// without a name.
    pub open spec fn with_inst(self, inst: InstView) -> CodeGenView {
        self.with_named(Seq::empty(), inst)
    }

    /// The state after the insertion point has moved to `b` and `nodes`, the
    /// last of them a terminator, have been emitted there.
    pub open spec fn with_filled_block(self, b: BlockHandle, nodes: Seq<NodeView>) -> CodeGenView {
        let fun = self.module.functions[b.function as int];
        let filled = FunctionView {
            blocks: fun.blocks.update(
                b.index as int,
                BlockView {
                    terminator: Some((fun.body.len() + nodes.len() - 1) as usize),
                    ..fun.blocks[b.index as int]
                },
            ),
            body: fun.body + nodes,
            ..fun
        };
        CodeGenView { position: Some(b), ..self.with_function_at(b.function as int, filled) }
    }

    /// The position that the next instruction of the function of `b` gets.
    pub open spec fn next_index(self, b: BlockHandle) -> usize {
        self.module.functions[b.function as int].body.len() as usize
    }

    /// Whether `b` is a block of the module that is still open.
    pub open spec fn has_open_block(self, b: BlockHandle) -> bool {
        self.has_block(b) && !self.module.functions[b.function as int].is_closed(b.index as int)
    }

    /// The value that the next instruction at the insertion point produces.
    pub open spec fn next_value(self) -> Value {
        let p = self.position->0;
        Value {
            function: p.function,
            origin: Origin::Inst,
            index: self.module.functions[p.function as int].body.len() as usize,
        }
    }

    /// Why nothing can be emitted, if so: there is no insertion point, or
    /// its block is closed.
    pub open spec fn insertion_error(self) -> Option<BuildError> {
        match self.position {
            None => Some(BuildError::NoInsertionPoint),
            Some(p) => if self.module.functions[p.function as int].is_closed(p.index as int) {
                Some(BuildError::BlockAlreadyTerminated)
            } else {
                None
            },
        }
    }

    /// Why `v` cannot be read as a value of type `ty` at the insertion
    /// point, if so: it is no value of the function being built, or it has
    /// another type.
    pub open spec fn operand_error(self, v: Value, ty: Ty) -> Option<BuildError> {
        let p = self.position->0;
        if v.function != p.function || self.module.value_type(v) is None {
            Some(BuildError::InvalidValue)
        } else if self.module.value_type(v) != Some(ty) {
            Some(BuildError::TypeMismatch)
        } else {
            None
        }
    }

    /// Why an instruction over two integers whose value is called `name`
    /// cannot be emitted, if so: nothing can be emitted, an operand cannot
    /// be read as an integer, or the name holds a NUL character.
    pub open spec fn binary_error(self, lhs: Value, rhs: Value, name: Seq<char>) -> Option<
        BuildError,
    > {
        if self.insertion_error() is Some {
            self.insertion_error()
        } else if self.operand_error(lhs, Ty::I32) is Some {
            self.operand_error(lhs, Ty::I32)
        } else if self.operand_error(rhs, Ty::I32) is Some {
            self.operand_error(rhs, Ty::I32)
        } else if has_nul(name) {
            Some(BuildError::InvalidName)
        } else {
            None
        }
    }

    /// Why control cannot be sent to `b` from the insertion point, if so:
    /// `b` is no block of the function being built.
    pub open spec fn target_error(self, b: BlockHandle) -> Option<BuildError> {
        if b.function != self.position->0.function || !self.has_block(b) {
            Some(BuildError::InvalidBlock)
        } else {
            None
        }
    }

    /// Why a conditional branch cannot be emitted, if so.
    pub open spec fn cond_branch_error(
        self,
        cond: Value,
        if_true: BlockHandle,
        if_false: BlockHandle,
    ) -> Option<BuildError> {
        if self.insertion_error() is Some {
            self.insertion_error()
        } else if self.operand_error(cond, Ty::Bool) is Some {
            self.operand_error(cond, Ty::Bool)
        } else if self.target_error(if_true) is Some {
            self.target_error(if_true)
        } else {
            self.target_error(if_false)
        }
    }

    /// Why a branch cannot be emitted, if so.
    pub open spec fn branch_error(self, target: BlockHandle) -> Option<BuildError> {
        if self.insertion_error() is Some {
            self.insertion_error()
        } else {
            self.target_error(target)
        }
    }

    /// What is wrong with the first of the arguments from position `from` on
    /// that cannot be passed for its parameter, if there is one.
    pub open spec fn args_error(self, args: Seq<Value>, params: Seq<Ty>, from: int) -> Option<
        BuildError,
    >
        decreases args.len() - from,
    {
        if from < 0 || from >= args.len() {
            None
        } else if self.operand_error(args[from], params[from]) is Some {
            self.operand_error(args[from], params[from])
        } else {
            self.args_error(args, params, from + 1)
        }
    }

    /// Why a call whose value is called `name` cannot be emitted, if so:
    /// nothing can be emitted, the callee is not declared, the number of
    /// arguments is not the number of its parameters, an argument cannot be
    /// passed for its parameter, or the name holds a NUL character. Whether
    /// the callee has a body plays no part.
    pub open spec fn call_error(
        self,
        callee: FunctionHandle,
        args: Seq<Value>,
        name: Seq<char>,
    ) -> Option<BuildError> {
        let params = self.module.functions[callee.index as int].params;
        if self.insertion_error() is Some {
            self.insertion_error()
        } else if !self.has_function(callee) {
            Some(BuildError::UnresolvedCallee)
        } else if args.len() != params.len() {
            Some(BuildError::ArityMismatch)
        } else if self.args_error(args, params, 0) is Some {
            self.args_error(args, params, 0)
        } else if has_nul(name) {
            Some(BuildError::InvalidName)
        } else {
            None
        }
    }

    /// Why a return cannot be emitted, if so: nothing can be emitted, or
    /// what is returned is not what the function declares.
    pub open spec fn return_error(self, value: Option<Value>) -> Option<BuildError> {
        if self.insertion_error() is Some {
            self.insertion_error()
        } else {
            match (value, self.module.functions[self.position->0.function as int].ret) {
                (None, None) => None,
                (Some(v), Some(ty)) => self.operand_error(v, ty),
                _ => Some(BuildError::TypeMismatch),
            }
        }
    }
}

impl CodeGenView {
    /// Where no argument is refused, each can be passed for its parameter.
    pub proof fn lemma_args_error(self, args: Seq<Value>, params: Seq<Ty>, from: int, j: int)
        requires
            0 <= from <= j < args.len(),
            self.args_error(args, params, from) is None,
        ensures
            self.operand_error(args[j], params[j]) is None,
        decreases j - from,
    {
        if from < j {
            self.lemma_args_error(args, params, from + 1, j);
        }
    }
}

impl<'t> CodeGen<'t> {
    /// What a builder holds is well formed at all times.
    #[verifier::type_invariant]
    spec fn inv(self) -> bool {
        self@.wf()
    }

    /// An empty module called `name`.
    pub fn new(name: &str) -> (cg: Self)
        ensures
            cg@ == CodeGenView::fresh(name@),
    {
        let module = IrModule { name: name.to_owned(), functions: Vec::new(), target: None };
        proof {
            reveal(ModuleView::wf);
            assert(module@.functions =~= Seq::empty());
        }
        CodeGen { module, position: None }
    }

    /// The module as it stands.
    pub fn module(&self) -> (module: &IrModule<'t>)
        ensures
            module@ == self@.module,
            self@.wf(),
    {
        proof {
            use_type_invariant(self);
        }
        &self.module
    }

    /// The insertion point.
    pub fn position(&self) -> (position: Option<BlockHandle>)
        ensures
            position == self@.position,
    {
        self.position
    }

    /// Gives the module up, as it stands.
    pub fn into_module(self) -> (module: IrModule<'t>)
        ensures
            module@ == self@.module,
            module@.wf(),
    {
        proof {
            use_type_invariant(&self);
        }
        self.module
    }

    /// Takes everything out of the builder, to be changed and put back, and
    /// leaves an empty module behind.
    fn take(&mut self) -> (parts: (IrModule<'t>, Option<BlockHandle>))
        ensures
            parts.0@ == old(self)@.module,
            parts.1 == old(self)@.position,
            old(self)@.wf(),
    {
        proof {
            use_type_invariant(&*self);
        }
        let mut taken = CodeGen::new("");
        std::mem::swap(self, &mut taken);
        let CodeGen { module, position } = taken;
        (module, position)
    }

    /// Puts a module and an insertion point into the builder.
    fn put(&mut self, module: IrModule<'t>, position: Option<BlockHandle>)
        requires
            (CodeGenView { module: module@, position }).wf(),
        ensures
            final(self)@ == (CodeGenView { module: module@, position }),
    {
        *self = CodeGen { module, position };
    }

    /// Sets the machine that the module is meant for. This can be done once.
    pub fn set_target(&mut self, machine: &'t TargetDescriptor) -> (res: Result<(), BuildError>)
        ensures
            match res {
                Ok(()) => old(self)@.module.target is None && final(self)@ == old(
                    self,
                )@.with_target(machine@),
                Err(e) => e == BuildError::TargetAlreadySet && old(self)@.module.target is Some
                    && final(self)@ == old(self)@,
            },
    {
        if self.module.target.is_some() {
            return Err(BuildError::TargetAlreadySet);
        }
        let (mut module, position) = self.take();
        module.target = Some(machine);
        proof {
            reveal(ModuleView::wf);
            let before = old(self)@.module;
            let after = module@;
            assert(after.functions =~= before.functions);
            assert forall|f: int| 0 <= f < after.functions.len() implies #[trigger] after.function_ok(
                f,
            ) by {
                lemma_function_ok_stable(before, after, f);
            }
        }
        self.put(module, position);
        Ok(())
    }

    /// Declares a function: a name and a signature, without a body. The
    /// handle can be called from any body, that of the function itself
    /// included, and is what a body is built for.
    ///
    /// Two functions of one module cannot share a name, and a name cannot
    /// hold a NUL character.
    pub fn declare_function(
        &mut self,
        name: &str,
        param_types: Vec<Ty>,
        return_type: Option<Ty>,
    ) -> (res: Result<FunctionHandle, BuildError>)
        ensures
            match res {
                Ok(h) => {
                    &&& old(self)@.declare_error(name@) is None
                    &&& h.index == old(self)@.module.functions.len()
                    &&& final(self)@ == old(self)@.with_function(name@, param_types@, return_type)
                },
                Err(e) => old(self)@.declare_error(name@) == Some(e) && final(self)@ == old(self)@,
            },
    {
        if contains_nul(name) {
            return Err(BuildError::InvalidName);
        }
        if self.module.find_function(name).is_some() {
            return Err(BuildError::DuplicateDefinition);
        }
        let (mut module, position) = self.take();
        let index = module.functions.len();
        let ghost params = param_types@;
        module.functions.push(
            Function {
                name: name.to_owned(),
                params: param_types,
                ret: return_type,
                gc: None,
                blocks: Vec::new(),
                body: Vec::new(),
            },
        );
        proof {
            reveal(ModuleView::wf);
            let before = old(self)@.module;
            let after = module@;
            let expected = old(self)@.with_function(name@, params, return_type);
            assert(after.functions[index as int].blocks =~= Seq::empty());
            assert(after.functions[index as int].body =~= Seq::empty());
            assert(after.functions =~= expected.module.functions);
            assert(before.grows_to(after));
            assert forall|f: int| 0 <= f < after.functions.len() implies #[trigger] after.function_ok(
                f,
            ) by {
                if f < index {
                    lemma_function_ok_stable(before, after, f);
                }
            }
        }
        self.put(module, position);
        Ok(FunctionHandle { index })
    }

    /// The handle of the function called `name`.
    pub fn get_function(&self, name: &str) -> (res: Result<FunctionHandle, BuildError>)
        ensures
            match res {
                Ok(h) => self@.has_function(h) && self@.module.functions[h.index as int].name
                    == name@,
                Err(e) => e == BuildError::UnresolvedCallee && !self@.module.declares(name@),
            },
    {
        match self.module.find_function(name) {
            Some(index) => Ok(FunctionHandle { index }),
            None => Err(BuildError::UnresolvedCallee),
        }
    }

    /// Names the garbage collection strategy of function `f`. Only a
    /// strategy that the backend is known to take is accepted:
    /// `"shadow-stack"`.
    pub fn set_gc(&mut self, f: FunctionHandle, strategy: &str) -> (res: Result<(), BuildError>)
        ensures
            match res {
                Ok(()) => old(self)@.gc_error(f, strategy@) is None && final(self)@ == old(
                    self,
                )@.with_function_at(
                    f.index as int,
                    FunctionView {
                        gc: Some(strategy@),
                        ..old(self)@.module.functions[f.index as int]
                    },
                ),
                Err(e) => old(self)@.gc_error(f, strategy@) == Some(e) && final(self)@ == old(
                    self,
                )@,
            },
    {
        if f.index >= self.module.functions.len() {
            return Err(BuildError::UnresolvedCallee);
        }
        if !names_known_strategy(strategy) {
            return Err(BuildError::UnknownStrategy);
        }
        let (mut module, position) = self.take();
        assert(module.functions@.len() == module@.functions.len());
        module.functions[f.index].gc = Some(strategy.to_owned());
        proof {
            reveal(ModuleView::wf);
            let before = old(self)@.module;
            let after = module@;
            let fun = before.functions[f.index as int];
            let changed = after.functions[f.index as int];
            assert(changed.blocks =~= fun.blocks);
            assert(changed.body =~= fun.body);
            assert(after.functions =~= before.functions.update(
                f.index as int,
                FunctionView { gc: Some(strategy@), ..fun },
            ));
            assert forall|g: int| 0 <= g < after.functions.len() implies #[trigger] after.function_ok(
                g,
            ) by {
                assert(before.function_ok(g));
                if g == f.index {
                    assert forall|k: int| 0 <= k < changed.body.len() implies #[trigger] after.node_ok(
                        g,
                        k,
                    ) by {
                        assert(before.node_ok(g, k));
                        lemma_accepts_stable(before, after, g, k, fun.body[k]);
                    }
                } else {
                    lemma_function_ok_stable(before, after, g);
                }
            }
        }
        self.put(module, position);
        Ok(())
    }

    /// The parameter of function `f` at position `index`, as a value.
    pub fn param(&self, f: FunctionHandle, index: usize) -> (res: Result<Value, BuildError>)
        ensures
            match res {
                Ok(v) => {
                    &&& self@.has_function(f)
                    &&& index < self@.module.functions[f.index as int].params.len()
                    &&& v == Value { function: f.index, origin: Origin::Param, index }
                },
                Err(e) => if self@.has_function(f) {
                    e == BuildError::InvalidValue && index
                        >= self@.module.functions[f.index as int].params.len()
                } else {
                    e == BuildError::UnresolvedCallee
                },
            },
    {
        if f.index >= self.module.functions.len() {
            return Err(BuildError::UnresolvedCallee);
        }
        if index >= self.module.functions[f.index].params.len() {
            return Err(BuildError::InvalidValue);
        }
        Ok(Value { function: f.index, origin: Origin::Param, index })
    }

    /// The position of the block of function `f` labelled `label`, if there
    /// is one.
    fn find_block(&self, f: usize, label: &str) -> (found: Option<usize>)
        requires
            f < self@.module.functions.len(),
        ensures
            match found {
                Some(b) => b < self@.module.functions[f as int].blocks.len()
                    && self@.module.functions[f as int].blocks[b as int].label == label@,
                None => !self@.has_label(f as int, label@),
            },
    {
        let wanted = label.to_owned();
        let mut b: usize = 0;
        while b < self.module.functions[f].blocks.len()
            invariant
                f < self.module.functions@.len(),
                b <= self.module.functions@[f as int].blocks@.len(),
                wanted@ == label@,
                forall|j: int| 0 <= j < b ==> self@.module.functions[f as int].blocks[j].label != label@,
            decreases self.module.functions@[f as int].blocks@.len() - b,
        {
            if self.module.functions[f].blocks[b].label == wanted {
                return Some(b);
            }
            b += 1;
        }
        None
    }

    /// Appends an empty block labelled `label` to function `f`. The first
    /// block of a function is its entry block. The insertion point stays
    /// where it is.
    pub fn append_block(&mut self, f: FunctionHandle, label: &str) -> (res: Result<
        BlockHandle,
        BuildError,
    >)
        ensures
            match res {
                Ok(b) => {
                    &&& old(self)@.append_error(f, label@) is None
                    &&& b == BlockHandle {
                        function: f.index,
                        index: old(self)@.module.functions[f.index as int].blocks.len() as usize,
                    }
                    &&& final(self)@ == old(self)@.with_block(f.index as int, label@)
                },
                Err(e) => old(self)@.append_error(f, label@) == Some(e) && final(self)@ == old(
                    self,
                )@,
            },
    {
        if f.index >= self.module.functions.len() {
            return Err(BuildError::UnresolvedCallee);
        }
        if contains_nul(label) {
            return Err(BuildError::InvalidName);
        }
        if self.find_block(f.index, label).is_some() {
            return Err(BuildError::DuplicateLabel);
        }
        let (mut module, position) = self.take();
        let index = module.functions[f.index].blocks.len();
        module.functions[f.index].blocks.push(Block { label: label.to_owned(), terminator: None });
        proof {
            reveal(ModuleView::wf);
            let before = old(self)@.module;
            let after = module@;
            let fun = before.functions[f.index as int];
            let grown = after.functions[f.index as int];
            assert(grown.body =~= fun.body);
            assert(grown.blocks =~= fun.blocks.push(BlockView { label: label@, terminator: None }));
            assert(after.functions =~= old(self)@.with_block(
                f.index as int,
                label@,
            ).module.functions);
            assert(before.grows_to(after));
            assert forall|g: int| 0 <= g < after.functions.len() implies #[trigger] after.function_ok(
                g,
            ) by {
                assert(before.function_ok(g));
                if g == f.index {
                    assert forall|k: int| 0 <= k < grown.body.len() implies #[trigger] after.node_ok(
                        g,
                        k,
                    ) by {
                        assert(before.node_ok(g, k));
                        lemma_accepts_stable(before, after, g, k, fun.body[k]);
                    }
                    assert(grown.terminators_recorded()) by {
                        assert forall|k: int|
                            0 <= k < grown.body.len() && (#[trigger] grown.body[k]).block
                                == index implies !grown.body[k].inst.is_terminator() by {
                            assert(before.node_ok(g, k));
                        }
                        assert forall|b: int| 0 <= b < index implies #[trigger] grown.blocks[b]
                            == fun.blocks[b] by {}
                    }
                    assert(grown.labels_distinct()) by {
                        assert forall|i: int, j: int| 0 <= i < j < grown.blocks.len() implies grown.blocks[i].label
                            != grown.blocks[j].label by {
                            if j < index {
                                assert(fun.blocks[i].label != fun.blocks[j].label);
                            }
                        }
                    }
                } else {
                    lemma_function_ok_stable(before, after, g);
                }
            }
        }
        self.put(module, position);
        Ok(BlockHandle { function: f.index, index })
    }

    /// Moves the insertion point to the end of `block`: what is emitted next
    /// is appended there.
    pub fn position_at(&mut self, block: BlockHandle) -> (res: Result<(), BuildError>)
        ensures
            match res {
                Ok(()) => old(self)@.has_block(block) && final(self)@ == (CodeGenView {
                    position: Some(block),
                    ..old(self)@
                }),
                Err(e) => e == BuildError::InvalidBlock && !old(self)@.has_block(block)
                    && final(self)@ == old(self)@,
            },
    {
        proof {
            use_type_invariant(&*self);
        }
        if block.function >= self.module.functions.len() {
            return Err(BuildError::InvalidBlock);
        }
        if block.index >= self.module.functions[block.function].blocks.len() {
            return Err(BuildError::InvalidBlock);
        }
        self.position = Some(block);
        Ok(())
    }
    /// The type of `v`, if `v` names a value of the module.
    pub fn value_type(&self, v: Value) -> (ty: Option<Ty>)
        ensures
            ty == self@.module.value_type(v),
    {
        if v.function >= self.module.functions.len() {
            return None;
        }
        let fun = &self.module.functions[v.function];
        match v.origin {
            Origin::Param => if v.index < fun.params.len() {
                Some(fun.params[v.index])
            } else {
                None
            },
            Origin::Inst => if v.index < fun.body.len() {
                match &fun.body[v.index].inst {
                    Inst::Const { .. } => Some(Ty::I32),
                    Inst::Add { .. } => Some(Ty::I32),
                    Inst::Sub { .. } => Some(Ty::I32),
                    Inst::Equal { .. } => Some(Ty::Bool),
                    Inst::Call { callee, .. } => if *callee < self.module.functions.len() {
                        self.module.functions[*callee].ret
                    } else {
                        None
                    },
                    _ => None,
                }
            } else {
                None
            },
        }
    }

    /// The insertion point, where something can be emitted there.
    fn check_insertion(&self) -> (res: Result<BlockHandle, BuildError>)
        ensures
            match res {
                Ok(p) => self@.insertion_error() is None && self@.position == Some(p),
                Err(e) => self@.insertion_error() == Some(e),
            },
    {
        proof {
            use_type_invariant(&*self);
        }
        match self.position {
            None => Err(BuildError::NoInsertionPoint),
            Some(p) => if self.module.functions[p.function].blocks[p.index].terminator.is_some() {
                Err(BuildError::BlockAlreadyTerminated)
            } else {
                Ok(p)
            },
        }
    }

    /// Checks that `v` can be read as a value of type `ty` at the insertion
    /// point.
    fn check_operand(&self, v: Value, ty: Ty) -> (res: Result<(), BuildError>)
        requires
            self@.position is Some,
        ensures
            match res {
                Ok(()) => self@.operand_error(v, ty) is None,
                Err(e) => self@.operand_error(v, ty) == Some(e),
            },
    {
        proof {
            use_type_invariant(&*self);
        }
        let p = self.position.unwrap();
        if v.function != p.function {
            return Err(BuildError::InvalidValue);
        }
        match self.value_type(v) {
            None => Err(BuildError::InvalidValue),
            Some(found) => if same_type(found, ty) {
                Ok(())
            } else {
                Err(BuildError::TypeMismatch)
            },
        }
    }

    /// Appends `inst` at the insertion point, its value called `name`, and
    /// closes the block if `inst` is a terminator. Returns the value that
    /// `inst` produces, if any.
    fn push_inst(&mut self, name: String, inst: Inst) -> (v: Value)
        requires
            old(self)@.insertion_error() is None,
            old(self)@.module.accepts(
                old(self)@.position->0.function as int,
                old(self)@.module.functions[old(self)@.position->0.function as int].body.len() as int,
                NodeView { block: old(self)@.position->0.index, name: name@, inst: inst@ },
            ),
        ensures
            final(self)@ == old(self)@.with_named(name@, inst@),
            v == old(self)@.next_value(),
    {
        let (mut module, position) = self.take();
        let p = position.unwrap();
        let at = module.functions[p.function].body.len();
        let closes = inst.is_terminator();
        let ghost shown = inst@;
        let ghost called = name@;
        module.functions[p.function].body.push(Node { block: p.index, name, inst });
        if closes {
            module.functions[p.function].blocks[p.index].terminator = Some(at);
        }
        proof {
            reveal(ModuleView::wf);
            let before = old(self)@.module;
            let after = module@;
            let f = p.function as int;
            let fun = before.functions[f];
            let grown = after.functions[f];
            let expected = old(self)@.with_named(called, shown);
            assert(grown.body =~= fun.body.push(
                NodeView { block: p.index, name: called, inst: shown },
            ));
            assert(grown.blocks =~= expected.module.functions[f].blocks);
            assert(after.functions =~= expected.module.functions);
            assert(before.grows_to(after));
            assert forall|g: int| 0 <= g < after.functions.len() implies #[trigger] after.function_ok(
                g,
            ) by {
                assert(before.function_ok(g));
                if g == f {
                    assert forall|k: int| 0 <= k < grown.body.len() implies #[trigger] after.node_ok(
                        g,
                        k,
                    ) by {
                        if k < at {
                            assert(before.node_ok(g, k));
                            lemma_accepts_stable(before, after, g, k, fun.body[k]);
                        } else {
                            lemma_accepts_stable(before, after, g, k, grown.body[k]);
                        }
                    }
                    assert(grown.terminators_recorded()) by {
                        assert forall|k: int| 0 <= k < at implies grown.body[k]
                            == #[trigger] fun.body[k] by {}
                        assert forall|b: int|
                            0 <= b < fun.blocks.len() && b != p.index implies #[trigger] grown.blocks[b]
                            == fun.blocks[b] by {}
                    }
                    assert(grown.labels_distinct()) by {
                        assert forall|i: int, j: int| 0 <= i < j < grown.blocks.len() implies grown.blocks[i].label
                            != grown.blocks[j].label by {
                            assert(fun.blocks[i].label != fun.blocks[j].label);
                        }
                    }
                } else {
                    lemma_function_ok_stable(before, after, g);
                }
            }
        }
        self.put(module, position);
        Value { function: p.function, origin: Origin::Inst, index: at }
    }

    /// Emits the constant `value`.
    pub fn emit_const(&mut self, value: u32) -> (res: Result<Value, BuildError>)
        ensures
            match res {
                Ok(v) => {
                    &&& old(self)@.insertion_error() is None
                    &&& final(self)@ == old(self)@.with_inst(InstView::Const { number: value })
                    &&& v == old(self)@.next_value()
                },
                Err(e) => old(self)@.insertion_error() == Some(e) && final(self)@ == old(self)@,
            },
    {
        proof {
            use_type_invariant(&*self);
        }
        match self.check_insertion() {
            Err(e) => Err(e),
            Ok(_) => Ok(self.push_inst(String::new(), Inst::Const { number: value })),
        }
    }

    /// Checks that an instruction over the integers `lhs` and `rhs` whose
    /// value is called `name` can be emitted.
    fn check_binary(&self, lhs: Value, rhs: Value, name: &str) -> (res: Result<(), BuildError>)
        ensures
            match res {
                Ok(()) => self@.binary_error(lhs, rhs, name@) is None,
                Err(e) => self@.binary_error(lhs, rhs, name@) == Some(e),
            },
    {
        if let Err(e) = self.check_insertion() {
            return Err(e);
        }
        if let Err(e) = self.check_operand(lhs, Ty::I32) {
            return Err(e);
        }
        if let Err(e) = self.check_operand(rhs, Ty::I32) {
            return Err(e);
        }
        if contains_nul(name) {
            Err(BuildError::InvalidName)
        } else {
            Ok(())
        }
    }

    /// Emits `lhs + rhs` and calls the sum `name`. Both operands are integers
    /// of the function being built, and `name` holds no NUL character.
    pub fn emit_add(&mut self, lhs: Value, rhs: Value, name: &str) -> (res: Result<
        Value,
        BuildError,
    >)
        ensures
            match res {
                Ok(v) => {
                    &&& old(self)@.binary_error(lhs, rhs, name@) is None
                    &&& final(self)@ == old(self)@.with_named(name@, InstView::Add { lhs, rhs })
                    &&& v == old(self)@.next_value()
                },
                Err(e) => old(self)@.binary_error(lhs, rhs, name@) == Some(e) && final(self)@ == old(
                    self,
                )@,
            },
    {
        proof {
            use_type_invariant(&*self);
        }
        match self.check_binary(lhs, rhs, name) {
            Err(e) => Err(e),
            Ok(()) => Ok(self.push_inst(name.to_owned(), Inst::Add { lhs, rhs })),
        }
    }

    /// Emits `lhs - rhs` and calls the difference `name`. Both operands are
    /// integers of the function being built, and `name` holds no NUL
    /// character.
    pub fn emit_sub(&mut self, lhs: Value, rhs: Value, name: &str) -> (res: Result<
        Value,
        BuildError,
    >)
        ensures
            match res {
                Ok(v) => {
                    &&& old(self)@.binary_error(lhs, rhs, name@) is None
                    &&& final(self)@ == old(self)@.with_named(name@, InstView::Sub { lhs, rhs })
                    &&& v == old(self)@.next_value()
                },
                Err(e) => old(self)@.binary_error(lhs, rhs, name@) == Some(e) && final(self)@ == old(
                    self,
                )@,
            },
    {
        proof {
            use_type_invariant(&*self);
        }
        match self.check_binary(lhs, rhs, name) {
            Err(e) => Err(e),
            Ok(()) => Ok(self.push_inst(name.to_owned(), Inst::Sub { lhs, rhs })),
        }
    }

    /// Emits the test whether `lhs` equals `rhs` and calls its result, a
    /// boolean, `name`. Both operands are integers of the function being
    /// built, and `name` holds no NUL character.
    pub fn emit_icmp_eq(&mut self, lhs: Value, rhs: Value, name: &str) -> (res: Result<
        Value,
        BuildError,
    >)
        ensures
            match res {
                Ok(v) => {
                    &&& old(self)@.binary_error(lhs, rhs, name@) is None
                    &&& final(self)@ == old(self)@.with_named(name@, InstView::Equal { lhs, rhs })
                    &&& v == old(self)@.next_value()
                },
                Err(e) => old(self)@.binary_error(lhs, rhs, name@) == Some(e) && final(self)@ == old(
                    self,
                )@,
            },
    {
        proof {
            use_type_invariant(&*self);
        }
        match self.check_binary(lhs, rhs, name) {
            Err(e) => Err(e),
            Ok(()) => Ok(self.push_inst(name.to_owned(), Inst::Equal { lhs, rhs })),
        }
    }
    /// Checks that control can be sent to `b` from the insertion point.
    fn check_target(&self, b: BlockHandle) -> (res: Result<(), BuildError>)
        requires
            self@.position is Some,
        ensures
            match res {
                Ok(()) => self@.target_error(b) is None,
                Err(e) => self@.target_error(b) == Some(e),
            },
    {
        proof {
            use_type_invariant(&*self);
        }
        let p = self.position.unwrap();
        if b.function != p.function || b.index >= self.module.functions[p.function].blocks.len() {
            Err(BuildError::InvalidBlock)
        } else {
            Ok(())
        }
    }

    /// Emits a conditional branch: control continues in `if_true` when the
    /// boolean `cond` holds, else in `if_false`. This closes the block at the
    /// insertion point: nothing more can be emitted into it.
    pub fn emit_cond_branch(
        &mut self,
        cond: Value,
        if_true: BlockHandle,
        if_false: BlockHandle,
    ) -> (res: Result<(), BuildError>)
        ensures
            match res {
                Ok(()) => {
                    &&& old(self)@.cond_branch_error(cond, if_true, if_false) is None
                    &&& final(self)@ == old(self)@.with_inst(
                        InstView::CondBr {
                            cond,
                            if_true: if_true.index,
                            if_false: if_false.index,
                        },
                    )
                },
                Err(e) => old(self)@.cond_branch_error(cond, if_true, if_false) == Some(e)
                    && final(self)@ == old(self)@,
            },
    {
        proof {
            use_type_invariant(&*self);
        }
        if let Err(e) = self.check_insertion() {
            return Err(e);
        }
        if let Err(e) = self.check_operand(cond, Ty::Bool) {
            return Err(e);
        }
        if let Err(e) = self.check_target(if_true) {
            return Err(e);
        }
        if let Err(e) = self.check_target(if_false) {
            return Err(e);
        }
        self.push_inst(
            String::new(),
            Inst::CondBr { cond, if_true: if_true.index, if_false: if_false.index },
        );
        Ok(())
    }

    /// Emits a branch: control continues in `target`. This closes the block
    /// at the insertion point.
    pub fn emit_branch(&mut self, target: BlockHandle) -> (res: Result<(), BuildError>)
        ensures
            match res {
                Ok(()) => {
                    &&& old(self)@.branch_error(target) is None
                    &&& final(self)@ == old(self)@.with_inst(InstView::Br { target: target.index })
                },
                Err(e) => old(self)@.branch_error(target) == Some(e) && final(self)@ == old(
                    self,
                )@,
            },
    {
        proof {
            use_type_invariant(&*self);
        }
        if let Err(e) = self.check_insertion() {
            return Err(e);
        }
        if let Err(e) = self.check_target(target) {
            return Err(e);
        }
        self.push_inst(String::new(), Inst::Br { target: target.index });
        Ok(())
    }

    /// Checks that `args` can be passed to `callee` at the insertion point
    /// and that the value of the call can be called `name`.
    fn check_call(&self, callee: FunctionHandle, args: &Vec<Value>, name: &str) -> (res: Result<
        (),
        BuildError,
    >)
        ensures
            match res {
                Ok(()) => self@.call_error(callee, args@, name@) is None,
                Err(e) => self@.call_error(callee, args@, name@) == Some(e),
            },
    {
        proof {
            use_type_invariant(&*self);
        }
        if let Err(e) = self.check_insertion() {
            return Err(e);
        }
        if callee.index >= self.module.functions.len() {
            return Err(BuildError::UnresolvedCallee);
        }
        if args.len() != self.module.functions[callee.index].params.len() {
            return Err(BuildError::ArityMismatch);
        }
        let ghost params = self@.module.functions[callee.index as int].params;
        let mut j: usize = 0;
        while j < args.len()
            invariant
                self@.wf(),
                self@.insertion_error() is None,
                callee.index < self.module.functions@.len(),
                params == self@.module.functions[callee.index as int].params,
                args@.len() == params.len(),
                j <= args@.len(),
                self@.args_error(args@, params, 0) == self@.args_error(args@, params, j as int),
            decreases args@.len() - j,
        {
            let checked = self.check_operand(args[j], self.module.functions[callee.index].params[j]);
            assert(self@.args_error(args@, params, j as int) == if self@.operand_error(
                args@[j as int],
                params[j as int],
            ) is Some {
                self@.operand_error(args@[j as int], params[j as int])
            } else {
                self@.args_error(args@, params, j + 1)
            });
            if let Err(e) = checked {
                return Err(e);
            }
            j += 1;
        }
        if contains_nul(name) {
            Err(BuildError::InvalidName)
        } else {
            Ok(())
        }
    }

    /// Emits a direct call of `callee` with `args`. The callee need only be
    /// declared: it may have no body yet, and it may be the function being
    /// built. The number of arguments and the type of each must be what the
    /// callee declares, and `name` holds no NUL character. Returns the value
    /// of the call, called `name`, where the callee returns one.
    pub fn emit_call(&mut self, callee: FunctionHandle, args: Vec<Value>, name: &str) -> (res:
        Result<Option<Value>, BuildError>)
        ensures
            match res {
                Ok(v) => {
                    &&& old(self)@.call_error(callee, args@, name@) is None
                    &&& final(self)@ == old(self)@.with_named(
                        name@,
                        InstView::Call { callee: callee.index, args: args@ },
                    )
                    &&& v == if old(self)@.module.functions[callee.index as int].ret is Some {
                        Some(old(self)@.next_value())
                    } else {
                        None
                    }
                },
                Err(e) => old(self)@.call_error(callee, args@, name@) == Some(e) && final(self)@ == old(
                    self,
                )@,
            },
    {
        proof {
            use_type_invariant(&*self);
        }
        if let Err(e) = self.check_call(callee, &args, name) {
            return Err(e);
        }
        let has_result = self.module.functions[callee.index].ret.is_some();
        proof {
            let params = self@.module.functions[callee.index as int].params;
            assert forall|j: int| 0 <= j < args@.len() implies self@.operand_error(
                #[trigger] args@[j],
                params[j],
            ) is None by {
                self@.lemma_args_error(args@, params, 0, j);
            }
        }
        let v = self.push_inst(name.to_owned(), Inst::Call { callee: callee.index, args });
        if has_result {
            Ok(Some(v))
        } else {
            Ok(None)
        }
    }

    /// Emits a return, with `value` where the function returns one. What is
    /// returned must be what the function declares. This closes the block at
    /// the insertion point.
    pub fn emit_return(&mut self, value: Option<Value>) -> (res: Result<(), BuildError>)
        ensures
            match res {
                Ok(()) => {
                    &&& old(self)@.return_error(value) is None
                    &&& final(self)@ == old(self)@.with_inst(InstView::Ret { value })
                },
                Err(e) => old(self)@.return_error(value) == Some(e) && final(self)@ == old(self)@,
            },
    {
        proof {
            use_type_invariant(&*self);
        }
        let p = match self.check_insertion() {
            Err(e) => {
                return Err(e);
            },
            Ok(p) => p,
        };
        match (value, self.module.functions[p.function].ret) {
            (None, None) => {},
            (Some(v), Some(ty)) => {
                if let Err(e) = self.check_operand(v, ty) {
                    return Err(e);
                }
            },
            _ => {
                return Err(BuildError::TypeMismatch);
            },
        }
        self.push_inst(String::new(), Inst::Ret { value });
        Ok(())
    }
}

} // verus!
