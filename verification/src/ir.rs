//! The intermediate representation: modules, functions, blocks and
//! instructions, with their mathematical views and the rules that a
//! well-formed module obeys.
//!
//! A function keeps its instructions in one list, in the order in which they
//! were emitted, and each instruction records the block it belongs to. The
//! instructions of a block are those that name it, in that order. A value is
//! therefore always produced at a smaller position than any instruction that
//! reads it.

use vstd::prelude::*;
use crate::target::{TargetDescriptor, TargetView};
use crate::types::{Origin, Ty, Value};

verus! {

/// One instruction.
#[derive(Clone, Debug, PartialEq, Eq)]
pub enum Inst {
    /// The constant `number`.
    Const { number: u32 },
    /// `lhs + rhs`, modulo 2^32.
    Add { lhs: Value, rhs: Value },
    /// `lhs - rhs`, modulo 2^32.
    Sub { lhs: Value, rhs: Value },
    /// Whether `lhs` equals `rhs`.
    Equal { lhs: Value, rhs: Value },
    /// A direct call of the function at position `callee`.
    Call { callee: usize, args: Vec<Value> },
    /// Continues in block `if_true` when `cond` holds, else in `if_false`.
    CondBr { cond: Value, if_true: usize, if_false: usize },
    /// Continues in block `target`.
    Br { target: usize },
    /// Leaves the function, with `value` where it returns one.
    Ret { value: Option<Value> },
}

/// The view of an instruction.
pub enum InstView {
    Const { number: u32 },
    Add { lhs: Value, rhs: Value },
    Sub { lhs: Value, rhs: Value },
    Equal { lhs: Value, rhs: Value },
    Call { callee: usize, args: Seq<Value> },
    CondBr { cond: Value, if_true: usize, if_false: usize },
    Br { target: usize },
    Ret { value: Option<Value> },
}

impl View for Inst {
    type V = InstView;

    open spec fn view(&self) -> InstView {
        match *self {
            Inst::Const { number } => InstView::Const { number },
            Inst::Add { lhs, rhs } => InstView::Add { lhs, rhs },
            Inst::Sub { lhs, rhs } => InstView::Sub { lhs, rhs },
            Inst::Equal { lhs, rhs } => InstView::Equal { lhs, rhs },
            Inst::Call { callee, args } => InstView::Call { callee, args: args@ },
            Inst::CondBr { cond, if_true, if_false } => InstView::CondBr { cond, if_true, if_false },
            Inst::Br { target } => InstView::Br { target },
            Inst::Ret { value } => InstView::Ret { value },
        }
    }
}

impl InstView {
    /// Whether the instruction ends a block.
    pub open spec fn is_terminator(self) -> bool {
        self is CondBr || self is Br || self is Ret
    }
}

impl Inst {
    /// Tests whether the instruction ends a block.
    pub fn is_terminator(&self) -> (b: bool)
        ensures
            b == self@.is_terminator(),
    {
        match self {
            Inst::CondBr { .. } => true,
            Inst::Br { .. } => true,
            Inst::Ret { .. } => true,
            _ => false,
        }
    }
}

/// An instruction together with the block it was emitted into and the name
/// of the value that it produces. The name is for the reader of the
/// backend's text and plays no part in what the instruction computes: an
/// empty name leaves it to the backend to number the value, the backend
/// tells two values of one name apart by a number of its own, and it keeps
/// no name for a call that gives nothing. Instructions that produce no
/// value have an empty name.
#[derive(Clone, Debug, PartialEq, Eq)]
pub struct Node {
    pub block: usize,
    pub name: String,
    pub inst: Inst,
}

/// The view of a [`Node`].
pub struct NodeView {
    pub block: usize,
    pub name: Seq<char>,
    pub inst: InstView,
}

impl View for Node {
    type V = NodeView;

    open spec fn view(&self) -> NodeView {
        NodeView { block: self.block, name: self.name@, inst: self.inst@ }
    }
}

/// The instruction `inst` in block `block`, without a name.
pub open spec fn unnamed(block: usize, inst: InstView) -> NodeView {
    NodeView { block, name: Seq::empty(), inst }
}

/// The instruction `inst` in block `block`, its value called `name`.
pub open spec fn named(block: usize, name: Seq<char>, inst: InstView) -> NodeView {
    NodeView { block, name, inst }
}

/// A basic block: its label and, once it is closed, the position of its
/// terminator in the function's body.
#[derive(Clone, Debug, PartialEq, Eq)]
pub struct Block {
    pub label: String,
    pub terminator: Option<usize>,
}

/// The view of a [`Block`].
pub struct BlockView {
    pub label: Seq<char>,
    pub terminator: Option<usize>,
}

impl View for Block {
    type V = BlockView;

    open spec fn view(&self) -> BlockView {
        BlockView { label: self.label@, terminator: self.terminator }
    }
}

/// Whether `name` holds a NUL character. The backend cuts a name at its first
/// NUL, so that two such names could become one there.
pub open spec fn has_nul(name: Seq<char>) -> bool {
    exists|i: int| 0 <= i < name.len() && name[i] == '\0'
}

/// Whether `name` names a garbage collection strategy that the backend is
/// known to take. It looks a strategy up when it generates code, and ends
/// the process where it does not find it.
pub open spec fn is_known_strategy(name: Seq<char>) -> bool {
    name == "shadow-stack"@
}

/// Tests whether `name` holds a NUL character.
pub fn contains_nul(name: &str) -> (found: bool)
    ensures
        found == has_nul(name@),
{
    let n = name.unicode_len();
    let mut i: usize = 0;
    while i < n
        invariant
            n == name@.len(),
            i <= n,
            forall|j: int| 0 <= j < i ==> name@[j] != '\0',
        decreases n - i,
    {
        if name.get_char(i) == '\0' {
            return true;
        }
        i += 1;
    }
    false
}

/// Tests whether `name` names a garbage collection strategy that the
/// backend is known to take.
pub fn names_known_strategy(name: &str) -> (known: bool)
    ensures
        known == is_known_strategy(name@),
{
    name.to_owned() == "shadow-stack".to_owned()
}

/// The instructions among `body` that belong to block `b`, in order.
pub open spec fn insts_of(body: Seq<NodeView>, b: int) -> Seq<InstView> {
    body.filter(|n: NodeView| n.block == b).map_values(|n: NodeView| n.inst)
}

/// A function: its signature, its blocks in the order in which they were
/// appended (the first is the entry block), and its instructions in the order
/// in which they were emitted. A function without blocks is a declaration.
#[derive(Clone, Debug, PartialEq, Eq)]
pub struct Function {
    pub name: String,
    pub params: Vec<Ty>,
    pub ret: Option<Ty>,
    pub gc: Option<String>,
    pub blocks: Vec<Block>,
    pub body: Vec<Node>,
}

/// The view of a [`Function`].
pub struct FunctionView {
    pub name: Seq<char>,
    pub params: Seq<Ty>,
    pub ret: Option<Ty>,
    pub gc: Option<Seq<char>>,
    pub blocks: Seq<BlockView>,
    pub body: Seq<NodeView>,
}

impl View for Function {
    type V = FunctionView;

    open spec fn view(&self) -> FunctionView {
        FunctionView {
            name: self.name@,
            params: self.params@,
            ret: self.ret,
            gc: match self.gc {
                Some(s) => Some(s@),
                None => None,
            },
            blocks: Seq::new(self.blocks@.len(), |i: int| self.blocks@[i]@),
            body: Seq::new(self.body@.len(), |i: int| self.body@[i]@),
        }
    }
}

impl FunctionView {
    /// Whether the function has a body.
    pub open spec fn is_defined(self) -> bool {
        self.blocks.len() > 0
    }

    /// Whether block `b` has a terminator.
    pub open spec fn is_closed(self, b: int) -> bool {
        self.blocks[b].terminator is Some
    }

    /// The instructions of block `b`, in order.
    pub open spec fn block_insts(self, b: int) -> Seq<InstView> {
        insts_of(self.body, b)
    }

    /// No two blocks share a label.
    pub open spec fn labels_distinct(self) -> bool {
        forall|i: int, j: int|
            0 <= i < j < self.blocks.len() ==> self.blocks[i].label != self.blocks[j].label
    }

    /// The names that the function hands to the backend are names that the
    /// backend takes as they are: neither the function's name nor a label
    /// holds a NUL character, and the garbage collection strategy, if the
    /// function names one, is one that the backend is known to take.
    pub open spec fn names_fit(self) -> bool {
        &&& !has_nul(self.name)
        &&& forall|b: int| 0 <= b < self.blocks.len() ==> !has_nul((#[trigger] self.blocks[b]).label)
        &&& self.gc matches Some(strategy) ==> is_known_strategy(strategy)
    }

    /// What each block records about its terminator is what the body holds:
    /// a closed block has its one terminator at the recorded position and
    /// nothing after it; an open block has no terminator.
    pub open spec fn terminators_recorded(self) -> bool {
        forall|b: int|
            0 <= b < self.blocks.len() ==> match (#[trigger] self.blocks[b]).terminator {
                Some(t) => {
                    &&& t < self.body.len()
                    &&& self.body[t as int].block == b
                    &&& self.body[t as int].inst.is_terminator()
                    &&& forall|k: int|
                        0 <= k < self.body.len() && (#[trigger] self.body[k]).block == b && k != t
                            ==> k < t && !self.body[k].inst.is_terminator()
                },
                None => forall|k: int|
                    0 <= k < self.body.len() && (#[trigger] self.body[k]).block == b
                        ==> !self.body[k].inst.is_terminator(),
            }
    }
}

/// A module: a named, ordered collection of functions, and the machine it is
/// meant for, once that is set.
#[derive(Clone, Debug)]
pub struct IrModule<'t> {
    pub name: String,
    pub functions: Vec<Function>,
    pub target: Option<&'t TargetDescriptor>,
}

/// The view of a [`IrModule`].
pub struct ModuleView {
    pub name: Seq<char>,
    pub functions: Seq<FunctionView>,
    pub target: Option<TargetView>,
}

impl<'t> View for IrModule<'t> {
    type V = ModuleView;

    open spec fn view(&self) -> ModuleView {
        ModuleView {
            name: self.name@,
            functions: Seq::new(self.functions@.len(), |i: int| self.functions@[i]@),
            target: match self.target {
                Some(machine) => Some(machine@),
                None => None,
            },
        }
    }
}

impl<'t> IrModule<'t> {
    /// The position of the function called `name`, if one is declared.
    pub fn find_function(&self, name: &str) -> (found: Option<usize>)
        ensures
            match found {
                Some(i) => i < self@.functions.len() && self@.functions[i as int].name == name@,
                None => !self@.declares(name@),
            },
    {
        let wanted = name.to_owned();
        let mut i: usize = 0;
        while i < self.functions.len()
            invariant
                i <= self.functions@.len(),
                wanted@ == name@,
                forall|j: int| 0 <= j < i ==> self@.functions[j].name != name@,
            decreases self.functions@.len() - i,
        {
            if self.functions[i].name == wanted {
                return Some(i);
            }
            i += 1;
        }
        None
    }
}

impl ModuleView {
    /// Whether a function called `name` is declared.
    pub open spec fn declares(self, name: Seq<char>) -> bool {
        exists|i: int| 0 <= i < self.functions.len() && self.functions[i].name == name
    }

    /// The position of the function called `name`, where one is declared.
    pub open spec fn index_of(self, name: Seq<char>) -> int {
        choose|i: int| 0 <= i < self.functions.len() && self.functions[i].name == name
    }

    /// No two functions share a name.
    pub open spec fn names_distinct(self) -> bool {
        forall|i: int, j: int|
            0 <= i < j < self.functions.len() ==> self.functions[i].name != self.functions[j].name
    }

    /// The type of the value that `inst` produces, if it produces one.
    pub open spec fn result_type(self, inst: InstView) -> Option<Ty> {
        match inst {
            InstView::Const { .. } => Some(Ty::I32),
            InstView::Add { .. } => Some(Ty::I32),
            InstView::Sub { .. } => Some(Ty::I32),
            InstView::Equal { .. } => Some(Ty::Bool),
            InstView::Call { callee, .. } => if callee < self.functions.len() {
                self.functions[callee as int].ret
            } else {
                None
            },
            _ => None,
        }
    }

    /// The type of `v`, if `v` names a value of this module.
    pub open spec fn value_type(self, v: Value) -> Option<Ty> {
        if v.function < self.functions.len() {
            let f = self.functions[v.function as int];
            match v.origin {
                Origin::Param => if v.index < f.params.len() {
                    Some(f.params[v.index as int])
                } else {
                    None
                },
                Origin::Inst => if v.index < f.body.len() {
                    self.result_type(f.body[v.index as int].inst)
                } else {
                    None
                },
            }
        } else {
            None
        }
    }

    /// Whether the instruction at position `k` of function `f` may read `v`
    /// as a value of type `ty`: `v` is a parameter of `f` or the result of an
    /// earlier instruction of `f`, and has that type.
    pub open spec fn reads(self, f: int, k: int, v: Value, ty: Ty) -> bool {
        &&& v.function == f
        &&& v.origin is Inst ==> v.index < k
        &&& self.value_type(v) == Some(ty)
    }

    /// Whether `node` can stand at position `k` of function `f`: it names an
    /// existing block, reads only what it may read, with the types that it
    /// asks for, names only existing callees and branch targets, and calls
    /// its value by a name without a NUL character.
    pub open spec fn accepts(self, f: int, k: int, node: NodeView) -> bool {
        let fun = self.functions[f];
        &&& node.block < fun.blocks.len()
        &&& !has_nul(node.name)
        &&& match node.inst {
            InstView::Const { .. } => true,
            InstView::Add { lhs, rhs } => self.reads(f, k, lhs, Ty::I32) && self.reads(
                f,
                k,
                rhs,
                Ty::I32,
            ),
            InstView::Sub { lhs, rhs } => self.reads(f, k, lhs, Ty::I32) && self.reads(
                f,
                k,
                rhs,
                Ty::I32,
            ),
            InstView::Equal { lhs, rhs } => self.reads(f, k, lhs, Ty::I32) && self.reads(
                f,
                k,
                rhs,
                Ty::I32,
            ),
            InstView::Call { callee, args } => {
                &&& callee < self.functions.len()
                &&& args.len() == self.functions[callee as int].params.len()
                &&& forall|j: int|
                    0 <= j < args.len() ==> self.reads(
                        f,
                        k,
                        #[trigger] args[j],
                        self.functions[callee as int].params[j],
                    )
            },
            InstView::CondBr { cond, if_true, if_false } => {
                &&& self.reads(f, k, cond, Ty::Bool)
                &&& if_true < fun.blocks.len()
                &&& if_false < fun.blocks.len()
            },
            InstView::Br { target } => target < fun.blocks.len(),
            InstView::Ret { value } => match (value, fun.ret) {
                (None, None) => true,
                (Some(v), Some(ty)) => self.reads(f, k, v, ty),
                _ => false,
            },
        }
    }

    /// Whether the instruction at position `k` of function `f` can stand
    /// there.
    pub open spec fn node_ok(self, f: int, k: int) -> bool {
        self.accepts(f, k, self.functions[f].body[k])
    }

    /// Whether function `f` is well formed within the module.
    pub open spec fn function_ok(self, f: int) -> bool {
        let fun = self.functions[f];
        &&& fun.names_fit()
        &&& fun.labels_distinct()
        &&& fun.terminators_recorded()
        &&& forall|k: int| 0 <= k < fun.body.len() ==> #[trigger] self.node_ok(f, k)
    }

    /// The module is well formed: names are unique and every function is.
    #[verifier::opaque]
    pub open spec fn wf(self) -> bool {
        &&& self.names_distinct()
        &&& forall|f: int| 0 <= f < self.functions.len() ==> #[trigger] self.function_ok(f)
    }

    /// Whether every function hands the backend names that it takes as they
    /// are: see [`FunctionView::names_fit`].
    pub open spec fn names_fit(self) -> bool {
        forall|f: int| 0 <= f < self.functions.len() ==> (#[trigger] self.functions[f]).names_fit()
    }

    /// Every block of every function with a body is closed.
    pub open spec fn complete(self) -> bool {
        forall|f: int, b: int|
            0 <= f < self.functions.len() && 0 <= b < self.functions[f].blocks.len()
                ==> #[trigger] self.functions[f].is_closed(b)
    }

    /// `later` holds everything that `self` holds, at the same positions:
    /// functions, blocks and instructions are only ever appended, and a
    /// signature never changes.
    pub open spec fn grows_to(self, later: ModuleView) -> bool {
        &&& self.functions.len() <= later.functions.len()
        &&& forall|f: int|
            0 <= f < self.functions.len() ==> {
                let a = #[trigger] self.functions[f];
                let b = later.functions[f];
                &&& a.name == b.name
                &&& a.params == b.params
                &&& a.ret == b.ret
                &&& a.blocks.len() <= b.blocks.len()
                &&& a.body.len() <= b.body.len()
                &&& forall|k: int| 0 <= k < a.body.len() ==> #[trigger] b.body[k] == a.body[k]
            }
    }
}

/// In a well-formed module every instruction can stand where it stands.
pub proof fn lemma_wf_node(m: ModuleView, f: int, k: int)
    requires
        m.wf(),
        0 <= f < m.functions.len(),
        0 <= k < m.functions[f].body.len(),
    ensures
        m.node_ok(f, k),
{
    reveal(ModuleView::wf);
    assert(m.function_ok(f));
}

/// In a well-formed module every function hands the backend names that it
/// takes as they are.
pub proof fn lemma_wf_names(m: ModuleView)
    requires
        m.wf(),
    ensures
        m.names_fit(),
{
    reveal(ModuleView::wf);
    assert forall|f: int| 0 <= f < m.functions.len() implies (#[trigger] m.functions[f]).names_fit() by {
        assert(m.function_ok(f));
    }
}

/// In a well-formed module a name belongs to one function only.
pub proof fn lemma_index_of(m: ModuleView, i: int, name: Seq<char>)
    requires
        m.wf(),
        0 <= i < m.functions.len(),
        m.functions[i].name == name,
    ensures
        m.index_of(name) == i,
{
    reveal(ModuleView::wf);
    let j = m.index_of(name);
    if j < i {
        assert(m.functions[j].name != m.functions[i].name);
    } else if i < j {
        assert(m.functions[i].name != m.functions[j].name);
    }
}

/// What a position of a function accepts, it still accepts when the module has
/// grown.
pub proof fn lemma_accepts_stable(m: ModuleView, later: ModuleView, f: int, k: int, node: NodeView)
    requires
        m.grows_to(later),
        0 <= f < m.functions.len(),
        0 <= k <= m.functions[f].body.len(),
        m.accepts(f, k, node),
    ensures
        later.accepts(f, k, node),
{
    let a = m.functions[f];
    let b = later.functions[f];
    assert forall|v: Value, ty: Ty| m.reads(f, k, v, ty) implies later.reads(f, k, v, ty) by {
        if v.origin is Inst {
            assert(b.body[v.index as int] == a.body[v.index as int]);
        }
    }
    if let InstView::Call { callee, .. } = node.inst {
        assert(m.functions[callee as int].params == later.functions[callee as int].params);
    }
}

/// A well-formed instruction stays well formed when the module grows.
pub proof fn lemma_node_ok_stable(m: ModuleView, later: ModuleView, f: int, k: int)
    requires
        m.grows_to(later),
        0 <= f < m.functions.len(),
        0 <= k < m.functions[f].body.len(),
        m.node_ok(f, k),
    ensures
        later.node_ok(f, k),
{
    assert(later.functions[f].body[k] == m.functions[f].body[k]);
    lemma_accepts_stable(m, later, f, k, m.functions[f].body[k]);
}

/// A well-formed function whose blocks and body are untouched stays well
/// formed when the module grows.
pub proof fn lemma_function_ok_stable(m: ModuleView, later: ModuleView, f: int)
    requires
        m.grows_to(later),
        0 <= f < m.functions.len(),
        m.function_ok(f),
        later.functions[f].gc == m.functions[f].gc,
        later.functions[f].blocks == m.functions[f].blocks,
        later.functions[f].body == m.functions[f].body,
    ensures
        later.function_ok(f),
{
    assert forall|k: int| 0 <= k < later.functions[f].body.len() implies #[trigger] later.node_ok(
        f,
        k,
    ) by {
        assert(m.node_ok(f, k));
        lemma_node_ok_stable(m, later, f, k);
    }
}

} // verus!
