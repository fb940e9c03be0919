//! The end of construction: the checks that concern a module as a whole.

use vstd::prelude::*;
use crate::builder::CodeGen;
use crate::dominance::{operands, reachable_avoiding};
use crate::ir::{lemma_wf_node, IrModule, ModuleView};
use crate::types::{BuildError, Origin};

verus! {

impl ModuleView {
    /// Whether `(f, b)` comes before `(g, c)`: in an earlier function, or
    /// earlier in the same function.
    pub open spec fn before(f: int, b: int, g: int, c: int) -> bool {
        f < g || (f == g && b < c)
    }

    /// Whether block `b` of function `f` is the first block of the module
    /// that has no terminator.
    pub open spec fn first_open_block(self, f: int, b: int) -> bool {
        &&& 0 <= f < self.functions.len()
        &&& 0 <= b < self.functions[f].blocks.len()
        &&& !self.functions[f].is_closed(b)
        &&& forall|g: int, c: int|
            0 <= g < self.functions.len() && 0 <= c < self.functions[g].blocks.len()
                && Self::before(g, c, f, b) ==> #[trigger] self.functions[g].is_closed(c)
    }

    /// Whether the instruction at position `k` of function `f` is the first
    /// instruction of the module that reads a value where it may not.
    pub open spec fn first_undefined_read(self, f: int, k: int) -> bool {
        &&& 0 <= f < self.functions.len()
        &&& 0 <= k < self.functions[f].body.len()
        &&& !self.functions[f].reads_defined(k)
        &&& forall|g: int, j: int|
            0 <= g < self.functions.len() && 0 <= j < self.functions[g].body.len() && Self::before(
                g,
                j,
                f,
                k,
            ) ==> #[trigger] self.functions[g].reads_defined(j)
    }

    /// The module is ready to be lowered: it is well formed, every block
    /// ends in a terminator, and every value is computed before it is read.
    pub open spec fn finished(self) -> bool {
        self.wf() && self.complete() && self.defined_before_use()
    }
}

/// A module that is ready to be lowered: well formed, every block closed by
/// a terminator, every value computed before it is read. Only
/// [`CodeGen::finish`] makes one, and it does not change afterwards.
#[derive(Debug)]
pub struct FinishedModule<'t> {
    module: IrModule<'t>,
}

impl<'t> View for FinishedModule<'t> {
    type V = ModuleView;

    closed spec fn view(&self) -> ModuleView {
        self.module@
    }
}

impl<'t> FinishedModule<'t> {
    /// What a finished module holds is finished at all times.
    #[verifier::type_invariant]
    spec fn inv(self) -> bool {
        self.module@.finished()
    }

    /// What the module holds.
    pub fn ir(&self) -> (module: &IrModule<'t>)
        ensures
            module@ == self@,
            self@.finished(),
    {
        proof {
            use_type_invariant(self);
        }
        &self.module
    }
}

/// Tests whether the instruction at position `k` of function `f` may read
/// all that it reads where it stands.
fn reads_defined(module: &IrModule, f: usize, k: usize) -> (ok: bool)
    requires
        module@.wf(),
        f < module@.functions.len(),
        k < module@.functions[f as int].body.len(),
    ensures
        ok == module@.functions[f as int].reads_defined(k as int),
{
    let fun = &module.functions[f];
    let values = operands(&fun.body[k].inst);
    let u = fun.body[k].block;
    proof {
        lemma_wf_node(module@, f as int, k as int);
    }
    let mut j: usize = 0;
    while j < values.len()
        invariant
            module@.wf(),
            f < module@.functions.len(),
            k < module@.functions[f as int].body.len(),
            *fun == module.functions@[f as int],
            module@.node_ok(f as int, k as int),
            values@ == fun@.body[k as int].inst.operands(),
            u == fun@.body[k as int].block,
            j <= values@.len(),
            forall|i: int| 0 <= i < j ==> fun@.may_read(k as int, #[trigger] values@[i]),
        decreases values@.len() - j,
    {
        let v = values[j];
        match v.origin {
            Origin::Param => {},
            Origin::Inst => {
                assert(v.index < k) by {
                    assert(values@[j as int] == fun@.body[k as int].inst.operands()[j as int]);
                }
                let d = fun.body[v.index].block;
                if d != u {
                    let reached = reachable_avoiding(fun, d);
                    if reached[u] {
                        proof {
                            let walk = choose|walk: Seq<int>| #[trigger]
                                fun@.is_walk(walk) && walk.last() == u && !walk.contains(d as int);
                            assert(!fun@.dominates(d as int, u as int));
                            assert(!fun@.may_read(k as int, values@[j as int]));
                        }
                        return false;
                    }
                    assert(fun@.dominates(d as int, u as int)) by {
                        assert(!fun@.reaches_avoiding(u as int, d as int));
                    }
                }
            },
        }
        j += 1;
    }
    true
}

impl<'t> CodeGen<'t> {
    /// Checks whether the module can be finished as it stands, and says why
    /// not if it cannot.
    ///
    /// A block without a terminator is refused; the error names the first
    /// such block. Where every block is closed, an instruction that reads a
    /// value which is not computed on every way to it is refused; the error
    /// names the first such instruction. The names behind the positions can
    /// be looked up in the module.
    pub fn check(&self) -> (res: Result<(), BuildError>)
        ensures
            match res {
                Ok(()) => self@.module.finished(),
                Err(BuildError::MissingTerminator { function, block }) => self@.module.first_open_block(
                    function as int,
                    block as int,
                ),
                Err(BuildError::UseBeforeDefinition { function, instruction }) => {
                    &&& self@.module.complete()
                    &&& self@.module.first_undefined_read(function as int, instruction as int)
                },
                Err(_) => false,
            },
    {
        let module = self.module();
        let mut f: usize = 0;
        while f < module.functions.len()
            invariant
                module@ == self@.module,
                f <= module.functions@.len(),
                forall|g: int, c: int|
                    0 <= g < f && 0 <= c < module@.functions[g].blocks.len()
                        ==> #[trigger] module@.functions[g].is_closed(c),
            decreases module.functions@.len() - f,
        {
            let mut b: usize = 0;
            while b < module.functions[f].blocks.len()
                invariant
                    module@ == self@.module,
                    f < module.functions@.len(),
                    b <= module.functions@[f as int].blocks@.len(),
                    forall|g: int, c: int|
                        0 <= g < f && 0 <= c < module@.functions[g].blocks.len()
                            ==> #[trigger] module@.functions[g].is_closed(c),
                    forall|c: int| 0 <= c < b ==> #[trigger] module@.functions[f as int].is_closed(c),
                decreases module.functions@[f as int].blocks@.len() - b,
            {
                if module.functions[f].blocks[b].terminator.is_none() {
                    return Err(BuildError::MissingTerminator { function: f, block: b });
                }
                b += 1;
            }
            f += 1;
        }
        let mut f: usize = 0;
        while f < module.functions.len()
            invariant
                module@ == self@.module,
                module@.wf(),
                module@.complete(),
                f <= module.functions@.len(),
                forall|g: int, j: int|
                    0 <= g < f && 0 <= j < module@.functions[g].body.len()
                        ==> #[trigger] module@.functions[g].reads_defined(j),
            decreases module.functions@.len() - f,
        {
            let mut k: usize = 0;
            while k < module.functions[f].body.len()
                invariant
                    module@ == self@.module,
                    module@.wf(),
                    module@.complete(),
                    f < module.functions@.len(),
                    k <= module.functions@[f as int].body@.len(),
                    forall|g: int, j: int|
                        0 <= g < f && 0 <= j < module@.functions[g].body.len()
                            ==> #[trigger] module@.functions[g].reads_defined(j),
                    forall|j: int|
                        0 <= j < k ==> #[trigger] module@.functions[f as int].reads_defined(j),
                decreases module.functions@[f as int].body@.len() - k,
            {
                if !reads_defined(module, f, k) {
                    return Err(BuildError::UseBeforeDefinition { function: f, instruction: k });
                }
                k += 1;
            }
            f += 1;
        }
        Ok(())
    }

    /// Ends construction and hands out the module, which from here on does
    /// not change. A module that does not pass [`CodeGen::check`] is refused,
    /// with the error that the check gives.
    pub fn finish(self) -> (res: Result<FinishedModule<'t>, BuildError>)
        ensures
            match res {
                Ok(module) => module@ == self@.module && module@.finished(),
                Err(BuildError::MissingTerminator { function, block }) => self@.module.first_open_block(
                    function as int,
                    block as int,
                ),
                Err(BuildError::UseBeforeDefinition { function, instruction }) => {
                    &&& self@.module.complete()
                    &&& self@.module.first_undefined_read(function as int, instruction as int)
                },
                Err(_) => false,
            },
    {
        match self.check() {
            Ok(()) => Ok(FinishedModule { module: self.into_module() }),
            Err(e) => Err(e),
        }
    }
}

} // verus!
