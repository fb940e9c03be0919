//! Which blocks control must pass before it reaches a block, and the check
//! that every value is computed before it is read.
//!
//! A block `d` dominates a block `u` when every walk from the entry block to
//! `u` passes `d`. An instruction may read the result of an instruction of
//! its own block, which then stands before it, or of a block that dominates
//! its own.

use vstd::prelude::*;
use crate::ir::{Function, FunctionView, Inst, InstView, ModuleView};
use crate::types::Value;

verus! {

impl InstView {
    /// The values that the instruction reads, in order.
    pub open spec fn operands(self) -> Seq<Value> {
        match self {
            InstView::Const { .. } => Seq::empty(),
            InstView::Add { lhs, rhs } => seq![lhs, rhs],
            InstView::Sub { lhs, rhs } => seq![lhs, rhs],
            InstView::Equal { lhs, rhs } => seq![lhs, rhs],
            InstView::Call { args, .. } => args,
            InstView::CondBr { cond, .. } => seq![cond],
            InstView::Br { .. } => Seq::empty(),
            InstView::Ret { value } => match value {
                Some(v) => seq![v],
                None => Seq::empty(),
            },
        }
    }
}

impl FunctionView {
    /// Whether control can pass from block `a` straight to block `b`: the
    /// terminator of `a` names `b`.
    pub open spec fn is_edge(self, a: int, b: int) -> bool {
        &&& 0 <= a < self.blocks.len()
        &&& self.blocks[a].terminator matches Some(t)
        &&& t < self.body.len()
        &&& match self.body[t as int].inst {
            InstView::CondBr { if_true, if_false, .. } => b == if_true || b == if_false,
            InstView::Br { target } => b == target,
            _ => false,
        }
    }

    /// Whether `walk` is a walk of control from the entry block: it starts
    /// there, and each block is left for the next.
    pub open spec fn is_walk(self, walk: Seq<int>) -> bool {
        &&& walk.len() > 0
        &&& walk[0] == 0
        &&& self.blocks.len() > 0
        &&& forall|i: int| 0 <= i < walk.len() - 1 ==> self.is_edge(#[trigger] walk[i], walk[i + 1])
    }

    /// Whether some walk from the entry block ends in `b` without passing
    /// `d`.
    pub open spec fn reaches_avoiding(self, b: int, d: int) -> bool {
        exists|walk: Seq<int>| #[trigger]
            self.is_walk(walk) && walk.last() == b && !walk.contains(d)
    }

    /// Whether block `d` dominates block `u`: every walk from the entry
    /// block to `u` passes `d`.
    pub open spec fn dominates(self, d: int, u: int) -> bool {
        forall|walk: Seq<int>| #[trigger]
            self.is_walk(walk) && walk.last() == u ==> walk.contains(d)
    }

    /// Whether the instruction at position `k` may read `v` where it stands:
    /// `v` is a parameter, or the result of an instruction of the same
    /// block, or of a block that dominates the block of `k`.
    pub open spec fn may_read(self, k: int, v: Value) -> bool {
        v.origin is Inst ==> {
            let d = self.body[v.index as int].block as int;
            let u = self.body[k].block as int;
            d == u || self.dominates(d, u)
        }
    }

    /// Whether the instruction at position `k` may read all that it reads.
    pub open spec fn reads_defined(self, k: int) -> bool {
        forall|j: int|
            0 <= j < self.body[k].inst.operands().len() ==> self.may_read(
                k,
                #[trigger] self.body[k].inst.operands()[j],
            )
    }
}

impl ModuleView {
    /// Whether every instruction of the module reads only values that are
    /// computed on every way that leads to it.
    pub open spec fn defined_before_use(self) -> bool {
        forall|f: int, k: int|
            0 <= f < self.functions.len() && 0 <= k < self.functions[f].body.len()
                ==> #[trigger] self.functions[f].reads_defined(k)
    }
}

/// The number of entries of `s` that are `false`.
pub open spec fn count_false(s: Seq<bool>) -> nat
    decreases s.len(),
{
    if s.len() == 0 {
        0
    } else {
        count_false(s.drop_last()) + if s.last() {
            0nat
        } else {
            1nat
        }
    }
}

/// Setting an entry that is `false` leaves one `false` entry less.
proof fn lemma_count_false_update(s: Seq<bool>, i: int)
    requires
        0 <= i < s.len(),
        !s[i],
    ensures
        count_false(s.update(i, true)) + 1 == count_false(s),
    decreases s.len(),
{
    let t = s.update(i, true);
    if i == s.len() - 1 {
        assert(t.drop_last() =~= s.drop_last());
    } else {
        assert(t.drop_last() =~= s.drop_last().update(i, true));
        lemma_count_false_update(s.drop_last(), i);
    }
}

/// A walk that goes one block further along an edge is a walk.
proof fn lemma_walk_extends(fun: FunctionView, walk: Seq<int>, next: int)
    requires
        fun.is_walk(walk),
        fun.is_edge(walk.last(), next),
    ensures
        fun.is_walk(walk.push(next)),
{
    let longer = walk.push(next);
    assert forall|i: int| 0 <= i < longer.len() - 1 implies fun.is_edge(
        #[trigger] longer[i],
        longer[i + 1],
    ) by {
        if i < walk.len() - 1 {
            assert(fun.is_edge(walk[i], walk[i + 1]));
        }
    }
}

/// Whether `reached` holds the entry block, unless that is `d`, and with
/// every block all blocks that control can pass to from it, but `d`.
spec fn is_closed(fun: FunctionView, reached: Seq<bool>, d: int) -> bool {
    &&& reached.len() == fun.blocks.len()
    &&& fun.blocks.len() > 0 && d != 0 ==> reached[0]
    &&& forall|a: int, b: int|
        0 <= a < reached.len() && reached[a] && #[trigger] fun.is_edge(a, b) && b != d && 0 <= b
            < reached.len() ==> reached[b]
}

/// A set of blocks that is closed holds every block of a walk that avoids
/// `d`.
proof fn lemma_closed_holds_walk(
    fun: FunctionView,
    reached: Seq<bool>,
    d: int,
    walk: Seq<int>,
    i: int,
)
    requires
        is_closed(fun, reached, d),
        fun.is_walk(walk),
        !walk.contains(d),
        0 <= walk.last() < fun.blocks.len(),
        0 <= i < walk.len(),
    ensures
        0 <= walk[i] < reached.len(),
        reached[walk[i]],
    decreases i,
{
    if i < walk.len() - 1 {
        assert(fun.is_edge(walk[i], walk[i + 1]));
    }
    if i == 0 {
        assert(walk[0] != d);
    } else {
        lemma_closed_holds_walk(fun, reached, d, walk, i - 1);
        assert(fun.is_edge(walk[i - 1], walk[i]));
        assert(walk[i] != d);
    }
}

/// In a well-formed module control passes only to blocks that exist.
pub proof fn lemma_edges_stay_inside(m: ModuleView, f: int)
    requires
        m.wf(),
        0 <= f < m.functions.len(),
    ensures
        forall|a: int, b: int| #[trigger]
            m.functions[f].is_edge(a, b) ==> 0 <= b < m.functions[f].blocks.len(),
{
    reveal(ModuleView::wf);
    let fun = m.functions[f];
    assert(m.function_ok(f));
    assert forall|a: int, b: int| #[trigger] fun.is_edge(a, b) implies 0 <= b
        < fun.blocks.len() by {
        let t = fun.blocks[a].terminator->0 as int;
        assert(m.node_ok(f, t));
    }
}

/// The values that `inst` reads.
pub fn operands(inst: &Inst) -> (values: Vec<Value>)
    ensures
        values@ == inst@.operands(),
{
    let mut values: Vec<Value> = Vec::new();
    match inst {
        Inst::Const { .. } => {},
        Inst::Add { lhs, rhs } => {
            values.push(*lhs);
            values.push(*rhs);
        },
        Inst::Sub { lhs, rhs } => {
            values.push(*lhs);
            values.push(*rhs);
        },
        Inst::Equal { lhs, rhs } => {
            values.push(*lhs);
            values.push(*rhs);
        },
        Inst::Call { args, .. } => {
            let mut j: usize = 0;
            while j < args.len()
                invariant
                    j <= args@.len(),
                    values@ == args@.subrange(0, j as int),
                decreases args@.len() - j,
            {
                values.push(args[j]);
                proof {
                    assert(values@ =~= args@.subrange(0, j + 1));
                }
                j += 1;
            }
            proof {
                assert(values@ =~= args@);
            }
        },
        Inst::CondBr { cond, .. } => {
            values.push(*cond);
        },
        Inst::Br { .. } => {},
        Inst::Ret { value } => match value {
            Some(v) => {
                values.push(*v);
            },
            None => {},
        },
    }
    proof {
        assert(values@ =~= inst@.operands());
    }
    values
}

/// The blocks of `fun` that control can reach from the entry block without
/// passing block `d`.
pub fn reachable_avoiding(fun: &Function, d: usize) -> (reached: Vec<bool>)
    ensures
        reached@.len() == fun@.blocks.len(),
        forall|b: int|
            0 <= b < reached@.len() ==> (reached@[b] <==> fun@.reaches_avoiding(b, d as int)),
{
    let n = fun.blocks.len();
    let mut reached: Vec<bool> = Vec::new();
    let mut i: usize = 0;
    while i < n
        invariant
            i <= n,
            reached@.len() == i,
            forall|b: int| 0 <= b < i ==> !reached@[b],
        decreases n - i,
    {
        reached.push(false);
        i += 1;
    }
    // `work` holds the blocks that are reached and whose successors are still
    // to be looked at; `walks` holds, for each block that is reached, a walk
    // that ends in it.
    let ghost walks: Seq<Seq<int>> = Seq::new(n as nat, |b: int| Seq::<int>::empty());
    let mut work: Vec<usize> = Vec::new();
    if n > 0 && d != 0 {
        reached.set(0, true);
        work.push(0);
        proof {
            walks = walks.update(0, seq![0int]);
            assert(fun@.is_walk(seq![0int]));
            assert(work@[0] == 0);
        }
    }
    assert(forall|a: int| 0 <= a < n && reached@[a] ==> a == 0 && work@.contains(0usize));
    while work.len() > 0
        invariant
            n == fun.blocks@.len(),
            n == fun@.blocks.len(),
            reached@.len() == n,
            walks.len() == n,
            n > 0 && d != 0 ==> reached@[0],
            forall|w: int| 0 <= w < work@.len() ==> (#[trigger] work@[w]) < n && reached@[work@[w] as int],
            forall|b: int|
                0 <= b < n && #[trigger] reached@[b] ==> {
                    &&& b != d
                    &&& fun@.is_walk(walks[b])
                    &&& walks[b].last() == b
                    &&& !walks[b].contains(d as int)
                },
            forall|a: int, b: int|
                0 <= a < n && reached@[a] && !work@.contains(a as usize) && #[trigger] fun@.is_edge(
                    a,
                    b,
                ) && b != d && 0 <= b < n ==> reached@[b],
        decreases 2 * count_false(reached@) + work@.len(),
    {
        let ghost before = work@;
        let a = work.pop().unwrap();
        proof {
            assert(before.last() == a);
            assert(work@ =~= before.drop_last());
            assert forall|x: usize| before.contains(x) && x != a implies work@.contains(x) by {
                let j = choose|j: int| 0 <= j < before.len() && before[j] == x;
                assert(work@[j] == x);
            }
        }
        let ghost seen = reached@;
        // A block has at most two successors: those that its terminator names.
        let mut first: Option<usize> = None;
        let mut second: Option<usize> = None;
        match fun.blocks[a].terminator {
            Some(t) => {
                assert(fun@.blocks[a as int].terminator == Some(t));
                if t < fun.body.len() {
                    match &fun.body[t].inst {
                        Inst::CondBr { if_true, if_false, .. } => {
                            first = Some(*if_true);
                            second = Some(*if_false);
                        },
                        Inst::Br { target } => {
                            first = Some(*target);
                        },
                        _ => {},
                    }
                }
            },
            None => {},
        }
        assert(forall|b: int|
            fun@.is_edge(a as int, b) ==> first == Some(b as usize) || second == Some(b as usize));
        assert(first matches Some(b) ==> fun@.is_edge(a as int, b as int));
        assert(second matches Some(b) ==> fun@.is_edge(a as int, b as int));
        match first {
            Some(b) => {
                if b < n && b != d && !reached[b] {
                    proof {
                        lemma_count_false_update(reached@, b as int);
                        lemma_walk_extends(fun@, walks[a as int], b as int);
                        walks = walks.update(b as int, walks[a as int].push(b as int));
                    }
                    reached.set(b, true);
                    work.push(b);
                }
            },
            None => {},
        }
        match second {
            Some(b) => {
                if b < n && b != d && !reached[b] {
                    proof {
                        lemma_count_false_update(reached@, b as int);
                        lemma_walk_extends(fun@, walks[a as int], b as int);
                        walks = walks.update(b as int, walks[a as int].push(b as int));
                    }
                    reached.set(b, true);
                    work.push(b);
                }
            },
            None => {},
        }
        proof {
            assert forall|x: int, b: int|
                0 <= x < n && reached@[x] && !work@.contains(x as usize) && #[trigger] fun@.is_edge(
                    x,
                    b,
                ) && b != d && 0 <= b < n implies reached@[b] by {
                if x == a {
                } else if seen[x] {
                    if before.contains(x as usize) {
                        let j = choose|j: int| 0 <= j < before.len() && before[j] == x as usize;
                        assert(work@[j] == x as usize);
                    }
                    assert(seen[b]);
                } else {
                    if first == Some(x as usize) {
                        assert(work@[before.len() - 1] == x as usize);
                    } else {
                        assert(work@[work@.len() - 1] == x as usize);
                    }
                }
            }
        }
    }
    proof {
        // Nothing is left to look at: what is reached is closed under
        // successors, so it holds every walk that avoids `d`.
        assert(is_closed(fun@, reached@, d as int)) by {
            assert forall|a: int, b: int|
                0 <= a < reached@.len() && reached@[a] && #[trigger] fun@.is_edge(a, b) && b != d
                    && 0 <= b < reached@.len() implies reached@[b] by {
                assert(!work@.contains(a as usize));
            }
        }
        assert forall|b: int| 0 <= b < reached@.len() implies (reached@[b]
            <==> fun@.reaches_avoiding(b, d as int)) by {
            if reached@[b] {
                assert(fun@.is_walk(walks[b]) && walks[b].last() == b && !walks[b].contains(
                    d as int,
                ));
            }
            if fun@.reaches_avoiding(b, d as int) {
                let walk = choose|walk: Seq<int>| #[trigger]
                    fun@.is_walk(walk) && walk.last() == b && !walk.contains(d as int);
                lemma_closed_holds_walk(fun@, reached@, d as int, walk, walk.len() - 1);
            }
        }
    }
    reached
}

} // verus!
