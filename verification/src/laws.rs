//! What holds of every module that the builder can produce.

use vstd::prelude::*;
use crate::builder::CodeGenView;
use crate::ir::{has_nul, insts_of, ModuleView, NodeView};
use crate::types::{BuildError, FunctionHandle, Ty, Value};

verus! {

/// Where no node of `body` that belongs to block `b` is a terminator, the
/// instructions of `b` hold no terminator.
proof fn lemma_insts_without_terminator(body: Seq<NodeView>, b: int)
    requires
        forall|k: int|
            0 <= k < body.len() && (#[trigger] body[k]).block == b ==> !body[k].inst.is_terminator(),
    ensures
        forall|i: int|
            0 <= i < insts_of(body, b).len() ==> !(#[trigger] insts_of(body, b)[i]).is_terminator(),
    decreases body.len(),
{
    reveal(Seq::filter);
    if body.len() > 0 {
        let rest = body.drop_last();
        assert forall|k: int| 0 <= k < rest.len() && (#[trigger] rest[k]).block == b implies !rest[k].inst.is_terminator() by {
            assert(rest[k] == body[k]);
        }
        lemma_insts_without_terminator(rest, b);
        let pred = |n: NodeView| n.block == b;
        assert forall|i: int| 0 <= i < insts_of(body, b).len() implies !(#[trigger] insts_of(
            body,
            b,
        )[i]).is_terminator() by {
            if i < insts_of(rest, b).len() {
                assert(insts_of(body, b)[i] == insts_of(rest, b)[i]);
            } else {
                assert(pred(body.last()));
                assert(insts_of(body, b)[i] == body.last().inst);
                assert(body.last() == body[body.len() - 1]);
            }
        }
    }
}

/// Where no node of `body` belongs to block `b`, `b` has no instructions.
proof fn lemma_insts_of_other_blocks(body: Seq<NodeView>, b: int)
    requires
        forall|k: int| 0 <= k < body.len() ==> (#[trigger] body[k]).block != b,
    ensures
        insts_of(body, b).len() == 0,
    decreases body.len(),
{
    reveal(Seq::filter);
    if body.len() > 0 {
        let rest = body.drop_last();
        assert forall|k: int| 0 <= k < rest.len() implies (#[trigger] rest[k]).block != b by {
            assert(rest[k] == body[k]);
        }
        lemma_insts_of_other_blocks(rest, b);
        assert(body.last() == body[body.len() - 1]);
    }
}

/// The instructions of a block, where `body` is cut in three at position
/// `t`.
proof fn lemma_insts_split(body: Seq<NodeView>, b: int, t: int)
    requires
        0 <= t < body.len(),
        body[t].block == b,
    ensures
        insts_of(body, b) == insts_of(body.subrange(0, t), b).push(body[t].inst) + insts_of(
            body.subrange(t + 1, body.len() as int),
            b,
        ),
{
    let pred = |n: NodeView| n.block == b;
    let head = body.subrange(0, t);
    let mid = seq![body[t]];
    let tail = body.subrange(t + 1, body.len() as int);
    assert(body =~= head + mid + tail);
    Seq::filter_distributes_over_add(head + mid, tail, pred);
    Seq::filter_distributes_over_add(head, mid, pred);
    assert(mid.filter(pred) =~= mid) by {
        reveal_with_fuel(Seq::filter, 2);
        assert(mid.drop_last() =~= Seq::<NodeView>::empty());
    }
    assert(insts_of(body, b) =~= insts_of(head, b).push(body[t].inst) + insts_of(tail, b));
}

/// In a finished module every block holds exactly one terminator, and the
/// terminator is the last instruction of the block.
pub proof fn lemma_blocks_end_in_their_one_terminator(m: ModuleView, f: int, b: int)
    requires
        m.finished(),
        0 <= f < m.functions.len(),
        0 <= b < m.functions[f].blocks.len(),
    ensures
        ({
            let insts = m.functions[f].block_insts(b);
            &&& insts.len() > 0
            &&& insts.last().is_terminator()
            &&& forall|i: int| 0 <= i < insts.len() - 1 ==> !(#[trigger] insts[i]).is_terminator()
        }),
{
    reveal(ModuleView::wf);
    let fun = m.functions[f];
    assert(m.function_ok(f));
    assert(fun.is_closed(b));
    let recorded = fun.blocks[b];
    let t = recorded.terminator->0 as int;
    let head = fun.body.subrange(0, t);
    let tail = fun.body.subrange(t + 1, fun.body.len() as int);
    assert forall|k: int| 0 <= k < head.len() && (#[trigger] head[k]).block == b implies !head[k].inst.is_terminator() by {
        assert(head[k] == fun.body[k]);
    }
    assert forall|k: int| 0 <= k < tail.len() implies (#[trigger] tail[k]).block != b by {
        assert(tail[k] == fun.body[k + t + 1]);
    }
    lemma_insts_without_terminator(head, b);
    lemma_insts_of_other_blocks(tail, b);
    lemma_insts_split(fun.body, b, t);
    let insts = fun.block_insts(b);
    assert(insts =~= insts_of(head, b).push(fun.body[t].inst));
    assert forall|i: int| 0 <= i < insts.len() - 1 implies !(#[trigger] insts[i]).is_terminator() by {
        assert(insts[i] == insts_of(head, b)[i]);
    }
}

/// Once a function is declared its name is taken: whatever is declared
/// under that name afterwards is refused as a duplicate, and the module
/// stays as it is.
pub proof fn lemma_declared_name_is_taken(
    before: CodeGenView,
    name: Seq<char>,
    params: Seq<Ty>,
    ret: Option<Ty>,
)
    requires
        before.declare_error(name) is None,
    ensures
        before.with_function(name, params, ret).declare_error(name) == Some(
            BuildError::DuplicateDefinition,
        ),
{
    let after = before.with_function(name, params, ret);
    assert(after.module.functions[before.module.functions.len() as int].name == name);
}

/// A call with another number of arguments than the callee declares is
/// refused for its arity, whatever the arguments are and whatever its value
/// is called.
pub proof fn lemma_wrong_arity_is_refused(
    cg: CodeGenView,
    callee: FunctionHandle,
    args: Seq<Value>,
    name: Seq<char>,
)
    requires
        cg.insertion_error() is None,
        cg.has_function(callee),
        args.len() != cg.function(callee).params.len(),
    ensures
        cg.call_error(callee, args, name) == Some(BuildError::ArityMismatch),
{
}

/// A call of a function that is not declared is refused as unresolved,
/// whatever the arguments are and whatever its value is called.
pub proof fn lemma_unknown_callee_is_refused(
    cg: CodeGenView,
    callee: FunctionHandle,
    args: Seq<Value>,
    name: Seq<char>,
)
    requires
        cg.insertion_error() is None,
        !cg.has_function(callee),
    ensures
        cg.call_error(callee, args, name) == Some(BuildError::UnresolvedCallee),
{
}

/// Where every argument from position `from` on can be passed for its
/// parameter, no argument is refused.
proof fn lemma_no_args_error(cg: CodeGenView, args: Seq<Value>, params: Seq<Ty>, from: int)
    requires
        0 <= from,
        forall|j: int| from <= j < args.len() ==> cg.operand_error(#[trigger] args[j], params[j]) is None,
    ensures
        cg.args_error(args, params, from) is None,
    decreases args.len() - from,
{
    if from < args.len() {
        lemma_no_args_error(cg, args, params, from + 1);
    }
}

/// A function can call itself while it is being built: the call is
/// accepted as soon as the function is declared, the arguments are what it
/// declares and the name for its value holds no NUL character, however
/// little of its body exists.
pub proof fn lemma_self_call_is_accepted(cg: CodeGenView, args: Seq<Value>, name: Seq<char>)
    requires
        cg.wf(),
        cg.insertion_error() is None,
        !has_nul(name),
        args.len() == cg.module.functions[cg.position->0.function as int].params.len(),
        forall|j: int|
            0 <= j < args.len() ==> cg.operand_error(
                #[trigger] args[j],
                cg.module.functions[cg.position->0.function as int].params[j],
            ) is None,
    ensures
        cg.call_error(FunctionHandle { index: cg.position->0.function }, args, name) is None,
{
    let own = cg.module.functions[cg.position->0.function as int];
    lemma_no_args_error(cg, args, own.params, 0);
}

} // verus!
