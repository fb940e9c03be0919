use mini_codegen::builder::CodeGen;
use mini_codegen::ir::{contains_nul, names_known_strategy, Block, Function, Inst, Node};
use mini_codegen::target::resolve_host_target;
use mini_codegen::types::{
    same_return_type, same_type, BlockHandle, BuildError, FunctionHandle, Origin, Ty, Value,
};

fn param(function: usize, index: usize) -> Value {
    Value { function, origin: Origin::Param, index }
}

fn result(function: usize, index: usize) -> Value {
    Value { function, origin: Origin::Inst, index }
}

/// A builder with `f(i32, i32) -> i32` declared, one open block `entry`,
/// and the insertion point there.
fn started() -> (CodeGen<'static>, FunctionHandle, BlockHandle) {
    let mut cg = CodeGen::new("m");
    let f = cg.declare_function("f", vec![Ty::I32, Ty::I32], Some(Ty::I32)).unwrap();
    let entry = cg.append_block(f, "entry").unwrap();
    cg.position_at(entry).unwrap();
    (cg, f, entry)
}

#[test]
fn a_new_module_is_empty() {
    let cg = CodeGen::new("main-module");
    assert_eq!(cg.module().name, "main-module");
    assert!(cg.module().functions.is_empty());
    assert!(cg.module().target.is_none());
    assert_eq!(cg.position(), None);
}

#[test]
fn functions_are_declared_in_order() {
    let mut cg = CodeGen::new("m");
    let f = cg.declare_function("f", vec![Ty::I32], Some(Ty::I32)).unwrap();
    let g = cg.declare_function("g", vec![], None).unwrap();
    assert_eq!(f, FunctionHandle { index: 0 });
    assert_eq!(g, FunctionHandle { index: 1 });
    assert_eq!(
        cg.module().functions,
        vec![
            Function {
                name: "f".to_string(),
                params: vec![Ty::I32],
                ret: Some(Ty::I32),
                gc: None,
                blocks: vec![],
                body: vec![],
            },
            Function {
                name: "g".to_string(),
                params: vec![],
                ret: None,
                gc: None,
                blocks: vec![],
                body: vec![],
            },
        ]
    );
}

#[test]
fn a_second_declaration_of_a_name_is_refused() {
    let mut cg = CodeGen::new("m");
    cg.declare_function("f", vec![Ty::I32], Some(Ty::I32)).unwrap();
    cg.declare_function("g", vec![], None).unwrap();
    let before = cg.module().functions.clone();
    assert_eq!(cg.declare_function("f", vec![], None), Err(BuildError::DuplicateDefinition));
    assert_eq!(
        cg.declare_function("g", vec![Ty::Bool], Some(Ty::Bool)),
        Err(BuildError::DuplicateDefinition)
    );
    assert_eq!(cg.module().functions, before);
    assert_eq!(cg.position(), None);
}

#[test]
fn functions_are_found_by_name() {
    let mut cg = CodeGen::new("m");
    cg.declare_function("f", vec![], None).unwrap();
    cg.declare_function("g", vec![], None).unwrap();
    assert_eq!(cg.get_function("g"), Ok(FunctionHandle { index: 1 }));
    assert_eq!(cg.get_function("f"), Ok(FunctionHandle { index: 0 }));
    assert_eq!(cg.module().find_function("g"), Some(1));
    assert_eq!(cg.module().find_function("h"), None);
}

#[test]
fn an_undeclared_name_is_unresolved() {
    let mut cg = CodeGen::new("m");
    assert_eq!(cg.get_function("f"), Err(BuildError::UnresolvedCallee));
    cg.declare_function("f", vec![], None).unwrap();
    assert_eq!(cg.get_function("F"), Err(BuildError::UnresolvedCallee));
    assert_eq!(cg.get_function(""), Err(BuildError::UnresolvedCallee));
}

#[test]
fn the_target_is_set_once() {
    let machine = resolve_host_target().unwrap();
    let mut cg = CodeGen::new("m");
    assert_eq!(cg.set_target(&machine), Ok(()));
    assert!(cg.module().target.is_some());
    assert_eq!(cg.set_target(&machine), Err(BuildError::TargetAlreadySet));
    assert!(cg.module().target.is_some());
}

#[test]
fn the_gc_strategy_is_recorded() {
    let mut cg = CodeGen::new("m");
    let f = cg.declare_function("f", vec![], None).unwrap();
    assert_eq!(cg.set_gc(f, "shadow-stack"), Ok(()));
    assert_eq!(cg.module().functions[0].gc, Some("shadow-stack".to_string()));
    assert_eq!(
        cg.set_gc(FunctionHandle { index: 1 }, "shadow-stack"),
        Err(BuildError::UnresolvedCallee)
    );
}

#[test]
fn a_strategy_that_the_backend_is_not_known_to_take_is_refused() {
    let mut cg = CodeGen::new("m");
    let f = cg.declare_function("f", vec![], None).unwrap();
    for name in ["no-such-strategy", "", "shadow-stack ", "Shadow-Stack", "shadow-stack\0", "ocaml"] {
        assert_eq!(cg.set_gc(f, name), Err(BuildError::UnknownStrategy));
        assert_eq!(cg.module().functions[0].gc, None);
    }
    assert_eq!(
        cg.set_gc(FunctionHandle { index: 1 }, "no-such-strategy"),
        Err(BuildError::UnresolvedCallee)
    );
    assert_eq!(cg.set_gc(f, "shadow-stack"), Ok(()));
    assert_eq!(cg.set_gc(f, "other"), Err(BuildError::UnknownStrategy));
    assert_eq!(cg.module().functions[0].gc, Some("shadow-stack".to_string()));
}

#[test]
fn a_name_with_a_nul_character_is_refused() {
    let mut cg = CodeGen::new("m");
    assert_eq!(cg.declare_function("a\0b", vec![], None), Err(BuildError::InvalidName));
    assert_eq!(cg.declare_function("\0", vec![], None), Err(BuildError::InvalidName));
    assert_eq!(cg.declare_function("ab\0", vec![], None), Err(BuildError::InvalidName));
    assert!(cg.module().functions.is_empty());
    let f = cg.declare_function("a", vec![], None).unwrap();
    assert_eq!(cg.declare_function("a\0", vec![], None), Err(BuildError::InvalidName));
    assert_eq!(cg.append_block(f, "entry\0x"), Err(BuildError::InvalidName));
    assert_eq!(cg.append_block(f, "\0entry"), Err(BuildError::InvalidName));
    assert_eq!(
        cg.append_block(FunctionHandle { index: 1 }, "entry\0"),
        Err(BuildError::UnresolvedCallee)
    );
    assert!(cg.module().functions[0].blocks.is_empty());
    cg.append_block(f, "entry").unwrap();
    assert_eq!(cg.append_block(f, "entry\0"), Err(BuildError::InvalidName));
    assert_eq!(cg.module().functions.len(), 1);
    assert_eq!(cg.module().functions[0].blocks.len(), 1);
}

#[test]
fn names_are_searched_for_nul_characters() {
    assert!(!contains_nul(""));
    assert!(!contains_nul("fibo"));
    assert!(!contains_nul("n == 0"));
    assert!(contains_nul("\0"));
    assert!(contains_nul("fibo\0"));
    assert!(contains_nul("fi\0bo"));
    assert!(contains_nul("\u{e9}\0"));
    assert!(!contains_nul("\u{e9}0"));
    assert!(names_known_strategy("shadow-stack"));
    assert!(!names_known_strategy("shadow-stac"));
    assert!(!names_known_strategy(""));
}

#[test]
fn parameters_are_values() {
    let mut cg = CodeGen::new("m");
    let f = cg.declare_function("f", vec![Ty::I32, Ty::Bool], None).unwrap();
    assert_eq!(cg.param(f, 0), Ok(param(0, 0)));
    assert_eq!(cg.param(f, 1), Ok(param(0, 1)));
    assert_eq!(cg.param(f, 2), Err(BuildError::InvalidValue));
    assert_eq!(cg.param(FunctionHandle { index: 3 }, 0), Err(BuildError::UnresolvedCallee));
    assert_eq!(cg.value_type(param(0, 0)), Some(Ty::I32));
    assert_eq!(cg.value_type(param(0, 1)), Some(Ty::Bool));
    assert_eq!(cg.value_type(param(0, 2)), None);
    assert_eq!(cg.value_type(param(1, 0)), None);
}

#[test]
fn blocks_are_appended_in_order() {
    let mut cg = CodeGen::new("m");
    let f = cg.declare_function("f", vec![], None).unwrap();
    let a = cg.append_block(f, "entry").unwrap();
    let b = cg.append_block(f, "exit").unwrap();
    assert_eq!(a, BlockHandle { function: 0, index: 0 });
    assert_eq!(b, BlockHandle { function: 0, index: 1 });
    assert_eq!(
        cg.module().functions[0].blocks,
        vec![
            Block { label: "entry".to_string(), terminator: None },
            Block { label: "exit".to_string(), terminator: None },
        ]
    );
    assert_eq!(cg.position(), None);
}

#[test]
fn a_label_is_used_once_in_a_function() {
    let mut cg = CodeGen::new("m");
    let f = cg.declare_function("f", vec![], None).unwrap();
    let g = cg.declare_function("g", vec![], None).unwrap();
    cg.append_block(f, "entry").unwrap();
    let before = cg.module().functions.clone();
    assert_eq!(cg.append_block(f, "entry"), Err(BuildError::DuplicateLabel));
    assert_eq!(cg.module().functions, before);
    assert_eq!(cg.append_block(g, "entry"), Ok(BlockHandle { function: 1, index: 0 }));
    assert_eq!(
        cg.append_block(FunctionHandle { index: 2 }, "entry"),
        Err(BuildError::UnresolvedCallee)
    );
}

#[test]
fn the_insertion_point_moves_to_existing_blocks_only() {
    let mut cg = CodeGen::new("m");
    let f = cg.declare_function("f", vec![], None).unwrap();
    let a = cg.append_block(f, "a").unwrap();
    let b = cg.append_block(f, "b").unwrap();
    assert_eq!(cg.position_at(b), Ok(()));
    assert_eq!(cg.position(), Some(b));
    assert_eq!(cg.position_at(a), Ok(()));
    assert_eq!(cg.position(), Some(a));
    assert_eq!(
        cg.position_at(BlockHandle { function: 0, index: 2 }),
        Err(BuildError::InvalidBlock)
    );
    assert_eq!(
        cg.position_at(BlockHandle { function: 1, index: 0 }),
        Err(BuildError::InvalidBlock)
    );
    assert_eq!(cg.position(), Some(a));
}

#[test]
fn nothing_is_emitted_without_an_insertion_point() {
    let mut cg = CodeGen::new("m");
    let f = cg.declare_function("f", vec![Ty::I32], Some(Ty::I32)).unwrap();
    cg.append_block(f, "entry").unwrap();
    let n = param(0, 0);
    let block = BlockHandle { function: 0, index: 0 };
    assert_eq!(cg.emit_const(1), Err(BuildError::NoInsertionPoint));
    assert_eq!(cg.emit_add(n, n, ""), Err(BuildError::NoInsertionPoint));
    assert_eq!(cg.emit_sub(n, n, ""), Err(BuildError::NoInsertionPoint));
    assert_eq!(cg.emit_icmp_eq(n, n, ""), Err(BuildError::NoInsertionPoint));
    assert_eq!(cg.emit_call(f, vec![n], ""), Err(BuildError::NoInsertionPoint));
    assert_eq!(cg.emit_cond_branch(n, block, block), Err(BuildError::NoInsertionPoint));
    assert_eq!(cg.emit_branch(block), Err(BuildError::NoInsertionPoint));
    assert_eq!(cg.emit_return(Some(n)), Err(BuildError::NoInsertionPoint));
    assert!(cg.module().functions[0].body.is_empty());
}

#[test]
fn instructions_are_appended_at_the_insertion_point() {
    let (mut cg, _, _) = started();
    let x = param(0, 0);
    let y = param(0, 1);
    let c = cg.emit_const(7).unwrap();
    let s = cg.emit_add(x, c, "x + 7").unwrap();
    let d = cg.emit_sub(s, y, "x + 7 - y").unwrap();
    let e = cg.emit_icmp_eq(d, x, "").unwrap();
    assert_eq!(c, result(0, 0));
    assert_eq!(s, result(0, 1));
    assert_eq!(d, result(0, 2));
    assert_eq!(e, result(0, 3));
    assert_eq!(
        cg.module().functions[0].body,
        vec![
            Node { block: 0, name: String::new(), inst: Inst::Const { number: 7 } },
            Node { block: 0, name: "x + 7".to_string(), inst: Inst::Add { lhs: x, rhs: c } },
            Node { block: 0, name: "x + 7 - y".to_string(), inst: Inst::Sub { lhs: s, rhs: y } },
            Node { block: 0, name: String::new(), inst: Inst::Equal { lhs: d, rhs: x } },
        ]
    );
    assert_eq!(cg.value_type(c), Some(Ty::I32));
    assert_eq!(cg.value_type(s), Some(Ty::I32));
    assert_eq!(cg.value_type(d), Some(Ty::I32));
    assert_eq!(cg.value_type(e), Some(Ty::Bool));
    assert_eq!(cg.module().functions[0].blocks[0].terminator, None);
}

#[test]
fn arithmetic_takes_integers_only() {
    let (mut cg, _, _) = started();
    let x = param(0, 0);
    let flag = cg.emit_icmp_eq(x, x, "").unwrap();
    let before = cg.module().functions.clone();
    assert_eq!(cg.emit_add(flag, x, ""), Err(BuildError::TypeMismatch));
    assert_eq!(cg.emit_add(x, flag, ""), Err(BuildError::TypeMismatch));
    assert_eq!(cg.emit_sub(flag, flag, ""), Err(BuildError::TypeMismatch));
    assert_eq!(cg.emit_icmp_eq(x, flag, ""), Err(BuildError::TypeMismatch));
    assert_eq!(cg.module().functions, before);
}

#[test]
fn values_of_other_functions_cannot_be_read() {
    let mut cg = CodeGen::new("m");
    let f = cg.declare_function("f", vec![Ty::I32], Some(Ty::I32)).unwrap();
    let g = cg.declare_function("g", vec![Ty::I32], Some(Ty::I32)).unwrap();
    let in_f = cg.append_block(f, "entry").unwrap();
    let in_g = cg.append_block(g, "entry").unwrap();
    cg.position_at(in_f).unwrap();
    let c = cg.emit_const(1).unwrap();
    cg.position_at(in_g).unwrap();
    let own = param(1, 0);
    let before = cg.module().functions.clone();
    assert_eq!(cg.emit_add(c, own, ""), Err(BuildError::InvalidValue));
    assert_eq!(cg.emit_add(own, param(0, 0), ""), Err(BuildError::InvalidValue));
    assert_eq!(cg.emit_return(Some(c)), Err(BuildError::InvalidValue));
    assert_eq!(cg.module().functions, before);
}

#[test]
fn values_that_do_not_exist_cannot_be_read() {
    let (mut cg, _, _) = started();
    let x = param(0, 0);
    assert_eq!(cg.emit_add(x, result(0, 0), ""), Err(BuildError::InvalidValue));
    assert_eq!(cg.emit_add(param(0, 2), x, ""), Err(BuildError::InvalidValue));
    assert_eq!(cg.emit_add(x, param(5, 0), ""), Err(BuildError::InvalidValue));
    cg.emit_return(Some(x)).unwrap();
    assert_eq!(cg.value_type(result(0, 0)), None);
}

#[test]
fn a_conditional_branch_closes_the_block() {
    let (mut cg, f, entry) = started();
    let yes = cg.append_block(f, "yes").unwrap();
    let no = cg.append_block(f, "no").unwrap();
    let x = param(0, 0);
    let flag = cg.emit_icmp_eq(x, x, "").unwrap();
    assert_eq!(cg.emit_cond_branch(flag, yes, no), Ok(()));
    assert_eq!(cg.module().functions[0].blocks[0].terminator, Some(1));
    assert_eq!(
        cg.module().functions[0].body[1],
        Node { block: 0, name: String::new(), inst: Inst::CondBr { cond: flag, if_true: 1, if_false: 2 } }
    );
    assert_eq!(cg.position(), Some(entry));
    let before = cg.module().functions.clone();
    assert_eq!(cg.emit_const(1), Err(BuildError::BlockAlreadyTerminated));
    assert_eq!(cg.emit_add(x, x, ""), Err(BuildError::BlockAlreadyTerminated));
    assert_eq!(cg.emit_sub(x, x, ""), Err(BuildError::BlockAlreadyTerminated));
    assert_eq!(cg.emit_icmp_eq(x, x, ""), Err(BuildError::BlockAlreadyTerminated));
    assert_eq!(cg.emit_call(f, vec![x, x], ""), Err(BuildError::BlockAlreadyTerminated));
    assert_eq!(cg.emit_cond_branch(flag, yes, no), Err(BuildError::BlockAlreadyTerminated));
    assert_eq!(cg.emit_branch(yes), Err(BuildError::BlockAlreadyTerminated));
    assert_eq!(cg.emit_return(Some(x)), Err(BuildError::BlockAlreadyTerminated));
    assert_eq!(cg.module().functions, before);
}

#[test]
fn a_conditional_branch_takes_a_boolean_and_blocks_of_the_function() {
    let mut cg = CodeGen::new("m");
    let f = cg.declare_function("f", vec![Ty::I32], None).unwrap();
    let g = cg.declare_function("g", vec![], None).unwrap();
    let entry = cg.append_block(f, "entry").unwrap();
    let next = cg.append_block(f, "next").unwrap();
    let other = cg.append_block(g, "entry").unwrap();
    cg.position_at(entry).unwrap();
    let x = param(0, 0);
    let flag = cg.emit_icmp_eq(x, x, "").unwrap();
    assert_eq!(cg.emit_cond_branch(x, next, next), Err(BuildError::TypeMismatch));
    assert_eq!(cg.emit_cond_branch(flag, other, next), Err(BuildError::InvalidBlock));
    assert_eq!(cg.emit_cond_branch(flag, next, other), Err(BuildError::InvalidBlock));
    assert_eq!(
        cg.emit_cond_branch(flag, next, BlockHandle { function: 0, index: 2 }),
        Err(BuildError::InvalidBlock)
    );
    assert_eq!(cg.emit_branch(other), Err(BuildError::InvalidBlock));
    assert_eq!(cg.module().functions[0].blocks[0].terminator, None);
    assert_eq!(cg.emit_cond_branch(flag, next, entry), Ok(()));
}

#[test]
fn a_branch_closes_the_block() {
    let (mut cg, f, _) = started();
    let next = cg.append_block(f, "next").unwrap();
    assert_eq!(cg.emit_branch(next), Ok(()));
    assert_eq!(cg.module().functions[0].body, vec![Node { block: 0, name: String::new(), inst: Inst::Br { target: 1 } }]);
    assert_eq!(cg.module().functions[0].blocks[0].terminator, Some(0));
    assert_eq!(cg.module().functions[0].blocks[1].terminator, None);
    assert_eq!(cg.emit_branch(next), Err(BuildError::BlockAlreadyTerminated));
}

#[test]
fn a_return_must_match_the_declared_type() {
    let mut cg = CodeGen::new("m");
    let f = cg.declare_function("f", vec![Ty::I32], Some(Ty::I32)).unwrap();
    let p = cg.declare_function("p", vec![Ty::I32], None).unwrap();
    let in_f = cg.append_block(f, "entry").unwrap();
    let in_p = cg.append_block(p, "entry").unwrap();

    cg.position_at(in_f).unwrap();
    let x = param(0, 0);
    let flag = cg.emit_icmp_eq(x, x, "").unwrap();
    assert_eq!(cg.emit_return(None), Err(BuildError::TypeMismatch));
    assert_eq!(cg.emit_return(Some(flag)), Err(BuildError::TypeMismatch));
    assert_eq!(cg.emit_return(Some(x)), Ok(()));
    assert_eq!(cg.module().functions[0].blocks[0].terminator, Some(1));

    cg.position_at(in_p).unwrap();
    assert_eq!(cg.emit_return(Some(param(1, 0))), Err(BuildError::TypeMismatch));
    assert_eq!(cg.emit_return(None), Ok(()));
    assert_eq!(
        cg.module().functions[1].body,
        vec![Node { block: 0, name: String::new(), inst: Inst::Ret { value: None } }]
    );
}

#[test]
fn a_call_with_the_wrong_number_of_arguments_is_refused() {
    let (mut cg, f, _) = started();
    let x = param(0, 0);
    let before = cg.module().functions.clone();
    assert_eq!(cg.emit_call(f, vec![], ""), Err(BuildError::ArityMismatch));
    assert_eq!(cg.emit_call(f, vec![x], ""), Err(BuildError::ArityMismatch));
    assert_eq!(cg.emit_call(f, vec![x, x, x], ""), Err(BuildError::ArityMismatch));
    assert_eq!(cg.module().functions, before);
}

#[test]
fn a_call_of_an_undeclared_function_is_refused() {
    let (mut cg, _, _) = started();
    let x = param(0, 0);
    let before = cg.module().functions.clone();
    assert_eq!(
        cg.emit_call(FunctionHandle { index: 1 }, vec![x, x], ""),
        Err(BuildError::UnresolvedCallee)
    );
    assert_eq!(cg.emit_call(FunctionHandle { index: 9 }, vec![], ""), Err(BuildError::UnresolvedCallee));
    assert_eq!(cg.module().functions, before);
}

#[test]
fn a_call_with_an_argument_of_the_wrong_type_is_refused() {
    let (mut cg, f, _) = started();
    let x = param(0, 0);
    let flag = cg.emit_icmp_eq(x, x, "").unwrap();
    let before = cg.module().functions.clone();
    assert_eq!(cg.emit_call(f, vec![x, flag], ""), Err(BuildError::TypeMismatch));
    assert_eq!(cg.emit_call(f, vec![flag, result(0, 7)], ""), Err(BuildError::TypeMismatch));
    assert_eq!(cg.emit_call(f, vec![result(0, 7), flag], ""), Err(BuildError::InvalidValue));
    assert_eq!(cg.module().functions, before);
}

#[test]
fn a_call_gives_a_value_where_the_callee_returns_one() {
    let mut cg = CodeGen::new("m");
    let f = cg.declare_function("f", vec![Ty::I32], Some(Ty::I32)).unwrap();
    let flag = cg.declare_function("flag", vec![], Some(Ty::Bool)).unwrap();
    let p = cg.declare_function("p", vec![Ty::I32], None).unwrap();
    let entry = cg.append_block(f, "entry").unwrap();
    cg.position_at(entry).unwrap();
    let x = param(0, 0);
    assert_eq!(cg.emit_call(p, vec![x], ""), Ok(None));
    let b = cg.emit_call(flag, vec![], "").unwrap().unwrap();
    assert_eq!(b, result(0, 1));
    assert_eq!(cg.value_type(result(0, 0)), None);
    assert_eq!(cg.value_type(b), Some(Ty::Bool));
    assert_eq!(cg.emit_add(x, result(0, 0), ""), Err(BuildError::InvalidValue));
    assert_eq!(
        cg.module().functions[0].body,
        vec![
            Node { block: 0, name: String::new(), inst: Inst::Call { callee: 2, args: vec![x] } },
            Node { block: 0, name: String::new(), inst: Inst::Call { callee: 1, args: vec![] } },
        ]
    );
}

#[test]
fn a_function_can_call_itself_before_its_body_is_complete() {
    let mut cg = CodeGen::new("m");
    let f = cg.declare_function("f", vec![Ty::I32], Some(Ty::I32)).unwrap();
    let entry = cg.append_block(f, "entry").unwrap();
    cg.position_at(entry).unwrap();
    let n = cg.param(f, 0).unwrap();
    assert!(cg.module().functions[0].body.is_empty());
    let again = cg.emit_call(f, vec![n], "").unwrap();
    assert_eq!(again, Some(result(0, 0)));
    assert_eq!(cg.module().functions[0].blocks[0].terminator, None);
    assert_eq!(cg.emit_return(again), Ok(()));
}

#[test]
fn a_function_can_call_one_that_is_declared_later_in_the_build() {
    let mut cg = CodeGen::new("m");
    let f = cg.declare_function("f", vec![], Some(Ty::I32)).unwrap();
    let g = cg.declare_function("g", vec![], Some(Ty::I32)).unwrap();
    let in_f = cg.append_block(f, "entry").unwrap();
    cg.position_at(in_f).unwrap();
    let v = cg.emit_call(g, vec![], "").unwrap();
    cg.emit_return(v).unwrap();
    let in_g = cg.append_block(g, "entry").unwrap();
    cg.position_at(in_g).unwrap();
    let c = cg.emit_const(3).unwrap();
    cg.emit_return(Some(c)).unwrap();
    assert!(cg.finish().is_ok());
}

#[test]
fn instructions_of_several_blocks_keep_their_order() {
    let (mut cg, f, entry) = started();
    let other = cg.append_block(f, "other").unwrap();
    let a = cg.emit_const(1).unwrap();
    cg.position_at(other).unwrap();
    let b = cg.emit_const(2).unwrap();
    cg.position_at(entry).unwrap();
    let c = cg.emit_const(3).unwrap();
    assert_eq!((a, b, c), (result(0, 0), result(0, 1), result(0, 2)));
    assert_eq!(
        cg.module().functions[0].body,
        vec![
            Node { block: 0, name: String::new(), inst: Inst::Const { number: 1 } },
            Node { block: 1, name: String::new(), inst: Inst::Const { number: 2 } },
            Node { block: 0, name: String::new(), inst: Inst::Const { number: 3 } },
        ]
    );
}

#[test]
fn terminators_are_told_apart() {
    let x = param(0, 0);
    assert!(Inst::Ret { value: None }.is_terminator());
    assert!(Inst::Ret { value: Some(x) }.is_terminator());
    assert!(Inst::Br { target: 0 }.is_terminator());
    assert!(Inst::CondBr { cond: x, if_true: 0, if_false: 1 }.is_terminator());
    assert!(!Inst::Const { number: 0 }.is_terminator());
    assert!(!Inst::Add { lhs: x, rhs: x }.is_terminator());
    assert!(!Inst::Sub { lhs: x, rhs: x }.is_terminator());
    assert!(!Inst::Equal { lhs: x, rhs: x }.is_terminator());
    assert!(!Inst::Call { callee: 0, args: vec![] }.is_terminator());
}

#[test]
fn types_are_compared() {
    assert!(same_type(Ty::I32, Ty::I32));
    assert!(same_type(Ty::Bool, Ty::Bool));
    assert!(!same_type(Ty::I32, Ty::Bool));
    assert!(!same_type(Ty::Bool, Ty::I32));
    assert!(same_return_type(None, None));
    assert!(same_return_type(Some(Ty::I32), Some(Ty::I32)));
    assert!(!same_return_type(Some(Ty::I32), None));
    assert!(!same_return_type(None, Some(Ty::Bool)));
    assert!(!same_return_type(Some(Ty::I32), Some(Ty::Bool)));
}

#[test]
fn a_value_name_with_a_nul_is_refused() {
    let (mut cg, f, _) = started();
    let x = param(0, 0);
    let before = cg.module().functions.clone();
    assert_eq!(cg.emit_add(x, x, "a\0b"), Err(BuildError::InvalidName));
    assert_eq!(cg.emit_sub(x, x, "\0"), Err(BuildError::InvalidName));
    assert_eq!(cg.emit_icmp_eq(x, x, "same\0"), Err(BuildError::InvalidName));
    assert_eq!(cg.emit_call(f, vec![x, x], "\0f"), Err(BuildError::InvalidName));
    assert_eq!(cg.module().functions, before);
    assert_eq!(cg.emit_add(x, x, "a b"), Ok(result(0, 0)));
}

#[test]
fn what_is_wrong_with_an_operand_comes_before_the_name() {
    let (mut cg, f, _) = started();
    let x = param(0, 0);
    let flag = cg.emit_icmp_eq(x, x, "flag").unwrap();
    assert_eq!(cg.emit_add(flag, x, "a\0"), Err(BuildError::TypeMismatch));
    assert_eq!(cg.emit_sub(x, result(0, 9), "a\0"), Err(BuildError::InvalidValue));
    assert_eq!(cg.emit_call(f, vec![x], "a\0"), Err(BuildError::ArityMismatch));
    assert_eq!(cg.emit_call(f, vec![x, flag], "a\0"), Err(BuildError::TypeMismatch));
    assert_eq!(cg.emit_call(FunctionHandle { index: 4 }, vec![], "a\0"), Err(BuildError::UnresolvedCallee));
    cg.emit_return(Some(x)).unwrap();
    assert_eq!(cg.emit_add(x, x, "a\0"), Err(BuildError::BlockAlreadyTerminated));
}

#[test]
fn values_keep_their_names() {
    let (mut cg, f, _) = started();
    let x = param(0, 0);
    let twice = cg.emit_add(x, x, "twice").unwrap();
    let again = cg.emit_call(f, vec![twice, x], "f(twice, x)").unwrap().unwrap();
    let same = cg.emit_icmp_eq(again, twice, "twice").unwrap();
    let zero = cg.emit_sub(x, x, "").unwrap();
    cg.emit_return(Some(zero)).unwrap();
    let names: Vec<&str> = cg.module().functions[0].body.iter().map(|n| n.name.as_str()).collect();
    assert_eq!(names, vec!["twice", "f(twice, x)", "twice", "", ""]);
    assert_eq!(cg.value_type(same), Some(Ty::Bool));
}
