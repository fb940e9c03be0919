use mini_codegen::builder::CodeGen;
use mini_codegen::finish::FinishedModule;
use mini_codegen::semantics::{interpret, Outcome};
use mini_codegen::types::{FunctionHandle, Origin, Ty, Value};

fn programs() -> FinishedModule<'static> {
    let mut cg = CodeGen::new("main-module");
    cg.compile_fibo().unwrap();
    cg.compile_sum().unwrap();
    cg.compile_user_main().unwrap();
    cg.finish().unwrap()
}

const FIBO: FunctionHandle = FunctionHandle { index: 0 };
const SUM: FunctionHandle = FunctionHandle { index: 1 };
const PRINT: FunctionHandle = FunctionHandle { index: 2 };
const USER_MAIN: FunctionHandle = FunctionHandle { index: 3 };

fn fibo(module: &FinishedModule, n: u32) -> Outcome {
    interpret(module.ir(), FIBO, &vec![n], 1_000_000)
}

#[test]
fn fibo_of_0_is_0() {
    assert_eq!(fibo(&programs(), 0), Outcome::Return(Some(0)));
}

#[test]
fn fibo_of_1_is_1() {
    assert_eq!(fibo(&programs(), 1), Outcome::Return(Some(1)));
}

#[test]
fn fibo_of_10_is_55() {
    assert_eq!(fibo(&programs(), 10), Outcome::Return(Some(55)));
}

#[test]
fn fibo_is_the_sum_of_the_two_before() {
    let module = programs();
    let mut values: Vec<u32> = Vec::new();
    for n in 0..20 {
        match fibo(&module, n) {
            Outcome::Return(Some(v)) => values.push(v),
            other => panic!("fibo({}) gave {:?}", n, other),
        }
    }
    for n in 2..20 {
        assert_eq!(values[n], values[n - 1] + values[n - 2]);
    }
    assert_eq!(values, vec![
        0, 1, 1, 2, 3, 5, 8, 13, 21, 34, 55, 89, 144, 233, 377, 610, 987, 1597, 2584, 4181,
    ]);
}

#[test]
fn fibo_returns_within_four_steps_for_each_unit_and_two_more() {
    let module = programs();
    for n in 0..15u32 {
        let fuel = 4 * u64::from(n) + 2;
        assert!(matches!(interpret(module.ir(), FIBO, &vec![n], fuel), Outcome::Return(Some(_))));
    }
    assert_eq!(interpret(module.ir(), FIBO, &vec![10], 42), Outcome::Return(Some(55)));
}

#[test]
fn fibo_runs_out_of_steps_when_it_has_too_few() {
    let module = programs();
    assert_eq!(interpret(module.ir(), FIBO, &vec![0], 2), Outcome::Return(Some(0)));
    assert_eq!(interpret(module.ir(), FIBO, &vec![0], 1), Outcome::OutOfSteps);
    assert_eq!(interpret(module.ir(), FIBO, &vec![1], 3), Outcome::Return(Some(1)));
    assert_eq!(interpret(module.ir(), FIBO, &vec![1], 2), Outcome::OutOfSteps);
    assert_eq!(interpret(module.ir(), FIBO, &vec![10], 39), Outcome::Return(Some(55)));
    assert_eq!(interpret(module.ir(), FIBO, &vec![10], 38), Outcome::OutOfSteps);
    assert_eq!(interpret(module.ir(), FIBO, &vec![10], 0), Outcome::OutOfSteps);
}

#[test]
fn sum_adds_its_arguments() {
    let module = programs();
    assert_eq!(interpret(module.ir(), SUM, &vec![1, 2, 3], 1), Outcome::Return(Some(6)));
    assert_eq!(interpret(module.ir(), SUM, &vec![0, 0, 0], 1), Outcome::Return(Some(0)));
    assert_eq!(interpret(module.ir(), SUM, &vec![10, 20, 12], 5), Outcome::Return(Some(42)));
    assert_eq!(
        interpret(module.ir(), SUM, &vec![1_000_000, 2_000_000, 3_000_000], 1),
        Outcome::Return(Some(6_000_000))
    );
}

#[test]
fn sum_wraps_around() {
    let module = programs();
    assert_eq!(interpret(module.ir(), SUM, &vec![u32::MAX, 1, 0], 1), Outcome::Return(Some(0)));
    assert_eq!(interpret(module.ir(), SUM, &vec![u32::MAX, 1, 5], 1), Outcome::Return(Some(5)));
    assert_eq!(
        interpret(module.ir(), SUM, &vec![u32::MAX, u32::MAX, u32::MAX], 1),
        Outcome::Return(Some(u32::MAX - 2))
    );
}

#[test]
fn a_run_needs_the_declared_number_of_arguments() {
    let module = programs();
    assert_eq!(interpret(module.ir(), SUM, &vec![1, 2], 9), Outcome::Stuck);
    assert_eq!(interpret(module.ir(), SUM, &vec![1, 2, 3, 4], 9), Outcome::Stuck);
    assert_eq!(interpret(module.ir(), FIBO, &vec![], 9), Outcome::Stuck);
    assert_eq!(interpret(module.ir(), SUM, &vec![1, 2, 3], 0), Outcome::OutOfSteps);
}

#[test]
fn a_function_without_a_body_has_no_outcome() {
    let module = programs();
    assert_eq!(interpret(module.ir(), PRINT, &vec![1], 9), Outcome::Stuck);
    assert_eq!(interpret(module.ir(), USER_MAIN, &vec![], 1_000), Outcome::Stuck);
    assert_eq!(interpret(module.ir(), USER_MAIN, &vec![], 30), Outcome::OutOfSteps);
    assert_eq!(interpret(module.ir(), FunctionHandle { index: 4 }, &vec![], 9), Outcome::Stuck);
}

#[test]
fn a_procedure_returns_nothing() {
    let mut cg = CodeGen::new("m");
    let quiet = cg.declare_function("quiet", vec![Ty::I32], None).unwrap();
    let caller = cg.declare_function("caller", vec![], Some(Ty::I32)).unwrap();
    let b = cg.append_block(quiet, "entry").unwrap();
    cg.position_at(b).unwrap();
    cg.emit_return(None).unwrap();
    let b = cg.append_block(caller, "entry").unwrap();
    cg.position_at(b).unwrap();
    let seven = cg.emit_const(7).unwrap();
    assert_eq!(cg.emit_call(quiet, vec![seven], ""), Ok(None));
    cg.emit_return(Some(seven)).unwrap();
    let module = cg.finish().unwrap();
    assert_eq!(interpret(module.ir(), quiet, &vec![3], 1), Outcome::Return(None));
    assert_eq!(interpret(module.ir(), caller, &vec![], 3), Outcome::Return(Some(7)));
    assert_eq!(interpret(module.ir(), caller, &vec![], 2), Outcome::OutOfSteps);
    assert_eq!(interpret(module.ir(), caller, &vec![], 1), Outcome::OutOfSteps);
}

#[test]
fn subtraction_wraps_around_and_comparison_gives_one_or_zero() {
    let mut cg = CodeGen::new("m");
    let less = cg.declare_function("less", vec![Ty::I32, Ty::I32], Some(Ty::I32)).unwrap();
    let b = cg.append_block(less, "entry").unwrap();
    cg.position_at(b).unwrap();
    let x = Value { function: 0, origin: Origin::Param, index: 0 };
    let y = Value { function: 0, origin: Origin::Param, index: 1 };
    let d = cg.emit_sub(x, y, "").unwrap();
    cg.emit_return(Some(d)).unwrap();
    let same = cg.declare_function("same", vec![Ty::I32, Ty::I32], Some(Ty::Bool)).unwrap();
    let b = cg.append_block(same, "entry").unwrap();
    cg.position_at(b).unwrap();
    let x = Value { function: 1, origin: Origin::Param, index: 0 };
    let y = Value { function: 1, origin: Origin::Param, index: 1 };
    let e = cg.emit_icmp_eq(x, y, "").unwrap();
    cg.emit_return(Some(e)).unwrap();
    let module = cg.finish().unwrap();
    assert_eq!(interpret(module.ir(), less, &vec![5, 3], 1), Outcome::Return(Some(2)));
    assert_eq!(interpret(module.ir(), less, &vec![3, 5], 1), Outcome::Return(Some(u32::MAX - 1)));
    assert_eq!(interpret(module.ir(), less, &vec![0, 1], 1), Outcome::Return(Some(u32::MAX)));
    assert_eq!(interpret(module.ir(), less, &vec![0, u32::MAX], 1), Outcome::Return(Some(1)));
    assert_eq!(interpret(module.ir(), same, &vec![4, 4], 1), Outcome::Return(Some(1)));
    assert_eq!(interpret(module.ir(), same, &vec![4, 5], 1), Outcome::Return(Some(0)));
}

#[test]
fn a_loop_runs_out_of_steps() {
    let mut cg = CodeGen::new("m");
    let f = cg.declare_function("spin", vec![], None).unwrap();
    let entry = cg.append_block(f, "entry").unwrap();
    cg.position_at(entry).unwrap();
    cg.emit_branch(entry).unwrap();
    let module = cg.finish().unwrap();
    assert_eq!(interpret(module.ir(), f, &vec![], 1_000), Outcome::OutOfSteps);
}

#[test]
fn a_read_of_a_value_that_was_not_computed_is_stuck() {
    let mut cg = CodeGen::new("m");
    let f = cg.declare_function("f", vec![Ty::I32], Some(Ty::I32)).unwrap();
    let entry = cg.append_block(f, "entry").unwrap();
    let left = cg.append_block(f, "left").unwrap();
    let right = cg.append_block(f, "right").unwrap();
    let join = cg.append_block(f, "join").unwrap();
    let n = cg.param(f, 0).unwrap();
    cg.position_at(entry).unwrap();
    let one = cg.emit_const(1).unwrap();
    let flag = cg.emit_icmp_eq(n, one, "").unwrap();
    cg.emit_cond_branch(flag, left, right).unwrap();
    cg.position_at(left).unwrap();
    let more = cg.emit_add(n, one, "").unwrap();
    cg.emit_branch(join).unwrap();
    cg.position_at(right).unwrap();
    cg.emit_branch(join).unwrap();
    cg.position_at(join).unwrap();
    cg.emit_return(Some(more)).unwrap();
    let unchecked = cg.module().clone();
    assert_eq!(interpret(&unchecked, f, &vec![1], 100), Outcome::Return(Some(2)));
    assert_eq!(interpret(&unchecked, f, &vec![0], 100), Outcome::Stuck);
    assert_eq!(interpret(&unchecked, f, &vec![7], 100), Outcome::Stuck);
    assert!(cg.finish().is_err());
}

#[test]
fn a_block_without_terminator_is_stuck() {
    let mut cg = CodeGen::new("m");
    let f = cg.declare_function("f", vec![], Some(Ty::I32)).unwrap();
    let entry = cg.append_block(f, "entry").unwrap();
    cg.position_at(entry).unwrap();
    cg.emit_const(1).unwrap();
    let unchecked = cg.module().clone();
    assert_eq!(interpret(&unchecked, f, &vec![], 100), Outcome::Stuck);
    assert!(cg.finish().is_err());
}

#[test]
fn finished_programs_that_call_nothing_from_outside_are_never_stuck() {
    let mut cg = CodeGen::new("m");
    cg.compile_fibo().unwrap();
    cg.compile_sum().unwrap();
    let module = cg.finish().unwrap();
    for n in 0..12u32 {
        for fuel in 0..60u64 {
            assert_ne!(interpret(module.ir(), FIBO, &vec![n], fuel), Outcome::Stuck);
            assert_ne!(interpret(module.ir(), SUM, &vec![n, n, n], fuel), Outcome::Stuck);
        }
    }
}
