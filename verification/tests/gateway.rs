use mini_codegen::builder::CodeGen;
use mini_codegen::gateway::{
    emit, is_self_contained, jit_lookup, print_ir, signature_matches, Signature,
};
use mini_codegen::finish::FinishedModule;
use mini_codegen::lower::{backend_value, builder_answer, lower};
use mini_codegen::target::{describe_target, resolve_host_target};
use mini_codegen::types::{
    CodeModelKind, Format, GatewayError, Optimization, Relocation, Ty,
};

const PROGRAMS: &str = "; ModuleID = 'main-module'
source_filename = \"main-module\"

define i32 @fibo(i32 %0) gc \"shadow-stack\" {
entry:
  %\"n == 0\" = icmp eq i32 %0, 0
  br i1 %\"n == 0\", label %n_is_0, label %n_is_not_0

n_is_0:                                           ; preds = %entry
  ret i32 0

n_is_not_0:                                       ; preds = %entry
  %\"n == 1\" = icmp eq i32 %0, 1
  br i1 %\"n == 1\", label %n_is_1, label %n_gt_1

n_is_1:                                           ; preds = %n_is_not_0
  ret i32 1

n_gt_1:                                           ; preds = %n_is_not_0
  %\"n - 1\" = sub i32 %0, 1
  %\"n - 2\" = sub i32 %0, 2
  %\"f(n-1)\" = call i32 @fibo(i32 %\"n - 1\")
  %\"f(n-2)\" = call i32 @fibo(i32 %\"n - 2\")
  %\"f(n-1)+f(n-2)\" = add i32 %\"f(n-1)\", %\"f(n-2)\"
  ret i32 %\"f(n-1)+f(n-2)\"
}

declare void @rustlib_print(i32)

define void @user_main() {
entry:
  %\"fibo(10)\" = call i32 @fibo(i32 10)
  call void @rustlib_print(i32 %\"fibo(10)\")
  ret void
}
";

fn programs() -> FinishedModule<'static> {
    let mut cg = CodeGen::new("main-module");
    cg.compile_fibo().unwrap();
    cg.compile_user_main().unwrap();
    cg.finish().unwrap()
}

fn only(build: fn(&mut CodeGen<'static>)) -> FinishedModule<'static> {
    let mut cg = CodeGen::new("main-module");
    build(&mut cg);
    cg.finish().unwrap()
}

fn unary() -> Signature {
    Signature { params: vec![Ty::I32], ret: Some(Ty::I32) }
}

#[test]
fn print_ir_gives_the_text_of_the_programs() {
    assert_eq!(print_ir(&programs()).unwrap(), PROGRAMS);
}

#[test]
fn print_ir_gives_the_text_of_sum() {
    let module = only(|cg| {
        cg.compile_sum().unwrap();
    });
    assert_eq!(
        print_ir(&module).unwrap(),
        "; ModuleID = 'main-module'
source_filename = \"main-module\"

define i32 @sum(i32 %0, i32 %1, i32 %2) {
entry:
  %\"x + y\" = add i32 %0, %1
  %\"x + y + z\" = add i32 %\"x + y\", %2
  ret i32 %\"x + y + z\"
}
"
    );
}

#[test]
fn print_ir_of_an_empty_module() {
    let module = CodeGen::new("nothing").finish().unwrap();
    assert_eq!(
        print_ir(&module).unwrap(),
        "; ModuleID = 'nothing'\nsource_filename = \"nothing\"\n"
    );
}

#[test]
fn print_ir_is_the_same_for_a_module_built_twice() {
    let first = print_ir(&programs()).unwrap();
    let second = print_ir(&programs()).unwrap();
    assert_eq!(first.as_bytes(), second.as_bytes());
    let module = programs();
    assert_eq!(print_ir(&module).unwrap(), print_ir(&module).unwrap());
}

#[test]
fn print_ir_shows_the_target_once_it_is_set() {
    let machine = resolve_host_target().unwrap();
    let mut cg = CodeGen::new("main-module");
    cg.set_target(&machine).unwrap();
    cg.compile_fibo().unwrap();
    let module = cg.finish().unwrap();
    let text = print_ir(&module).unwrap();
    assert!(text.contains(&format!("target triple = \"{}\"", machine.triple)));
    assert!(text.contains(&format!("target datalayout = \"{}\"", machine.data_layout)));
    assert!(text.contains("define i32 @fibo(i32 %0) gc \"shadow-stack\" {"));
    assert!(!print_ir(&programs()).unwrap().contains("target triple"));
}

#[test]
fn print_ir_shows_booleans_and_branches() {
    let module = only(|cg| {
        let f = cg.declare_function("pick", vec![Ty::Bool, Ty::I32], Some(Ty::Bool)).unwrap();
        let entry = cg.append_block(f, "entry").unwrap();
        let exit = cg.append_block(f, "exit").unwrap();
        cg.position_at(entry).unwrap();
        cg.emit_branch(exit).unwrap();
        cg.position_at(exit).unwrap();
        let flag = cg.param(f, 0).unwrap();
        cg.emit_return(Some(flag)).unwrap();
    });
    assert_eq!(
        print_ir(&module).unwrap(),
        "; ModuleID = 'main-module'
source_filename = \"main-module\"

define i1 @pick(i1 %0, i32 %1) {
entry:
  br label %exit

exit:                                             ; preds = %entry
  ret i1 %0
}
"
    );
}

#[test]
fn print_ir_shows_the_names_of_values() {
    let module = only(|cg| {
        let f = cg.declare_function("f", vec![Ty::I32], Some(Ty::I32)).unwrap();
        let entry = cg.append_block(f, "entry").unwrap();
        cg.position_at(entry).unwrap();
        let x = cg.param(f, 0).unwrap();
        let twice = cg.emit_add(x, x, "twice").unwrap();
        let less = cg.emit_sub(twice, x, "").unwrap();
        let more = cg.emit_add(less, twice, "twice").unwrap();
        let deep = cg.emit_call(f, vec![more], "f of more").unwrap().unwrap();
        cg.emit_icmp_eq(deep, x, "is x").unwrap();
        cg.emit_return(Some(deep)).unwrap();
    });
    assert_eq!(
        print_ir(&module).unwrap(),
        "; ModuleID = 'main-module'
source_filename = \"main-module\"

define i32 @f(i32 %0) {
entry:
  %twice = add i32 %0, %0
  %1 = sub i32 %twice, %0
  %twice1 = add i32 %1, %twice
  %\"f of more\" = call i32 @f(i32 %twice1)
  %\"is x\" = icmp eq i32 %\"f of more\", %0
  ret i32 %\"f of more\"
}
"
    );
}

#[test]
fn a_module_name_with_a_nul_is_not_lowered() {
    let mut cg = CodeGen::new("main\0module");
    cg.compile_sum().unwrap();
    let module = cg.finish().unwrap();
    assert_eq!(print_ir(&module), Err(GatewayError::LoweringError));
    let context = inkwell::context::Context::create();
    assert!(matches!(lower(&module, &context), Err(GatewayError::LoweringError)));
    let sum = Signature { params: vec![Ty::I32, Ty::I32, Ty::I32], ret: Some(Ty::I32) };
    assert!(matches!(
        jit_lookup(&module, &context, "sum", sum),
        Err(GatewayError::LoweringError)
    ));
}

#[test]
fn lower_gives_a_module_of_the_backend() {
    let context = inkwell::context::Context::create();
    let lowered = lower(&programs(), &context).unwrap();
    assert_eq!(lowered.get_name().to_str(), Ok("main-module"));
    assert!(lowered.get_function("fibo").is_some());
    assert!(lowered.get_function("rustlib_print").is_some());
    assert!(lowered.get_function("user_main").is_some());
    assert!(lowered.get_function("sum").is_none());
    assert_eq!(lowered.get_function("fibo").unwrap().count_basic_blocks(), 5);
    assert_eq!(lowered.get_function("fibo").unwrap().count_params(), 1);
    assert_eq!(lowered.get_function("rustlib_print").unwrap().count_basic_blocks(), 0);
    assert!(lowered.verify().is_ok());
}

#[test]
fn resolve_host_target_describes_a_generic_machine() {
    let machine = resolve_host_target().unwrap();
    assert_eq!(machine.cpu, "generic");
    assert_eq!(machine.features, "");
    assert_eq!(machine.optimization, Optimization::Off);
    assert_eq!(machine.relocation, Relocation::TargetDefault);
    assert_eq!(machine.code_model, CodeModelKind::TargetDefault);
    assert!(!machine.triple.is_empty());
    assert!(!machine.data_layout.is_empty());
    assert_eq!(machine.handle.get_cpu().to_string(), "generic");
    assert_eq!(machine.handle.get_triple().as_str().to_str(), Ok(machine.triple.as_str()));
    let again = resolve_host_target().unwrap();
    assert_eq!(again.triple, machine.triple);
    assert_eq!(again.data_layout, machine.data_layout);
}

#[test]
fn a_missing_machine_is_an_unsupported_target() {
    let described = describe_target(
        "no-such-triple".to_string(),
        "generic",
        "",
        Optimization::Off,
        Relocation::TargetDefault,
        CodeModelKind::TargetDefault,
        None,
    );
    assert_eq!(described.err(), Some(GatewayError::UnsupportedTarget));
}

#[test]
fn emit_gives_assembly_text() {
    let machine = resolve_host_target().unwrap();
    let bytes = emit(&programs(), &machine, Format::Assembly).unwrap();
    let text = String::from_utf8(bytes).unwrap();
    assert!(text.contains("fibo:"));
    assert!(text.contains("user_main:"));
    assert!(text.contains("rustlib_print"));
}

#[test]
fn emit_gives_an_object_file() {
    let machine = resolve_host_target().unwrap();
    let bytes = emit(&programs(), &machine, Format::Object).unwrap();
    assert!(bytes.len() > 4);
    assert_eq!(&bytes[0..4], &[0x7f, b'E', b'L', b'F']);
    let text = emit(&programs(), &machine, Format::Assembly).unwrap();
    assert_ne!(bytes, text);
}

#[test]
fn emit_twice_gives_the_same_bytes() {
    let machine = resolve_host_target().unwrap();
    let module = programs();
    let first = emit(&module, &machine, Format::Object).unwrap();
    let second = emit(&module, &machine, Format::Object).unwrap();
    assert_eq!(first, second);
    let first = emit(&module, &machine, Format::Assembly).unwrap();
    let second = emit(&module, &machine, Format::Assembly).unwrap();
    assert_eq!(first, second);
}

#[test]
fn jit_lookup_resolves_fibo() {
    let module = only(|cg| {
        cg.compile_fibo().unwrap();
        cg.compile_sum().unwrap();
    });
    let context = inkwell::context::Context::create();
    let fibo = jit_lookup(&module, &context, "fibo", unary()).ok().unwrap();
    assert_ne!(fibo.address, 0);
    assert_eq!(fibo.signature, unary());
    let ternary = Signature { params: vec![Ty::I32, Ty::I32, Ty::I32], ret: Some(Ty::I32) };
    let sum = jit_lookup(&module, &context, "sum", ternary.clone()).ok().unwrap();
    assert_ne!(sum.address, 0);
    assert_eq!(sum.signature, ternary);
    assert_ne!(sum.address, fibo.address);
}

#[test]
fn jit_lookup_does_not_know_undeclared_names() {
    let module = only(|cg| {
        cg.compile_fibo().unwrap();
    });
    let context = inkwell::context::Context::create();
    assert_eq!(
        jit_lookup(&module, &context, "nothing", unary()).err(),
        Some(GatewayError::SymbolNotFound)
    );
    assert_eq!(
        jit_lookup(&module, &context, "", unary()).err(),
        Some(GatewayError::SymbolNotFound)
    );
}

#[test]
fn jit_lookup_checks_the_signature() {
    let module = only(|cg| {
        cg.compile_fibo().unwrap();
    });
    let context = inkwell::context::Context::create();
    for expected in [
        Signature { params: vec![], ret: Some(Ty::I32) },
        Signature { params: vec![Ty::I32, Ty::I32], ret: Some(Ty::I32) },
        Signature { params: vec![Ty::Bool], ret: Some(Ty::I32) },
        Signature { params: vec![Ty::I32], ret: Some(Ty::Bool) },
        Signature { params: vec![Ty::I32], ret: None },
    ] {
        assert_eq!(
            jit_lookup(&module, &context, "fibo", expected).err(),
            Some(GatewayError::SignatureMismatch)
        );
    }
}

#[test]
fn jit_lookup_needs_a_body_for_everything_that_is_called() {
    let module = programs();
    let context = inkwell::context::Context::create();
    assert!(!is_self_contained(&module));
    assert_eq!(
        jit_lookup(&module, &context, "fibo", unary()).err(),
        Some(GatewayError::SymbolNotFound)
    );
    let printer = Signature { params: vec![Ty::I32], ret: None };
    assert_eq!(
        jit_lookup(&module, &context, "rustlib_print", printer.clone()).err(),
        Some(GatewayError::SymbolNotFound)
    );
    let declared = only(|cg| {
        cg.declare_function("rustlib_print", vec![Ty::I32], None).unwrap();
    });
    assert!(is_self_contained(&declared));
    assert_eq!(
        jit_lookup(&declared, &context, "rustlib_print", printer).err(),
        Some(GatewayError::SymbolNotFound)
    );
}

#[test]
fn signatures_are_compared() {
    assert!(signature_matches(&vec![Ty::I32], Some(Ty::I32), &unary()));
    assert!(!signature_matches(&vec![Ty::I32], None, &unary()));
    assert!(!signature_matches(&vec![Ty::Bool], Some(Ty::I32), &unary()));
    assert!(!signature_matches(&vec![], Some(Ty::I32), &unary()));
    assert!(!signature_matches(&vec![Ty::I32, Ty::I32], Some(Ty::I32), &unary()));
    assert!(signature_matches(&vec![], None, &Signature { params: vec![], ret: None }));
}

#[test]
fn answers_of_the_backend_are_taken_as_they_come() {
    assert_eq!(builder_answer::<u32>(Ok(3)), Ok(3));
    assert_eq!(
        builder_answer::<u32>(Err(inkwell::builder::BuilderError::UnsetPosition)),
        Err(GatewayError::LoweringError)
    );
    assert_eq!(backend_value(Some(7u8)), Ok(7u8));
    assert_eq!(backend_value::<u8>(None), Err(GatewayError::LoweringError));
    assert_eq!(backend_value(Some(vec![1u8, 2, 3])), Ok(vec![1u8, 2, 3]));
}
