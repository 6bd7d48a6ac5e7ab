use nala::errors::RuntimeError;
use nala::errors::RuntimeErrorKind;
use nala::interpreter::interpret;
use nala::io_context::IoContext;
use nala::io_context::TestContext;
use nala::parser::parse_code;

fn parse_and_interpret(code: &str, ctx: &mut TestContext) -> Result<(), RuntimeError> {
    let program = parse_code(String::from(code)).expect("program should parse");
    interpret(&program, ctx)
}

fn error_kind_of(code: &str) -> RuntimeErrorKind {
    let mut ctx = TestContext::new();
    match parse_and_interpret(code, &mut ctx) {
        Err(e) => e.kind,
        Ok(()) => panic!("expected a runtime error"),
    }
}

#[test]
fn it_runs_for_loops() {
    let mut ctx = TestContext::new();
    let code = "let xs = [1, 2, 3]; for x in xs { print(x); }";
    assert!(parse_and_interpret(code, &mut ctx).is_ok());
    assert_eq!(ctx.get_output(), vec!["1", "2", "3"]);
}

#[test]
fn it_matches_enum_variants() {
    let mut ctx = TestContext::new();
    let code = r#"
        enum Opt<A> { Some(A), None }
        const v = Opt::Some(7);
        match v { Opt::Some(x) => print(x), Opt::None => print('none') }
    "#;
    assert!(parse_and_interpret(code, &mut ctx).is_ok());
    assert_eq!(ctx.get_output(), vec!["7"]);
}

#[test]
fn it_calls_functions() {
    let mut ctx = TestContext::new();
    let code = "func add(a: Number, b: Number): Number { a + b } print(add(2, 3));";
    assert!(parse_and_interpret(code, &mut ctx).is_ok());
    assert_eq!(ctx.get_output(), vec!["5"]);
}

#[test]
fn it_runs_wiles_loops() {
    let mut ctx = TestContext::new();
    let code = "let i = 0; wiles (i < 3) { print(i); i = i + 1; }";
    assert!(parse_and_interpret(code, &mut ctx).is_ok());
    assert_eq!(ctx.get_output(), vec!["0", "1", "2"]);
}

#[test]
fn it_rejects_reassigning_a_const() {
    assert_eq!(error_kind_of("const x = 1; x = 2;"), RuntimeErrorKind::Immutable);
}

#[test]
fn it_rejects_a_mismatched_annotation() {
    assert_eq!(error_kind_of("let x: String = 1;"), RuntimeErrorKind::TypeMismatch);
}

#[test]
fn it_rejects_division_by_zero() {
    assert_eq!(error_kind_of("print(1/0);"), RuntimeErrorKind::DivideByZero);
}

#[test]
fn it_rejects_a_match_with_no_accepting_arm() {
    let code = "enum Opt<A> { Some(A), None } match Opt::Some(1) { Opt::None => 0 }";
    assert_eq!(error_kind_of(code), RuntimeErrorKind::MatchNoArm);
}

#[test]
fn it_observes_array_mutation_through_aliases() {
    let mut ctx = TestContext::new();
    let code = "let a = [1, 2]; let b = a; b[0] = 9; print(a[0]);";
    assert!(parse_and_interpret(code, &mut ctx).is_ok());
    assert_eq!(ctx.get_output(), vec!["9"]);
}

#[test]
fn it_interprets_deterministically() {
    let code = r#"
        let total = 0;
        for n in [1, 2, 3, 4] { total = total + n * n; }
        print(total);
        print(readnum() + 1);
    "#;
    let mut first = TestContext::new_with_input(vec![String::from("41")]);
    let mut second = TestContext::new_with_input(vec![String::from("41")]);
    assert!(parse_and_interpret(code, &mut first).is_ok());
    assert!(parse_and_interpret(code, &mut second).is_ok());
    assert_eq!(first.get_output(), second.get_output());
    assert_eq!(first.get_output(), vec!["30", "42"]);
}

#[test]
fn it_reads_scripted_input() {
    let mut ctx = TestContext::new_with_input(vec![String::from("nala")]);
    let code = "print('hello ' + read());";
    assert!(parse_and_interpret(code, &mut ctx).is_ok());
    assert_eq!(ctx.get_output(), vec!["hello nala"]);
}

#[test]
fn it_keeps_block_bindings_out_of_outer_scopes() {
    let kind = error_kind_of("if true { const inner = 1; } print(inner);");
    assert_eq!(kind, RuntimeErrorKind::UnknownIdent);
}

#[test]
fn it_shadows_outer_bindings_inside_blocks() {
    let mut ctx = TestContext::new();
    let code = "const x = 1; if true { const x = 2; print(x); } print(x);";
    assert!(parse_and_interpret(code, &mut ctx).is_ok());
    assert_eq!(ctx.get_output(), vec!["2", "1"]);
}

#[test]
fn it_mutates_outer_bindings_from_blocks() {
    let mut ctx = TestContext::new();
    let code = "let x = 1; if true { x = 2; } print(x);";
    assert!(parse_and_interpret(code, &mut ctx).is_ok());
    assert_eq!(ctx.get_output(), vec!["2"]);
}

#[test]
fn it_breaks_out_of_loops() {
    let mut ctx = TestContext::new();
    let code = "let i = 0; wiles (true) { print(i); i = i + 1; if i > 1 { break 0; } }";
    assert!(parse_and_interpret(code, &mut ctx).is_ok());
    assert_eq!(ctx.get_output(), vec!["0", "1"]);
}

#[test]
fn it_reads_and_writes_object_members() {
    let mut ctx = TestContext::new();
    let code = "const p = { x: 1, y: 2 }; p.x = 9; print(p.x + p.y);";
    assert!(parse_and_interpret(code, &mut ctx).is_ok());
    assert_eq!(ctx.get_output(), vec!["11"]);
}

#[test]
fn it_rejects_out_of_range_indexes() {
    assert_eq!(error_kind_of("const a = [1]; print(a[4]);"), RuntimeErrorKind::IndexOutOfRange);
}

#[test]
fn it_rejects_unknown_identifiers() {
    assert_eq!(error_kind_of("print(missing);"), RuntimeErrorKind::UnknownIdent);
}

#[test]
fn it_rejects_calls_with_wrong_arity() {
    let code = "func add(a: Number, b: Number): Number { a + b } print(add(2));";
    assert_eq!(error_kind_of(code), RuntimeErrorKind::ArityMismatch);
}

#[test]
fn it_rejects_mismatched_argument_types() {
    let code = "func add(a: Number, b: Number): Number { a + b } print(add(2, 'three'));";
    assert_eq!(error_kind_of(code), RuntimeErrorKind::TypeMismatch);
}

#[test]
fn it_rejects_wrong_return_types() {
    let code = "func shout(): Number { 'loud' } print(shout());";
    assert_eq!(error_kind_of(code), RuntimeErrorKind::ReturnTypeMismatch);
}

#[test]
fn it_rejects_redeclaring_in_the_same_scope() {
    assert_eq!(error_kind_of("const x = 1; const x = 2;"), RuntimeErrorKind::AlreadyBound);
}

#[test]
fn it_rejects_void_declarations() {
    let code = "const x = void(1);";
    assert_eq!(error_kind_of(code), RuntimeErrorKind::VoidAssignment);
}

#[test]
fn it_rejects_numeric_overflow() {
    let code = "const big = 9223372036854775807; print(big + 1);";
    assert_eq!(error_kind_of(code), RuntimeErrorKind::NumericOverflow);
}

#[test]
fn it_rejects_comparing_different_types() {
    assert_eq!(error_kind_of("print(1 == 'one');"), RuntimeErrorKind::OperationUnsupported);
}

#[test]
fn it_coerces_numbers_in_string_concatenation() {
    let mut ctx = TestContext::new();
    let code = "print('n = ' + 42); print(0 - 5 + '!');";
    assert!(parse_and_interpret(code, &mut ctx).is_ok());
    assert_eq!(ctx.get_output(), vec!["n = 42", "-5!"]);
}

#[test]
fn it_compares_strings_and_booleans() {
    let mut ctx = TestContext::new();
    let code = r#"
        if 'apple' < 'banana' { print('ordered'); }
        if false < true { print('bool ordered'); }
        if 3 > 2 { print('num ordered'); }
    "#;
    assert!(parse_and_interpret(code, &mut ctx).is_ok());
    assert_eq!(ctx.get_output(), vec!["ordered", "bool ordered", "num ordered"]);
}

#[test]
fn it_round_trips_variant_payloads() {
    let mut ctx = TestContext::new();
    let code = r#"
        enum Opt<A> { Some(A), None }
        const boxed = Opt::Some(123);
        match boxed { Opt::Some(y) => print(y), _ => print('never') }
    "#;
    assert!(parse_and_interpret(code, &mut ctx).is_ok());
    assert_eq!(ctx.get_output(), vec!["123"]);
}

#[test]
fn it_types_empty_arrays_as_any() {
    let mut ctx = TestContext::new();
    let code = "let xs = []; xs = [1, 2]; print(xs[1]);";
    assert!(parse_and_interpret(code, &mut ctx).is_ok());
    assert_eq!(ctx.get_output(), vec!["2"]);
    assert_eq!(error_kind_of("let xs = []; xs = 'words';"), RuntimeErrorKind::TypeMismatch);
}

#[test]
fn it_constructs_plain_enum_variants() {
    let mut ctx = TestContext::new();
    let code = r#"
        enum Light { Red, Green }
        const l = Light::Green;
        match l { Light::Red => print('stop'), Light::Green => print('go') }
    "#;
    assert!(parse_and_interpret(code, &mut ctx).is_ok());
    assert_eq!(ctx.get_output(), vec!["go"]);
}

#[test]
fn it_compares_variants_by_tag_and_payload() {
    let mut ctx = TestContext::new();
    let code = r#"
        enum Opt<A> { Some(A), None }
        if Opt::Some(1) == Opt::Some(1) { print('same'); }
        if Opt::Some(1) == Opt::Some(2) { print('never'); } else { print('different'); }
    "#;
    assert!(parse_and_interpret(code, &mut ctx).is_ok());
    assert_eq!(ctx.get_output(), vec!["same", "different"]);
}

#[test]
fn it_breaks_out_of_for_loops() {
    let mut ctx = TestContext::new();
    let code = "for x in [1, 2, 3] { print(x); if x == 2 { break 0; } }";
    assert!(parse_and_interpret(code, &mut ctx).is_ok());
    assert_eq!(ctx.get_output(), vec!["1", "2"]);
}

#[test]
fn it_captures_scopes_in_closures() {
    let mut ctx = TestContext::new();
    let code = r#"
        const base = 10;
        func bump(n: Number): Number { n + base }
        print(bump(5));
    "#;
    assert!(parse_and_interpret(code, &mut ctx).is_ok());
    assert_eq!(ctx.get_output(), vec!["15"]);
}

#[test]
fn it_passes_functions_as_values() {
    let mut ctx = TestContext::new();
    let code = r#"
        func double(n: Number): Number { n * 2 }
        func apply(f: Func<Number, Number>, x: Number): Number { f(x) }
        print(apply(double, 21));
    "#;
    assert!(parse_and_interpret(code, &mut ctx).is_ok());
    assert_eq!(ctx.get_output(), vec!["42"]);
}

#[test]
fn it_instantiates_function_type_parameters() {
    let mut ctx = TestContext::new();
    let code = r#"
        func same<A>(x: A): A { x }
        print(same(7));
        print(same('seven'));
    "#;
    assert!(parse_and_interpret(code, &mut ctx).is_ok());
    assert_eq!(ctx.get_output(), vec!["7", "seven"]);
}

#[test]
fn it_prints_containers_and_variants_canonically() {
    let mut ctx = TestContext::new();
    let code = r#"
        enum Opt<A> { Some(A), None }
        print([1, 2]);
        print({ x: 1, y: 2 });
        print(Opt::Some(3));
        print(Opt::None);
    "#;
    assert!(parse_and_interpret(code, &mut ctx).is_ok());
    assert_eq!(
        ctx.get_output(),
        vec!["<Array[2]>", "{ x: 1, y: 2, }", "Opt::Some(3)", "Opt::None"]
    );
}

#[test]
fn it_reads_elements_live_during_iteration() {
    let mut ctx = TestContext::new();
    let code = "let xs = [1, 2]; for x in xs { print(x); xs[1] = 9; }";
    assert!(parse_and_interpret(code, &mut ctx).is_ok());
    assert_eq!(ctx.get_output(), vec!["1", "9"]);
}

#[test]
fn it_defers_empty_array_element_types() {
    let kind = error_kind_of("let xs: Array<Number> = [];");
    assert_eq!(kind, RuntimeErrorKind::TypeUnknown);
    let kind = error_kind_of("let ys: Array<Number> = [1]; ys = [];");
    assert_eq!(kind, RuntimeErrorKind::TypeUnknown);
}

#[test]
fn it_trims_read_input_lines() {
    let mut ctx = TestContext::new_with_input(vec![String::from("  nala  "), String::from(" 41 ")]);
    let code = "print('hello ' + read()); print(readnum() + 1);";
    assert!(parse_and_interpret(code, &mut ctx).is_ok());
    assert_eq!(ctx.get_output(), vec!["hello nala", "42"]);
}
