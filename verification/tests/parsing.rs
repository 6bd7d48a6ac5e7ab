use nala::ast::Program;
use nala::parser::parse_code;

#[test]
fn it_parses_const_statements() {
    let parsed = parse_code(String::from("const foo = 7;"));
    assert!(parsed.is_ok());
}

#[test]
fn it_parses_full_programs() {
    let code = "
        enum Opt<A> { Some(A), None }
        struct Point { x: Number, y: Number }
        func add(a: Number, b: Number): Number { a + b }
        let total = 0;
        for n in [1, 2, 3] { total = total + n; }
        wiles (total > 0) { total = total - 1; }
        if total == 0 { print('done'); } else { print('not done'); }
        match Opt::Some(1) { Opt::Some(x) => x, Opt::None => 0 }
        const p = { x: 1, y: 2 };
        p.x = add(2, 3);
    ";
    let parsed = parse_code(String::from(code));
    assert!(parsed.is_ok());
}

#[test]
fn it_rejects_invalid_tokens() {
    assert!(parse_code(String::from("const x = #;")).is_err());
    assert!(parse_code(String::from("const x = 'unterminated")).is_err());
    assert!(parse_code(String::from("const x 7;")).is_err());
}

#[test]
fn it_parses_statement_lists_in_order() {
    let parsed = parse_code(String::from("const a = 1; const b = 2;"));
    match parsed {
        Ok(Program::Stmts(_stmts)) => {}
        _ => panic!("expected a statement list"),
    }
}
