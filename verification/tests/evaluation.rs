use nala::ast::Addend;
use nala::ast::Call;
use nala::ast::Factor;
use nala::interpreter::evaluate_addend;
use nala::interpreter::evaluate_factor;
use nala::io_context::TestContext;
use nala::scopes::Scopes;
use nala::values::Value;

#[test]
pub fn it_evaluates_add_with_2_terms() {
    let mut test_context = TestContext::new();

    let left = Box::new(Addend::Factor(Factor::Call(Call::Value(Value::Num(7)))));
    let right = Factor::Call(Call::Value(Value::Num(4)));

    let operation = Addend::Add(left, right);
    let mut scopes = Scopes::new();
    let top_scope = scopes.new_scope(None);
    let actual = evaluate_addend(&operation, &mut scopes, top_scope, &mut test_context);

    if let Ok(Value::Num(actual)) = actual {
        assert_eq!(11, actual);
    } else {
        panic!();
    }
}

#[test]
pub fn it_evaluates_add_with_3_terms() {
    let mut test_context = TestContext::new();

    let left = Addend::Factor(Factor::Call(Call::Value(Value::Num(3))));
    let middle = Factor::Call(Call::Value(Value::Num(5)));
    let right = Factor::Call(Call::Value(Value::Num(4)));

    let operation_a = Addend::Add(Box::new(left), middle);
    let operation_b = Addend::Add(Box::new(operation_a), right);
    let mut scopes = Scopes::new();
    let top_scope = scopes.new_scope(None);
    let actual = evaluate_addend(&operation_b, &mut scopes, top_scope, &mut test_context);

    if let Ok(Value::Num(actual)) = actual {
        assert_eq!(12, actual);
    } else {
        panic!();
    }
}

#[test]
pub fn it_evaluates_sub() {
    let mut test_context = TestContext::new();

    let left = Addend::Factor(Factor::Call(Call::Value(Value::Num(5))));
    let right = Factor::Call(Call::Value(Value::Num(3)));

    let operation = Addend::Sub(Box::new(left), right);
    let mut scopes = Scopes::new();
    let top_scope = scopes.new_scope(None);
    let actual = evaluate_addend(&operation, &mut scopes, top_scope, &mut test_context);

    if let Ok(Value::Num(actual)) = actual {
        assert_eq!(2, actual);
    } else {
        panic!();
    }
}

#[test]
pub fn it_evaluates_mult() {
    let mut test_context = TestContext::new();

    let left = Factor::Call(Call::Value(Value::Num(5)));
    let right = Call::Value(Value::Num(3));

    let operation = Factor::Mult(Box::new(left), right);
    let mut scopes = Scopes::new();
    let top_scope = scopes.new_scope(None);
    let actual = evaluate_factor(&operation, &mut scopes, top_scope, &mut test_context);

    if let Ok(Value::Num(actual)) = actual {
        assert_eq!(15, actual);
    } else {
        panic!();
    }
}

#[test]
pub fn it_evaluates_whole_division() {
    let mut test_context = TestContext::new();

    let left = Factor::Call(Call::Value(Value::Num(15)));
    let right = Call::Value(Value::Num(5));

    let operation = Factor::Div(Box::new(left), right);
    let mut scopes = Scopes::new();
    let top_scope = scopes.new_scope(None);
    let actual = evaluate_factor(&operation, &mut scopes, top_scope, &mut test_context);

    if let Ok(Value::Num(actual)) = actual {
        assert_eq!(3, actual);
    } else {
        panic!();
    }
}
