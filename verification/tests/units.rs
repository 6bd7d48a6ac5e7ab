use nala::ast::Param;
use nala::ast::Params;
use nala::builtins::get_void_block;
use nala::builtins::parse_num;
use nala::display::bool_to_string;
use nala::display::num_to_string;
use nala::display::to_display_string;
use nala::errors::RuntimeErrorKind;
use nala::operations::do_divide;
use nala::operations::eval_equals;
use nala::operations::eval_gt;
use nala::operations::eval_lt;
use nala::scopes::Scopes;
use nala::scopes::TypeBinding;
use nala::types::get_interfaces_for_primitive_type;
use nala::types::EnumVariant;
use nala::types::EnumVariants;
use nala::types::NalaType;
use nala::types::PrimitiveInterface;
use nala::types::PrimitiveType;
use nala::types::TypeLiteral;
use nala::types::TypeLiteralVariant;
use nala::types::TypeVariant;
use nala::types::Types;
use nala::values::Value;

fn num_type() -> TypeVariant {
    TypeVariant::Type(NalaType::PrimitiveType(PrimitiveType::Number))
}

fn any_type() -> TypeVariant {
    TypeVariant::Type(NalaType::PrimitiveType(PrimitiveType::Any))
}

#[test]
fn it_renders_numbers_in_decimal() {
    assert_eq!(num_to_string(0), "0");
    assert_eq!(num_to_string(311), "311");
    assert_eq!(num_to_string(-27), "-27");
    assert_eq!(num_to_string(i64::MIN), "-9223372036854775808");
    assert_eq!(bool_to_string(true), "true");
    assert_eq!(bool_to_string(false), "false");
}

#[test]
fn it_renders_values_canonically() {
    let mut scopes = Scopes::new();
    let id = scopes.new_array(vec![Value::Num(1), Value::Num(2)]);
    assert_eq!(to_display_string(&scopes, &Value::Array(id)), "<Array[2]>");
    assert_eq!(to_display_string(&scopes, &Value::String(String::from("hi"))), "hi");
    assert_eq!(to_display_string(&scopes, &Value::Void), "Void");
    let obj = scopes.new_object(vec![(String::from("x"), Value::Num(1))]);
    assert_eq!(to_display_string(&scopes, &Value::Object(obj)), "{ x: 1, }");
}

#[test]
fn it_parses_numbers_from_input_lines() {
    assert_eq!(parse_num("42"), Some(42));
    assert_eq!(parse_num("-7"), Some(-7));
    assert_eq!(parse_num(""), None);
    assert_eq!(parse_num("4x2"), None);
    assert_eq!(parse_num("99999999999999999999999"), None);
}

#[test]
fn it_divides_towards_zero() {
    assert_eq!(do_divide(7, 2).unwrap(), 3);
    assert_eq!(do_divide(-7, 2).unwrap(), -3);
    assert_eq!(do_divide(7, -2).unwrap(), -3);
    assert_eq!(do_divide(-7, -2).unwrap(), 3);
    assert_eq!(do_divide(1, 0).unwrap_err().kind, RuntimeErrorKind::DivideByZero);
    assert_eq!(do_divide(i64::MIN, -1).unwrap_err().kind, RuntimeErrorKind::NumericOverflow);
}

#[test]
fn it_orders_assignability_around_any() {
    assert!(num_type().is_assignable_to(&num_type()));
    assert!(num_type().is_assignable_to(&any_type()));
    assert!(!any_type().is_assignable_to(&num_type()));
    assert!(any_type().is_assignable_to(&any_type()));
    assert!(!num_type().is_assignable_to(&TypeVariant::Type(
        NalaType::PrimitiveType(PrimitiveType::Bool)
    )));
}

#[test]
fn it_checks_composite_assignability_pairwise() {
    let array_of_num = TypeVariant::Composite(
        NalaType::PrimitiveType(PrimitiveType::Array),
        Box::new(Types::Type(num_type())),
    );
    let array_of_any = TypeVariant::Composite(
        NalaType::PrimitiveType(PrimitiveType::Array),
        Box::new(Types::Type(any_type())),
    );
    assert!(array_of_num.is_assignable_to(&array_of_any));
    assert!(!array_of_any.is_assignable_to(&array_of_num));
    assert!(array_of_num.is_assignable_to(&any_type()));
}

#[test]
fn it_substitutes_the_type_variable() {
    let generic = TypeVariant::Type(NalaType::Generic(String::from("A")));
    let concrete = generic.make_concrete("A", &num_type());
    assert!(concrete.is_assignable_to(&num_type()));
    let unrelated = TypeVariant::Type(NalaType::Generic(String::from("B")));
    let unchanged = unrelated.make_concrete("A", &num_type());
    assert!(!unchanged.is_assignable_to(&num_type()));
}

#[test]
fn it_reports_primitive_interfaces() {
    assert_eq!(
        get_interfaces_for_primitive_type(PrimitiveType::Number),
        vec![PrimitiveInterface::IPrint, PrimitiveInterface::ICompare]
    );
    assert_eq!(
        get_interfaces_for_primitive_type(PrimitiveType::String),
        vec![PrimitiveInterface::IPrint]
    );
    assert_eq!(get_interfaces_for_primitive_type(PrimitiveType::Void), vec![]);
    assert_eq!(PrimitiveInterface::IPrint.to_string(), "IPrint");
    assert_eq!(PrimitiveType::Number.to_string(), "Number");
    assert!(PrimitiveType::Number.is_assignable_to(&PrimitiveType::Any));
}

#[test]
fn it_compares_values_by_content() {
    let scopes = {
        let mut s = Scopes::new();
        s.new_scope(None);
        s
    };
    let eq = eval_equals(Value::Num(3), Value::Num(3), &scopes, 0);
    assert!(matches!(eq, Ok(Value::Bool(true))));
    let lt = eval_lt(
        Value::String(String::from("apple")),
        Value::String(String::from("banana")),
        &scopes,
        0,
    );
    assert!(matches!(lt, Ok(Value::Bool(true))));
    let gt = eval_gt(Value::Bool(true), Value::Bool(false), &scopes, 0);
    assert!(matches!(gt, Ok(Value::Bool(true))));
    let unsupported = eval_equals(Value::Num(1), Value::Bool(true), &scopes, 0);
    assert_eq!(unsupported.unwrap_err().kind, RuntimeErrorKind::OperationUnsupported);
}

#[test]
fn it_keeps_parameter_order_through_the_list_shape() {
    let params = vec![
        Param {
            ident: String::from("a"),
            param_type: TypeLiteralVariant::Type(TypeLiteral::PrimitiveType(PrimitiveType::Number)),
        },
        Param {
            ident: String::from("b"),
            param_type: TypeLiteralVariant::Type(TypeLiteral::PrimitiveType(PrimitiveType::Bool)),
        },
    ];
    let rebuilt = Params::from_vec(&params).to_vec();
    assert_eq!(rebuilt.len(), 2);
    assert_eq!(rebuilt[0].ident, "a");
    assert_eq!(rebuilt[1].ident, "b");
}

#[test]
fn it_exposes_enum_bindings() {
    let variants = EnumVariants::Variant(EnumVariant::Empty(String::from("None")));
    let binding = TypeBinding::Enum(variants, Some(String::from("A")));
    assert_eq!(binding.get_type_param(), Some(String::from("A")));
    assert!(binding.as_enum().is_ok());
    assert_eq!(binding.as_struct().unwrap_err().kind, RuntimeErrorKind::TypeMismatch);
    let prim = TypeBinding::PrimitiveType(PrimitiveType::Number);
    assert_eq!(prim.as_enum().unwrap_err().kind, RuntimeErrorKind::NotAnEnum);
    let from = TypeBinding::from_type(
        TypeVariant::Type(NalaType::Generic(String::from("T"))),
        None,
    );
    assert!(matches!(from, TypeBinding::Generic(_)));
}

#[test]
fn it_inspects_values() {
    assert!(Value::Num(1).is_number());
    assert!(!Value::Bool(true).is_number());
    assert!(Value::String(String::from("s")).is_string());
    assert!(Value::Void.is_void());
    assert_eq!(Value::String(String::from("s")).as_string(), Some(String::from("s")));
    assert!(Value::Num(1).as_string().is_none());
    assert!(Value::Num(1).as_variant().is_none());
    let void_builtin = get_void_block();
    assert_eq!(void_builtin.closure_scope, 0);
}
