use vstd::prelude::*;

use crate::ast::OpKind;
use crate::display::to_display_string;
use crate::display::value_display;
use crate::display::DISPLAY_FUEL;
use crate::errors::RuntimeError;
use crate::errors::RuntimeErrorKind;
use crate::inference::infer_type;
use crate::inference::spec_infer_type;
use crate::inference::INFER_FUEL;
use crate::scopes::Scopes;
use crate::types::spec_type_equals;
use crate::values::Value;

verus! {

// ---------------------------------------------------------------------------
// Arithmetic
// ---------------------------------------------------------------------------

pub open spec fn abs_int(a: int) -> int {
    if a < 0 {
        -a
    } else {
        a
    }
}

/// Division truncated towards zero, as the number type divides.
pub open spec fn trunc_div(a: int, b: int) -> int {
    if (a < 0) == (b < 0) {
        abs_int(a) / abs_int(b)
    } else {
        -(abs_int(a) / abs_int(b))
    }
}

/// The failure, if any, that applying `op` to the given operands meets:
/// arithmetic is defined on numbers, `+` additionally concatenates when
/// either side is a string, division by zero is refused, and a result
/// outside the range of the number type is refused.
pub open spec fn spec_oper_err(l: Value, op: OpKind, r: Value) -> Option<RuntimeErrorKind> {
    match (l, r) {
        (Value::Num(a), Value::Num(b)) => match op {
            OpKind::Add => if a + b > i64::MAX || a + b < i64::MIN {
                Some(RuntimeErrorKind::NumericOverflow)
            } else {
                None
            },
            OpKind::Sub => if a - b > i64::MAX || a - b < i64::MIN {
                Some(RuntimeErrorKind::NumericOverflow)
            } else {
                None
            },
            OpKind::Mult => if a * b > i64::MAX || a * b < i64::MIN {
                Some(RuntimeErrorKind::NumericOverflow)
            } else {
                None
            },
            OpKind::Div => if b == 0 {
                Some(RuntimeErrorKind::DivideByZero)
            } else if a == i64::MIN && b == -1 {
                Some(RuntimeErrorKind::NumericOverflow)
            } else {
                None
            },
        },
        (Value::String(_s), _other) => if op == OpKind::Add {
            None
        } else {
            Some(RuntimeErrorKind::OperationUnsupported)
        },
        (_other, Value::String(_s)) => if op == OpKind::Add {
            None
        } else {
            Some(RuntimeErrorKind::OperationUnsupported)
        },
        _ => Some(RuntimeErrorKind::OperationUnsupported),
    }
}

/// What a successful operator application returns: numeric results exactly,
/// and concatenations by the characters they carry.
pub open spec fn spec_oper_ok(sc: Scopes, l: Value, op: OpKind, r: Value, out: Value) -> bool {
    match (l, r) {
        (Value::Num(a), Value::Num(b)) => match op {
            OpKind::Add => out == Value::Num(((a + b) as i64)),
            OpKind::Sub => out == Value::Num(((a - b) as i64)),
            OpKind::Mult => out == Value::Num(((a * b) as i64)),
            OpKind::Div => out == Value::Num((trunc_div(a as int, b as int) as i64)),
        },
        (Value::String(a), other) => out matches Value::String(s) && s@ == a@ + value_display(
            sc,
            other,
            DISPLAY_FUEL as nat,
        ),
        (other, Value::String(b)) => out matches Value::String(s) && s@ == value_display(
            sc,
            other,
            DISPLAY_FUEL as nat,
        ) + b@,
        _ => false,
    }
}

/// Divides two numbers; the divisor must not be zero and the quotient must
/// be representable.
pub fn do_divide(left: i64, right: i64) -> (r: Result<i64, RuntimeError>)
    ensures
        match r {
            Ok(q) => right != 0 && !(left == i64::MIN && right == -1) && q == trunc_div(
                left as int,
                right as int,
            ),
            Err(e) => {
                ||| right == 0 && e.kind == RuntimeErrorKind::DivideByZero
                ||| left == i64::MIN && right == -1 && e.kind == RuntimeErrorKind::NumericOverflow
            },
        },
{
    if right == 0 {
        return Err(RuntimeError::new(RuntimeErrorKind::DivideByZero, "Cannot divide by zero."));
    }
    if left == i64::MIN && right == -1 {
        return Err(
            RuntimeError::new(RuntimeErrorKind::NumericOverflow, "Quotient is not representable."),
        );
    }
    let negative = (left < 0) != (right < 0);
    let ml: u64 = if left < 0 {
        ((-(left + 1)) as u64) + 1
    } else {
        left as u64
    };
    let mr: u64 = if right < 0 {
        ((-(right + 1)) as u64) + 1
    } else {
        right as u64
    };
    proof {
        assert(ml == abs_int(left as int));
        assert(mr == abs_int(right as int));
    }
    let q = ml / mr;
    proof {
        assert(q <= ml) by (nonlinear_arith)
            requires
                mr >= 1,
                q == ml / mr,
        ;
    }
    if negative {
        if q == 0 {
            Ok(0)
        } else {
            Ok((-((q - 1) as i64)) - 1)
        }
    } else {
        proof {
            if left < 0 {
                if right == -1 {
                    assert(ml <= i64::MAX);
                } else {
                    assert(mr >= 2);
                    assert(q <= ml / 2) by (nonlinear_arith)
                        requires
                            mr >= 2,
                            q == ml / mr,
                            ml >= 0,
                    ;
                }
            }
            assert(q <= i64::MAX);
        }
        Ok(q as i64)
    }
}

/// Applies an arithmetic operator to two already evaluated values.  `+` on
/// a string concatenates the other operand's display form.
pub fn evaluate_oper(scopes: &Scopes, left: Value, op_kind: OpKind, right: Value) -> (r: Result<
    Value,
    RuntimeError,
>)
    ensures
        match r {
            Ok(out) => spec_oper_err(left, op_kind, right) is None && spec_oper_ok(
                *scopes,
                left,
                op_kind,
                right,
                out,
            ),
            Err(e) => spec_oper_err(left, op_kind, right) == Some(e.kind),
        },
{
    match (&left, &right) {
        (Value::Num(a), Value::Num(b)) => match op_kind {
            OpKind::Add => match a.checked_add(*b) {
                Some(n) => Ok(Value::Num(n)),
                None => Err(
                    RuntimeError::new(
                        RuntimeErrorKind::NumericOverflow,
                        "Sum is not representable.",
                    ),
                ),
            },
            OpKind::Sub => match a.checked_sub(*b) {
                Some(n) => Ok(Value::Num(n)),
                None => Err(
                    RuntimeError::new(
                        RuntimeErrorKind::NumericOverflow,
                        "Difference is not representable.",
                    ),
                ),
            },
            OpKind::Mult => match a.checked_mul(*b) {
                Some(n) => Ok(Value::Num(n)),
                None => Err(
                    RuntimeError::new(
                        RuntimeErrorKind::NumericOverflow,
                        "Product is not representable.",
                    ),
                ),
            },
            OpKind::Div => match do_divide(*a, *b) {
                Ok(q) => Ok(Value::Num(q)),
                Err(e) => Err(e),
            },
        },
        (Value::String(a), other) => {
            if let OpKind::Add = op_kind {
                let mut s = a.clone();
                let rendered = to_display_string(scopes, other);
                s.append(rendered.as_str());
                Ok(Value::String(s))
            } else {
                Err(
                    RuntimeError::new(
                        RuntimeErrorKind::OperationUnsupported,
                        "Operation not supported on a string.",
                    ),
                )
            }
        },
        (other, Value::String(b)) => {
            if let OpKind::Add = op_kind {
                let mut s = to_display_string(scopes, other);
                s.append(b.as_str());
                Ok(Value::String(s))
            } else {
                Err(
                    RuntimeError::new(
                        RuntimeErrorKind::OperationUnsupported,
                        "Operation not supported on a string.",
                    ),
                )
            }
        },
        _ => Err(
            RuntimeError::new(
                RuntimeErrorKind::OperationUnsupported,
                "Arithmetic is not supported between these types.",
            ),
        ),
    }
}

/// Division by zero always yields `DivideByZero`, whatever the dividend:
/// the number type carries no infinities and no error values, so no result
/// value is ever produced for a zero divisor.
pub proof fn lemma_divide_by_zero(a: i64)
    ensures
        spec_oper_err(Value::Num(a), OpKind::Div, Value::Num(0)) == Some(
            RuntimeErrorKind::DivideByZero,
        ),
{
}

// ---------------------------------------------------------------------------
// Comparisons
// ---------------------------------------------------------------------------

/// Structural equality of values: numbers, booleans and strings by content,
/// variants by tag and payload.  Arrays, objects and functions do not
/// compare.
pub open spec fn spec_value_eq(l: Value, r: Value) -> Option<bool>
    decreases l,
{
    match (l, r) {
        (Value::Num(a), Value::Num(b)) => Some(a == b),
        (Value::Bool(a), Value::Bool(b)) => Some(a == b),
        (Value::String(a), Value::String(b)) => Some(a@ == b@),
        (Value::Variant(a), Value::Variant(b)) => {
            if a.enum_ident@ == b.enum_ident@ && a.variant_ident@ == b.variant_ident@ {
                match (a.data, b.data) {
                    (Some(da), Some(db)) => spec_value_eq(*da, *db),
                    (None, None) => Some(true),
                    _ => Some(false),
                }
            } else {
                Some(false)
            }
        },
        _ => None,
    }
}

/// Ordering of values: numbers numerically, strings lexicographically by
/// character, booleans with `false` before `true`.
pub open spec fn spec_value_lt(l: Value, r: Value) -> Option<bool> {
    match (l, r) {
        (Value::Num(a), Value::Num(b)) => Some(a < b),
        (Value::String(a), Value::String(b)) => Some(seq_str_lt(a@, b@)),
        (Value::Bool(a), Value::Bool(b)) => Some(!a && b),
        _ => None,
    }
}

/// Lexicographic order on character sequences.
pub open spec fn seq_str_lt(a: Seq<char>, b: Seq<char>) -> bool
    decreases a.len(),
{
    if b.len() == 0 {
        false
    } else if a.len() == 0 {
        true
    } else if a[0] != b[0] {
        (a[0] as u32) < (b[0] as u32)
    } else {
        seq_str_lt(a.drop_first(), b.drop_first())
    }
}

/// Compares two strings lexicographically by character.
fn str_lt(a: &str, b: &str) -> (r: bool)
    ensures
        r == seq_str_lt(a@, b@),
{
    let len_a = a.unicode_len();
    let len_b = b.unicode_len();
    let mut i: usize = 0;
    proof {
        assert(a@.skip(0) =~= a@);
        assert(b@.skip(0) =~= b@);
    }
    while i < len_a && i < len_b
        invariant
            i <= len_a,
            i <= len_b,
            len_a == a@.len(),
            len_b == b@.len(),
            seq_str_lt(a@.skip(i as int), b@.skip(i as int)) == seq_str_lt(a@, b@),
            forall|j: int| 0 <= j < i ==> a@[j] == b@[j],
        decreases len_a - i,
    {
        let ca = a.get_char(i);
        let cb = b.get_char(i);
        proof {
            assert(a@.skip(i as int)[0] == a@[i as int]);
            assert(b@.skip(i as int)[0] == b@[i as int]);
            assert(a@.skip(i as int).drop_first() =~= a@.skip(i as int + 1));
            assert(b@.skip(i as int).drop_first() =~= b@.skip(i as int + 1));
        }
        if ca != cb {
            return (ca as u32) < (cb as u32);
        }
        i = i + 1;
    }
    proof {
        assert(seq_str_lt(a@.skip(i as int), b@.skip(i as int)) == (i < len_b));
    }
    i < len_b
}

/// The outcome of `==` on two evaluated values: their inferred types must
/// match, and the values must be of a kind equality is defined for.
pub open spec fn spec_eval_equals(sc: Scopes, cur: int, l: Value, r: Value) -> Result<
    Value,
    RuntimeErrorKind,
> {
    match spec_infer_type(sc, cur, l, INFER_FUEL as nat) {
        Err(k) => Err(k),
        Ok(tl) => match spec_infer_type(sc, cur, r, INFER_FUEL as nat) {
            Err(k) => Err(k),
            Ok(tr) => if !spec_type_equals(tl, tr) {
                Err(RuntimeErrorKind::OperationUnsupported)
            } else {
                match spec_value_eq(l, r) {
                    Some(b) => Ok(Value::Bool(b)),
                    None => Err(RuntimeErrorKind::OperationUnsupported),
                }
            },
        },
    }
}

/// Structural equality of two values, erring on kinds it is not defined for.
fn value_eq(l: &Value, r: &Value) -> (res: Result<bool, RuntimeError>)
    ensures
        match spec_value_eq(*l, *r) {
            Some(b) => res == Ok::<_, RuntimeError>(b),
            None => res matches Err(e) && e.kind == RuntimeErrorKind::OperationUnsupported,
        },
    decreases *l,
{
    match (l, r) {
        (Value::Num(a), Value::Num(b)) => Ok(*a == *b),
        (Value::Bool(a), Value::Bool(b)) => Ok(*a == *b),
        (Value::String(a), Value::String(b)) => Ok(*a == *b),
        (Value::Variant(a), Value::Variant(b)) => {
            if a.enum_ident == b.enum_ident && a.variant_ident == b.variant_ident {
                match (&a.data, &b.data) {
                    (Some(da), Some(db)) => value_eq(da, db),
                    (None, None) => Ok(true),
                    _ => Ok(false),
                }
            } else {
                Ok(false)
            }
        },
        _ => Err(
            RuntimeError::new(
                RuntimeErrorKind::OperationUnsupported,
                "Equality is not defined for these values.",
            ),
        ),
    }
}

/// Evaluates `==` on two already evaluated values.
pub fn eval_equals(left: Value, right: Value, scopes: &Scopes, current_scope: usize) -> (r: Result<
    Value,
    RuntimeError,
>)
    requires
        scopes.wf(),
        current_scope < scopes.scopes@.len(),
    ensures
        match spec_eval_equals(*scopes, current_scope as int, left, right) {
            Ok(v) => r matches Ok(out) && out == v,
            Err(k) => r matches Err(e) && e.kind == k,
        },
{
    let tl = match infer_type(&left, scopes, current_scope) {
        Ok(t) => t,
        Err(e) => {
            return Err(e);
        },
    };
    let tr = match infer_type(&right, scopes, current_scope) {
        Ok(t) => t,
        Err(e) => {
            return Err(e);
        },
    };
    if !tl.is_equal_to(&tr) {
        return Err(
            RuntimeError::new(
                RuntimeErrorKind::OperationUnsupported,
                "Cannot compare values of different types.",
            ),
        );
    }
    match value_eq(&left, &right) {
        Ok(b) => Ok(Value::Bool(b)),
        Err(e) => Err(e),
    }
}

/// The outcome of `<` on two evaluated values.
pub open spec fn spec_eval_lt(sc: Scopes, cur: int, l: Value, r: Value) -> Result<
    Value,
    RuntimeErrorKind,
> {
    match spec_infer_type(sc, cur, l, INFER_FUEL as nat) {
        Err(k) => Err(k),
        Ok(tl) => match spec_infer_type(sc, cur, r, INFER_FUEL as nat) {
            Err(k) => Err(k),
            Ok(tr) => if !spec_type_equals(tl, tr) {
                Err(RuntimeErrorKind::OperationUnsupported)
            } else {
                match spec_value_lt(l, r) {
                    Some(b) => Ok(Value::Bool(b)),
                    None => Err(RuntimeErrorKind::OperationUnsupported),
                }
            },
        },
    }
}

fn value_lt(l: &Value, r: &Value) -> (res: Result<bool, RuntimeError>)
    ensures
        match spec_value_lt(*l, *r) {
            Some(b) => res == Ok::<_, RuntimeError>(b),
            None => res matches Err(e) && e.kind == RuntimeErrorKind::OperationUnsupported,
        },
{
    match (l, r) {
        (Value::Num(a), Value::Num(b)) => Ok(*a < *b),
        (Value::String(a), Value::String(b)) => Ok(str_lt(a.as_str(), b.as_str())),
        (Value::Bool(a), Value::Bool(b)) => Ok(!*a && *b),
        _ => Err(
            RuntimeError::new(
                RuntimeErrorKind::OperationUnsupported,
                "Ordering is not defined for these values.",
            ),
        ),
    }
}

/// Evaluates `<` on two already evaluated values.
pub fn eval_lt(left: Value, right: Value, scopes: &Scopes, current_scope: usize) -> (r: Result<
    Value,
    RuntimeError,
>)
    requires
        scopes.wf(),
        current_scope < scopes.scopes@.len(),
    ensures
        match spec_eval_lt(*scopes, current_scope as int, left, right) {
            Ok(v) => r matches Ok(out) && out == v,
            Err(k) => r matches Err(e) && e.kind == k,
        },
{
    let tl = match infer_type(&left, scopes, current_scope) {
        Ok(t) => t,
        Err(e) => {
            return Err(e);
        },
    };
    let tr = match infer_type(&right, scopes, current_scope) {
        Ok(t) => t,
        Err(e) => {
            return Err(e);
        },
    };
    if !tl.is_equal_to(&tr) {
        return Err(
            RuntimeError::new(
                RuntimeErrorKind::OperationUnsupported,
                "Cannot compare values of different types.",
            ),
        );
    }
    match value_lt(&left, &right) {
        Ok(b) => Ok(Value::Bool(b)),
        Err(e) => Err(e),
    }
}

/// The outcome of `>` on two evaluated values: the reverse ordering.
pub open spec fn spec_eval_gt(sc: Scopes, cur: int, l: Value, r: Value) -> Result<
    Value,
    RuntimeErrorKind,
> {
    match spec_infer_type(sc, cur, l, INFER_FUEL as nat) {
        Err(k) => Err(k),
        Ok(tl) => match spec_infer_type(sc, cur, r, INFER_FUEL as nat) {
            Err(k) => Err(k),
            Ok(tr) => if !spec_type_equals(tl, tr) {
                Err(RuntimeErrorKind::OperationUnsupported)
            } else {
                match spec_value_lt(r, l) {
                    Some(b) => Ok(Value::Bool(b)),
                    None => Err(RuntimeErrorKind::OperationUnsupported),
                }
            },
        },
    }
}

/// Evaluates `>` on two already evaluated values.
pub fn eval_gt(left: Value, right: Value, scopes: &Scopes, current_scope: usize) -> (r: Result<
    Value,
    RuntimeError,
>)
    requires
        scopes.wf(),
        current_scope < scopes.scopes@.len(),
    ensures
        match spec_eval_gt(*scopes, current_scope as int, left, right) {
            Ok(v) => r matches Ok(out) && out == v,
            Err(k) => r matches Err(e) && e.kind == k,
        },
{
    let tl = match infer_type(&left, scopes, current_scope) {
        Ok(t) => t,
        Err(e) => {
            return Err(e);
        },
    };
    let tr = match infer_type(&right, scopes, current_scope) {
        Ok(t) => t,
        Err(e) => {
            return Err(e);
        },
    };
    if !tl.is_equal_to(&tr) {
        return Err(
            RuntimeError::new(
                RuntimeErrorKind::OperationUnsupported,
                "Cannot compare values of different types.",
            ),
        );
    }
    match value_lt(&right, &left) {
        Ok(b) => Ok(Value::Bool(b)),
        Err(e) => Err(e),
    }
}

} // verus!
