use vstd::prelude::*;

use crate::ast::Addend;
use crate::ast::Block;
use crate::ast::Call;
use crate::ast::Elems;
use crate::ast::EnumVariantOrAddend;
use crate::ast::Expr;
use crate::ast::IfCases;
use crate::ast::KeyValuePairs;
use crate::ast::MatchArms;
use crate::ast::OpKind;
use crate::ast::Factor;
use crate::ast::PlaceExpression;
use crate::ast::Program;
use crate::ast::Stmt;
use crate::ast::Stmts;
use crate::ast::StructFieldsDeclare;
use crate::ast::VariantsDeclare;
use crate::builtins::call_builtin;
use crate::builtins::register_builtins;
use crate::errors::RuntimeError;
use crate::errors::RuntimeErrorKind;
use crate::inference::evaluate_params;
use crate::inference::find_variant;
use crate::inference::infer_type;
use crate::inference::spec_infer_type;
use crate::inference::spec_tlv_resolve;
use crate::inference::INFER_FUEL;
use crate::io_context::IoContext;
use crate::operations::eval_equals;
use crate::operations::eval_gt;
use crate::operations::eval_lt;
use crate::operations::evaluate_oper;
use crate::patterns::match_pattern;
use crate::scopes::find_entry;
use crate::scopes::scope_keys_frame;
use crate::scopes::scopes_shape_kept;
use crate::scopes::spec_mutate_check;
use crate::scopes::Scopes;
use crate::scopes::TypeBinding;
use crate::types::spec_assignable;
use crate::types::EnumVariant;
use crate::types::EnumVariants;
use crate::types::NalaType;
use crate::types::StructField;
use crate::types::StructFields;
use crate::types::TypeVariant;
use crate::values::EnumVariantValue;
use crate::values::FuncValue;
use crate::values::FuncVariant;
use crate::values::Value;

verus! {

/// How many function calls and loop iterations one run may spend before it
/// is cut short with `BudgetExceeded`.
pub const EVAL_BUDGET: u64 = 4294967296;

/// Scopes are never deallocated by evaluation, so a scope id valid before a
/// step stays valid after it.  Well-formedness of the environment is stated
/// separately, as its own clause, wherever a step ensures this.
pub open spec fn evolves(before: Scopes, after: Scopes) -> bool {
    after.scopes@.len() >= before.scopes@.len()
}

// ---------------------------------------------------------------------------
// Declarations
// ---------------------------------------------------------------------------

/// What installing a type binding does to the environment: the binding is
/// appended to the named scope's type namespace under the given name, and
/// every value binding, every other scope, and every container is untouched.
pub open spec fn type_binding_added(
    before: Scopes,
    after: Scopes,
    cur: int,
    name: Seq<char>,
    binding: TypeBinding,
) -> bool {
    &&& after.arrays@ == before.arrays@
    &&& after.objects@ == before.objects@
    &&& after.scopes@.len() == before.scopes@.len()
    &&& forall|j: int|
        0 <= j < before.scopes@.len() && j != cur ==> after.scopes@[j] == before.scopes@[j]
    &&& after.scopes@[cur].parent == before.scopes@[cur].parent
    &&& after.scopes@[cur].values == before.scopes@[cur].values
    &&& after.scopes@[cur].types@.len() == before.scopes@[cur].types@.len() + 1
    &&& after.scopes@[cur].types@.drop_last() == before.scopes@[cur].types@
    &&& after.scopes@[cur].types@.last().0@ == name
    &&& after.scopes@[cur].types@.last().1 == binding
    &&& find_entry(after.scopes@[cur].types@, name) == Some(binding)
}

/// What installing a value binding does to the environment: the binding is
/// appended to the named scope's value namespace under the given name, and
/// every type binding, every other scope, and every container is untouched.
pub open spec fn value_binding_added(
    before: Scopes,
    after: Scopes,
    cur: int,
    name: Seq<char>,
    binding: crate::scopes::Binding,
) -> bool {
    &&& after.arrays@ == before.arrays@
    &&& after.objects@ == before.objects@
    &&& after.scopes@.len() == before.scopes@.len()
    &&& forall|j: int|
        0 <= j < before.scopes@.len() && j != cur ==> after.scopes@[j] == before.scopes@[j]
    &&& after.scopes@[cur].parent == before.scopes@[cur].parent
    &&& after.scopes@[cur].types == before.scopes@[cur].types
    &&& after.scopes@[cur].values@.len() == before.scopes@[cur].values@.len() + 1
    &&& after.scopes@[cur].values@.drop_last() == before.scopes@[cur].values@
    &&& after.scopes@[cur].values@.last().0@ == name
    &&& after.scopes@[cur].values@.last().1 == binding
    &&& find_entry(after.scopes@[cur].values@, name) == Some(binding)
}

/// The type a declaration binds under, or the failure it meets: a `Void`
/// value is refused, an annotated declaration must be satisfied by the
/// value's inferred type, and an unannotated one binds under the inferred
/// type itself.
pub open spec fn spec_declare_type(
    sc: Scopes,
    cur: int,
    v: Value,
    annotation: Option<crate::types::TypeLiteralVariant>,
) -> Result<TypeVariant, RuntimeErrorKind> {
    if v is Void {
        Err(RuntimeErrorKind::VoidAssignment)
    } else {
        match annotation {
            Some(lit) => match spec_tlv_resolve(sc, cur, lit) {
                Err(k) => Err(k),
                Ok(t) => match spec_infer_type(sc, cur, v, INFER_FUEL as nat) {
                    Err(k) => Err(k),
                    Ok(vt) => if spec_assignable(vt, t) {
                        Ok(t)
                    } else if crate::types::spec_is_empty_array_type(vt) {
                        Err(RuntimeErrorKind::TypeUnknown)
                    } else {
                        Err(RuntimeErrorKind::TypeMismatch)
                    },
                },
            },
            None => match spec_infer_type(sc, cur, v, INFER_FUEL as nat) {
                Err(k) => Err(k),
                Ok(vt) => Ok(vt),
            },
        }
    }
}

/// Declares a binding for an already evaluated value in the current scope.
pub fn eval_declare(
    ident: &str,
    value: Value,
    annotation: &Option<crate::types::TypeLiteralVariant>,
    scopes: &mut Scopes,
    current_scope: usize,
    is_mutable: bool,
) -> (r: Result<Value, RuntimeError>)
    requires
        old(scopes).wf(),
        current_scope < old(scopes).scopes@.len(),
    ensures
        final(scopes).wf(),
        evolves(*old(scopes), *final(scopes)),
        scope_keys_frame(*old(scopes), *final(scopes), current_scope as int),
        final(scopes).scopes@.len() == old(scopes).scopes@.len(),
        match spec_declare_type(*old(scopes), current_scope as int, value, *annotation) {
            Err(k) => r matches Err(e) && e.kind == k && final(scopes).scopes@ == old(scopes).scopes@,
            Ok(declared) => {
                if find_entry(old(scopes).scopes@[current_scope as int].values@, ident@) is Some {
                    r matches Err(e) && e.kind == RuntimeErrorKind::AlreadyBound && final(scopes).scopes@ == old(scopes).scopes@
                } else {
                    &&& r matches Ok(v) && v == Value::Void
                    &&& final(scopes).scopes@[current_scope as int].values@.last() == (
                    (
                        final(scopes).scopes@[current_scope as int].values@.last().0,
                        crate::scopes::Binding { value, declared, is_mutable },
                    ))
                    &&& final(scopes).scopes@[current_scope as int].values@.last().0@ == ident@
                    &&& final(scopes).scopes@[current_scope as int].values@.drop_last() == old(scopes).scopes@[current_scope as int].values@
                }
            },
        },
{
    if value.is_void() {
        return Err(
            RuntimeError::new(
                RuntimeErrorKind::VoidAssignment,
                "Cannot declare a binding with a value of type Void.",
            ),
        );
    }
    let declared = match annotation {
        Some(lit) => {
            let t = match TypeVariant::from_literal(lit, scopes, current_scope) {
                Ok(t) => t,
                Err(e) => {
                    return Err(e);
                },
            };
            let vt = match infer_type(&value, scopes, current_scope) {
                Ok(vt) => vt,
                Err(e) => {
                    return Err(e);
                },
            };
            if !vt.is_assignable_to(&t) {
                if vt.is_empty_array_type() {
                    return Err(
                        RuntimeError::new(
                            RuntimeErrorKind::TypeUnknown,
                            "The element type of an empty array is not yet known.",
                        ),
                    );
                }
                let mut message = "Cannot declare a binding of type ".to_owned();
                let expected = t.to_string();
                message.append(expected.as_str());
                message.append(" with a value of type ");
                let found = vt.to_string();
                message.append(found.as_str());
                message.append(".");
                return Err(RuntimeError::new(RuntimeErrorKind::TypeMismatch, message.as_str()));
            }
            t
        },
        None => match infer_type(&value, scopes, current_scope) {
            Ok(vt) => vt,
            Err(e) => {
                return Err(e);
            },
        },
    };
    let r = scopes.add_binding(ident, current_scope, declared, value, is_mutable);
    proof {
        if r is Ok {
            crate::scopes::lemma_frame_value_pushed(*old(scopes), *scopes, current_scope as int);
        } else {
            crate::scopes::lemma_frame_identical(*old(scopes), *scopes, current_scope as int);
        }
    }
    r
}

// ---------------------------------------------------------------------------
// Type declarations
// ---------------------------------------------------------------------------

/// The resolved form of declared enum variants under the bindings visible
/// from scope `id`, with the declaration's type parameter resolving to a
/// type variable.
pub open spec fn spec_variants_resolve(
    sc: Scopes,
    id: int,
    param: Option<String>,
    vs: VariantsDeclare,
) -> Result<EnumVariants, RuntimeErrorKind>
    decreases vs,
{
    match vs {
        VariantsDeclare::Variants(rest, last) => match spec_variants_resolve(sc, id, param, *rest) {
            Ok(resolved_rest) => match spec_variant_resolve(sc, id, param, last) {
                Ok(resolved_last) => Ok(
                    EnumVariants::Variants(Box::new(resolved_rest), resolved_last),
                ),
                Err(k) => Err(k),
            },
            Err(k) => Err(k),
        },
        VariantsDeclare::Variant(single) => match spec_variant_resolve(sc, id, param, single) {
            Ok(resolved) => Ok(EnumVariants::Variant(resolved)),
            Err(k) => Err(k),
        },
    }
}

pub open spec fn spec_variant_resolve(
    sc: Scopes,
    id: int,
    param: Option<String>,
    v: crate::ast::VariantDeclare,
) -> Result<EnumVariant, RuntimeErrorKind> {
    match v {
        crate::ast::VariantDeclare::Empty(ident) => Ok(EnumVariant::Empty(ident)),
        crate::ast::VariantDeclare::Data(ident, lit) => match
            crate::inference::spec_tlv_resolve_decl(sc, id, param, lit) {
            Ok(t) => Ok(EnumVariant::Data(ident, Box::new(t))),
            Err(k) => Err(k),
        },
    }
}

/// Resolves declared enum variants against the given scope.
pub fn resolve_variants(
    variants: &VariantsDeclare,
    scopes: &Scopes,
    current_scope: usize,
    param: &Option<String>,
) -> (r: Result<EnumVariants, RuntimeError>)
    requires
        scopes.wf(),
        current_scope < scopes.scopes@.len(),
    ensures
        match spec_variants_resolve(*scopes, current_scope as int, *param, *variants) {
            Ok(resolved) => r matches Ok(found) && found == resolved,
            Err(k) => r matches Err(e) && e.kind == k,
        },
    decreases variants,
{
    match variants {
        VariantsDeclare::Variants(rest, last) => {
            let resolved_rest = match resolve_variants(rest, scopes, current_scope, param) {
                Ok(v) => v,
                Err(e) => {
                    return Err(e);
                },
            };
            match resolve_variant(last, scopes, current_scope, param) {
                Ok(resolved_last) => Ok(
                    EnumVariants::Variants(Box::new(resolved_rest), resolved_last),
                ),
                Err(e) => Err(e),
            }
        },
        VariantsDeclare::Variant(single) => match resolve_variant(
            single,
            scopes,
            current_scope,
            param,
        ) {
            Ok(resolved) => Ok(EnumVariants::Variant(resolved)),
            Err(e) => Err(e),
        },
    }
}

fn resolve_variant(
    variant: &crate::ast::VariantDeclare,
    scopes: &Scopes,
    current_scope: usize,
    param: &Option<String>,
) -> (r: Result<EnumVariant, RuntimeError>)
    requires
        scopes.wf(),
        current_scope < scopes.scopes@.len(),
    ensures
        match spec_variant_resolve(*scopes, current_scope as int, *param, *variant) {
            Ok(resolved) => r matches Ok(found) && found == resolved,
            Err(k) => r matches Err(e) && e.kind == k,
        },
{
    match variant {
        crate::ast::VariantDeclare::Empty(ident) => Ok(EnumVariant::Empty(ident.clone())),
        crate::ast::VariantDeclare::Data(ident, lit) => match crate::inference::tlv_resolve_decl(
            lit,
            scopes,
            current_scope,
            param,
        ) {
            Ok(t) => Ok(EnumVariant::Data(ident.clone(), Box::new(t))),
            Err(e) => Err(e),
        },
    }
}

/// The resolved form of declared struct fields, with the declaration's type
/// parameter resolving to a type variable.
pub open spec fn spec_fields_resolve(
    sc: Scopes,
    id: int,
    param: Option<String>,
    fs: StructFieldsDeclare,
) -> Result<StructFields, RuntimeErrorKind>
    decreases fs,
{
    match fs {
        StructFieldsDeclare::Fields(rest, last) => match spec_fields_resolve(sc, id, param, *rest) {
            Ok(resolved_rest) => match crate::inference::spec_tlv_resolve_decl(
                sc,
                id,
                param,
                last.field_type,
            ) {
                Ok(t) => Ok(
                    StructFields::Fields(
                        Box::new(resolved_rest),
                        (StructField { ident: last.ident, value_type: Box::new(t) }),
                    ),
                ),
                Err(k) => Err(k),
            },
            Err(k) => Err(k),
        },
        StructFieldsDeclare::Field(single) => match crate::inference::spec_tlv_resolve_decl(
            sc,
            id,
            param,
            single.field_type,
        ) {
            Ok(t) => Ok(
                StructFields::Field((StructField { ident: single.ident, value_type: Box::new(t) })),
            ),
            Err(k) => Err(k),
        },
    }
}

/// Resolves declared struct fields against the given scope.
fn resolve_fields(
    fields: &StructFieldsDeclare,
    scopes: &Scopes,
    current_scope: usize,
    param: &Option<String>,
) -> (r: Result<StructFields, RuntimeError>)
    requires
        scopes.wf(),
        current_scope < scopes.scopes@.len(),
    ensures
        match spec_fields_resolve(*scopes, current_scope as int, *param, *fields) {
            Ok(resolved) => r matches Ok(found) && found == resolved,
            Err(k) => r matches Err(e) && e.kind == k,
        },
    decreases fields,
{
    match fields {
        StructFieldsDeclare::Fields(rest, last) => {
            let resolved_rest = match resolve_fields(rest, scopes, current_scope, param) {
                Ok(v) => v,
                Err(e) => {
                    return Err(e);
                },
            };
            match crate::inference::tlv_resolve_decl(&last.field_type, scopes, current_scope, param) {
                Ok(t) => Ok(
                    StructFields::Fields(
                        Box::new(resolved_rest),
                        StructField { ident: last.ident.clone(), value_type: Box::new(t) },
                    ),
                ),
                Err(e) => Err(e),
            }
        },
        StructFieldsDeclare::Field(single) => match crate::inference::tlv_resolve_decl(
            &single.field_type,
            scopes,
            current_scope,
            param,
        ) {
            Ok(t) => Ok(
                StructFields::Field(
                    StructField { ident: single.ident.clone(), value_type: Box::new(t) },
                ),
            ),
            Err(e) => Err(e),
        },
    }
}

/// Installs an enum declaration into the current scope's type namespace:
/// the declared variants are resolved with the type parameter, if any,
/// standing for a type variable, and the binding is installed unless the
/// name is already taken locally.
pub fn eval_enum(
    ident: &str,
    type_param: &Option<String>,
    variants: &VariantsDeclare,
    scopes: &mut Scopes,
    current_scope: usize,
) -> (r: Result<Value, RuntimeError>)
    requires
        old(scopes).wf(),
        current_scope < old(scopes).scopes@.len(),
    ensures
        final(scopes).wf(),
        evolves(*old(scopes), *final(scopes)),
        scope_keys_frame(*old(scopes), *final(scopes), current_scope as int),
        match spec_variants_resolve(
            *old(scopes),
            current_scope as int,
            *type_param,
            *variants,
        ) {
            Err(k) => (r matches Err(e) && e.kind == k) && crate::scopes::unchanged_env(
                *old(scopes),
                *final(scopes),
            ),
            Ok(resolved) => {
                if find_entry(old(scopes).scopes@[current_scope as int].types@, ident@) is Some {
                    (r matches Err(e) && e.kind == RuntimeErrorKind::AlreadyBound)
                        && crate::scopes::unchanged_env(*old(scopes), *final(scopes))
                } else {
                    (r matches Ok(v) && v == Value::Void) && type_binding_added(
                        *old(scopes),
                        *final(scopes),
                        current_scope as int,
                        ident@,
                        TypeBinding::Enum(resolved, *type_param),
                    )
                }
            },
        },
{
    let resolved = match resolve_variants(variants, scopes, current_scope, type_param) {
        Ok(v) => v,
        Err(e) => {
            return Err(e);
        },
    };
    let param = crate::types::clone_opt_string(type_param);
    let r = scopes.add_type_binding(ident, current_scope, TypeBinding::Enum(resolved, param));
    proof {
        if r is Ok {
            let before = scopes.scopes@[current_scope as int].types@.drop_last();
            let entry = scopes.scopes@[current_scope as int].types@.last();
            crate::scopes::lemma_find_entry_appended(before, entry, ident@);
            assert(before.push(entry) =~= scopes.scopes@[current_scope as int].types@);
        }
    }
    r
}

/// Installs a struct declaration into the current scope's type namespace:
/// the declared fields are resolved with the type parameter, if any,
/// standing for a type variable, and the binding is installed unless the
/// name is already taken locally.
pub fn eval_struct(
    ident: &str,
    type_param: &Option<String>,
    fields: &StructFieldsDeclare,
    scopes: &mut Scopes,
    current_scope: usize,
) -> (r: Result<Value, RuntimeError>)
    requires
        old(scopes).wf(),
        current_scope < old(scopes).scopes@.len(),
    ensures
        final(scopes).wf(),
        evolves(*old(scopes), *final(scopes)),
        scope_keys_frame(*old(scopes), *final(scopes), current_scope as int),
        match spec_fields_resolve(*old(scopes), current_scope as int, *type_param, *fields) {
            Err(k) => (r matches Err(e) && e.kind == k) && crate::scopes::unchanged_env(
                *old(scopes),
                *final(scopes),
            ),
            Ok(resolved) => {
                if find_entry(old(scopes).scopes@[current_scope as int].types@, ident@) is Some {
                    (r matches Err(e) && e.kind == RuntimeErrorKind::AlreadyBound)
                        && crate::scopes::unchanged_env(*old(scopes), *final(scopes))
                } else {
                    (r matches Ok(v) && v == Value::Void) && type_binding_added(
                        *old(scopes),
                        *final(scopes),
                        current_scope as int,
                        ident@,
                        TypeBinding::Struct(resolved, *type_param),
                    )
                }
            },
        },
{
    let resolved = match resolve_fields(fields, scopes, current_scope, type_param) {
        Ok(v) => v,
        Err(e) => {
            return Err(e);
        },
    };
    let param = crate::types::clone_opt_string(type_param);
    let r = scopes.add_type_binding(ident, current_scope, TypeBinding::Struct(resolved, param));
    proof {
        if r is Ok {
            let before = scopes.scopes@[current_scope as int].types@.drop_last();
            let entry = scopes.scopes@[current_scope as int].types@.last();
            crate::scopes::lemma_find_entry_appended(before, entry, ident@);
            assert(before.push(entry) =~= scopes.scopes@[current_scope as int].types@);
        }
    }
    r
}

/// Installs a function declaration as an immutable closure binding, typed
/// by its resolved parameter and return types with the type parameter, if
/// any, standing for a type variable.
pub fn interpret_func(func: &crate::ast::Func, scopes: &mut Scopes, current_scope: usize) -> (r:
    Result<Value, RuntimeError>)
    requires
        old(scopes).wf(),
        current_scope < old(scopes).scopes@.len(),
    ensures
        final(scopes).wf(),
        evolves(*old(scopes), *final(scopes)),
        scope_keys_frame(*old(scopes), *final(scopes), current_scope as int),
        match crate::inference::spec_func_declared_type(
            *old(scopes),
            current_scope as int,
            func.type_param,
            *func.params,
            func.return_type,
        ) {
            Err(k) => (r matches Err(e) && e.kind == k) && crate::scopes::unchanged_env(
                *old(scopes),
                *final(scopes),
            ),
            Ok(declared) => {
                if find_entry(
                    old(scopes).scopes@[current_scope as int].values@,
                    func.ident@,
                ) is Some {
                    (r matches Err(e) && e.kind == RuntimeErrorKind::AlreadyBound)
                        && crate::scopes::unchanged_env(*old(scopes), *final(scopes))
                } else {
                    (r matches Ok(v) && v == Value::Void) && value_binding_added(
                        *old(scopes),
                        *final(scopes),
                        current_scope as int,
                        func.ident@,
                        (crate::scopes::Binding {
                            value: Value::Func(
                                (FuncValue {
                                    params: func.params,
                                    return_type: func.return_type,
                                    type_param: func.type_param,
                                    block: Box::new(FuncVariant::Nala(*func.block)),
                                    closure_scope: current_scope,
                                }),
                            ),
                            declared,
                            is_mutable: false,
                        }),
                    )
                }
            },
        },
{
    let declared = match crate::inference::func_declared_type(
        &func.params,
        &func.return_type,
        scopes,
        current_scope,
        &func.type_param,
    ) {
        Ok(t) => t,
        Err(e) => {
            return Err(e);
        },
    };
    let closure = FuncValue {
        params: Box::new((*func.params).clone()),
        return_type: func.return_type.clone(),
        type_param: crate::types::clone_opt_string(&func.type_param),
        block: Box::new(FuncVariant::Nala((*func.block).clone())),
        closure_scope: current_scope,
    };
    let r = scopes.add_binding(
        func.ident.as_str(),
        current_scope,
        declared,
        Value::Func(closure),
        false,
    );
    proof {
        if r is Ok {
            let before = scopes.scopes@[current_scope as int].values@.drop_last();
            let entry = scopes.scopes@[current_scope as int].values@.last();
            crate::scopes::lemma_find_entry_appended(before, entry, func.ident@);
            assert(before.push(entry) =~= scopes.scopes@[current_scope as int].values@);
        }
    }
    r
}

/// The value of a call node that is a literal./// An I/O context whose observable history is unchanged: nothing was
/// written and no scripted input was consumed.
pub open spec fn io_unchanged<C: IoContext>(before: C, after: C) -> bool {
    &&& after.outputs() == before.outputs()
    &&& after.inputs() == before.inputs()
}

/// The value of a call node that is a literal.
pub open spec fn spec_const_call(c: Call) -> Option<Value> {
    match c {
        Call::Value(v) => Some(v),
        _ => None,
    }
}

/// Composes two constant operands under an operator: errors are exactly the
/// operator's, and numeric results are pinned; a result that is not a number
/// (a concatenation) is left open.
pub open spec fn spec_const_oper(
    lo: Option<Result<Value, RuntimeErrorKind>>,
    ro: Option<Result<Value, RuntimeErrorKind>>,
    op: OpKind,
) -> Option<Result<Value, RuntimeErrorKind>> {
    match lo {
        None => None,
        Some(Err(k)) => Some(Err(k)),
        Some(Ok(lv)) => match ro {
            None => None,
            Some(Err(k)) => Some(Err(k)),
            Some(Ok(rv)) => match crate::operations::spec_oper_err(lv, op, rv) {
                Some(k) => Some(Err(k)),
                None => match (lv, rv) {
                    (Value::Num(a), Value::Num(b)) => match op {
                        OpKind::Add => Some(Ok(Value::Num(((a + b) as i64)))),
                        OpKind::Sub => Some(Ok(Value::Num(((a - b) as i64)))),
                        OpKind::Mult => Some(Ok(Value::Num(((a * b) as i64)))),
                        OpKind::Div => Some(
                            Ok(Value::Num((crate::operations::trunc_div(a as int, b as int) as i64))),
                        ),
                    },
                    _ => None,
                },
            },
        },
    }
}

/// The outcome of a multiplicative tree built from literals, if every leaf
/// is a literal.  Such a tree touches no scope, so its outcome is a function
/// of the tree alone.
pub open spec fn spec_const_factor(f: Factor) -> Option<Result<Value, RuntimeErrorKind>>
    decreases f,
{
    match f {
        Factor::Call(c) => match spec_const_call(c) {
            Some(v) => Some(Ok(v)),
            None => None,
        },
        Factor::Mult(left, right) => spec_const_oper(
            spec_const_factor(*left),
            match spec_const_call(right) {
                Some(v) => Some(Ok(v)),
                None => None,
            },
            OpKind::Mult,
        ),
        Factor::Div(left, right) => spec_const_oper(
            spec_const_factor(*left),
            match spec_const_call(right) {
                Some(v) => Some(Ok(v)),
                None => None,
            },
            OpKind::Div,
        ),
    }
}

/// The outcome of an additive tree built from literals.
pub open spec fn spec_const_addend(a: Addend) -> Option<Result<Value, RuntimeErrorKind>>
    decreases a,
{
    match a {
        Addend::Factor(f) => spec_const_factor(f),
        Addend::Add(left, right) => spec_const_oper(
            spec_const_addend(*left),
            spec_const_factor(right),
            OpKind::Add,
        ),
        Addend::Sub(left, right) => spec_const_oper(
            spec_const_addend(*left),
            spec_const_factor(right),
            OpKind::Sub,
        ),
    }
}

pub open spec fn spec_const_evoa(node: EnumVariantOrAddend) -> Option<
    Result<Value, RuntimeErrorKind>,
> {
    match node {
        EnumVariantOrAddend::Addend(a) => spec_const_addend(a),
        EnumVariantOrAddend::EnumVariant(_e, _v, _d) => None,
    }
}

/// The outcome of an expression built from literals, comparisons included.
pub open spec fn spec_const_expr(sc: Scopes, cur: int, e: Expr) -> Option<
    Result<Value, RuntimeErrorKind>,
>
    decreases e,
{
    match e {
        Expr::EnumVariant(node) => spec_const_evoa(node),
        Expr::Eq(left, right) => match (spec_const_expr(sc, cur, *left), spec_const_evoa(right)) {
            (Some(Ok(lv)), Some(Ok(rv))) => Some(crate::operations::spec_eval_equals(sc, cur, lv, rv)),
            (Some(Err(k)), _other) => Some(Err(k)),
            (Some(Ok(_lv)), Some(Err(k))) => Some(Err(k)),
            _ => None,
        },
        Expr::Lt(left, right) => match (spec_const_expr(sc, cur, *left), spec_const_addend(right)) {
            (Some(Ok(lv)), Some(Ok(rv))) => Some(crate::operations::spec_eval_lt(sc, cur, lv, rv)),
            (Some(Err(k)), _other) => Some(Err(k)),
            (Some(Ok(_lv)), Some(Err(k))) => Some(Err(k)),
            _ => None,
        },
        Expr::Gt(left, right) => match (spec_const_expr(sc, cur, *left), spec_const_addend(right)) {
            (Some(Ok(lv)), Some(Ok(rv))) => Some(crate::operations::spec_eval_gt(sc, cur, lv, rv)),
            (Some(Err(k)), _other) => Some(Err(k)),
            (Some(Ok(_lv)), Some(Err(k))) => Some(Err(k)),
            _ => None,
        },
        Expr::Array(_a) => None,
        Expr::Object(_o) => None,
    }
}

/// What the outcome pinned by a constant subtree means for an executable
/// result: the state is untouched and the result is the pinned one.
pub open spec fn const_outcome_holds(
    out: Option<Result<Value, RuntimeErrorKind>>,
    before: Scopes,
    after: Scopes,
    r: Result<Value, RuntimeError>,
) -> bool {
    match out {
        Some(Ok(v)) => after == before && (r matches Ok(rv) && rv == v),
        Some(Err(k)) => after == before && (r matches Err(e) && e.kind == k),
        None => true,
    }
}

/// What a successfully constructed variant value satisfies: it carries the
/// written tags and a payload exactly when the syntax supplied one, the
/// enum is bound with that variant declared, and a payload's inferred type
/// is assignable to the variant's declared data type after substituting the
/// enum's type parameter with it.
pub open spec fn spec_variant_outcome(
    before: Scopes,
    after: Scopes,
    cur: int,
    enum_ident: Seq<char>,
    variant_ident: Seq<char>,
    has_data: bool,
    out: Value,
) -> bool {
    match out {
        Value::Variant(ev) => {
            &&& ev.enum_ident@ == enum_ident
            &&& ev.variant_ident@ == variant_ident
            &&& (ev.data is Some <==> has_data)
            &&& match crate::scopes::lookup_type_binding(before.scopes@, cur, enum_ident) {
                Some(TypeBinding::Enum(variants, type_param)) => match
                    crate::inference::spec_find_variant(variants, variant_ident) {
                    Some(EnumVariant::Empty(_ident)) => ev.data is None,
                    Some(EnumVariant::Data(_ident, declared)) => match ev.data {
                        Some(payload) => match spec_infer_type(
                            after,
                            cur,
                            *payload,
                            INFER_FUEL as nat,
                        ) {
                            Ok(payload_type) => spec_assignable(
                                payload_type,
                                match type_param {
                                    Some(p) => crate::types::spec_make_concrete(
                                        *declared,
                                        p@,
                                        payload_type,
                                    ),
                                    None => *declared,
                                },
                            ),
                            Err(_k) => false,
                        },
                        None => true,
                    },
                    None => false,
                },
                _ => false,
            }
        },
        _ => false,
    }
}

/// The full outcome of constructing a variant whose payload expression, if
/// any, is pinned by the constant-subtree machinery: the enum binding and
/// the variant are looked up first, a supplied payload is then evaluated
/// and checked against the variant's declared data type after substituting
/// the enum's type parameter, and on success the constructed value carries
/// exactly the evaluated payload.  A payload whose outcome is not pinned
/// leaves the construction open.
pub open spec fn spec_variant_pinned(
    sc: Scopes,
    cur: int,
    enum_ident: String,
    variant_ident: String,
    data_out: Option<Option<Result<Value, RuntimeErrorKind>>>,
) -> Option<Result<Value, RuntimeErrorKind>> {
    match crate::scopes::lookup_type_binding(sc.scopes@, cur, enum_ident@) {
        None => Some(Err(RuntimeErrorKind::UnknownIdent)),
        Some(TypeBinding::Enum(variants, type_param)) => match
            crate::inference::spec_find_variant(variants, variant_ident@) {
            None => Some(Err(RuntimeErrorKind::UnknownIdent)),
            Some(found) => match data_out {
                None => Some(
                    Ok(
                        Value::Variant(
                            (EnumVariantValue { enum_ident, variant_ident, data: None }),
                        ),
                    ),
                ),
                Some(None) => None,
                Some(Some(Err(k))) => Some(Err(k)),
                Some(Some(Ok(payload))) => match found {
                    EnumVariant::Empty(_ident) => Some(Err(RuntimeErrorKind::TypeMismatch)),
                    EnumVariant::Data(_ident, declared) => match spec_infer_type(
                        sc,
                        cur,
                        payload,
                        INFER_FUEL as nat,
                    ) {
                        Err(k) => Some(Err(k)),
                        Ok(payload_type) => {
                            let expected = match type_param {
                                Some(p) => crate::types::spec_make_concrete(
                                    *declared,
                                    p@,
                                    payload_type,
                                ),
                                None => *declared,
                            };
                            if spec_assignable(payload_type, expected) {
                                Some(
                                    Ok(
                                        Value::Variant(
                                            (EnumVariantValue {
                                                enum_ident,
                                                variant_ident,
                                                data: Some(Box::new(payload)),
                                            }),
                                        ),
                                    ),
                                )
                            } else {
                                Some(Err(RuntimeErrorKind::TypeMismatch))
                            }
                        },
                    },
                },
            },
        },
        Some(_other) => Some(Err(RuntimeErrorKind::NotAnEnum)),
    }
}

/// How many expressions an element list holds.
pub open spec fn elems_count(elems: Elems) -> nat
    decreases elems,
{
    match elems {
        Elems::Elems(rest, _last) => elems_count(*rest) + 1,
        Elems::Expr(_single) => 1,
        Elems::Empty => 0,
    }
}

// ---------------------------------------------------------------------------
// Reading and writing places
// ---------------------------------------------------------------------------

/// The outcome of reading a place, where the environment pins it: a symbol
/// is a pure lookup, and an index or member read is pinned when its base is
/// and the index is a constant subtree.  An undetermined part leaves the
/// outcome open.
pub open spec fn spec_place_read_outcome(sc: Scopes, cur: int, place: PlaceExpression) -> Option<
    Result<Value, RuntimeErrorKind>,
>
    decreases place,
{
    match place {
        PlaceExpression::Symbol(ident) => match crate::scopes::lookup_binding(
            sc.scopes@,
            cur,
            ident@,
        ) {
            Some(b) => Some(Ok(b.value)),
            None => Some(Err(RuntimeErrorKind::UnknownIdent)),
        },
        PlaceExpression::Index(inner, index_expr) => match spec_place_read_outcome(
            sc,
            cur,
            *inner,
        ) {
            None => None,
            Some(Err(k)) => Some(Err(k)),
            Some(Ok(base)) => match spec_const_expr(sc, cur, *index_expr) {
                None => None,
                Some(Err(k)) => Some(Err(k)),
                Some(Ok(index_value)) => match index_value {
                    Value::Num(n) => match base {
                        Value::Array(id) => {
                            if n < 0 || n > usize::MAX {
                                Some(Err(RuntimeErrorKind::IndexOutOfRange))
                            } else if id >= sc.arrays@.len() {
                                Some(Err(RuntimeErrorKind::NotIndexable))
                            } else if n >= sc.arrays@[id as int]@.len() {
                                Some(Err(RuntimeErrorKind::IndexOutOfRange))
                            } else {
                                Some(Ok(sc.arrays@[id as int]@[n as int]))
                            }
                        },
                        _ => Some(Err(RuntimeErrorKind::NotIndexable)),
                    },
                    _ => Some(Err(RuntimeErrorKind::TypeMismatch)),
                },
            },
        },
        PlaceExpression::MemberAccess(inner, member) => match spec_place_read_outcome(
            sc,
            cur,
            *inner,
        ) {
            None => None,
            Some(Err(k)) => Some(Err(k)),
            Some(Ok(base)) => match base {
                Value::Object(id) => {
                    if id >= sc.objects@.len() {
                        Some(Err(RuntimeErrorKind::NotIndexable))
                    } else {
                        match find_entry(sc.objects@[id as int]@, member@) {
                            Some(v) => Some(Ok(v)),
                            None => Some(Err(RuntimeErrorKind::UnknownMember)),
                        }
                    }
                },
                _ => Some(Err(RuntimeErrorKind::NotIndexable)),
            },
        },
    }
}

/// What an assignment through an index place does, where the base read and
/// the index are pinned: the element of the shared array is replaced in
/// place and everything else is untouched, or the matching failure is
/// reported with the environment untouched.
pub open spec fn indexed_write_holds(
    before: Scopes,
    after: Scopes,
    base_outcome: Option<Result<Value, RuntimeErrorKind>>,
    index_outcome: Option<Result<Value, RuntimeErrorKind>>,
    value: Value,
    r: Result<Value, RuntimeError>,
) -> bool {
    match base_outcome {
        None => true,
        Some(Err(k)) => (r matches Err(e) && e.kind == k) && crate::scopes::unchanged_env(
            before,
            after,
        ),
        Some(Ok(base)) => match index_outcome {
            None => true,
            Some(Err(k)) => (r matches Err(e) && e.kind == k) && crate::scopes::unchanged_env(
                before,
                after,
            ),
            Some(Ok(index_value)) => match index_value {
                Value::Num(n) => match base {
                    Value::Array(id) => {
                        if n < 0 || n > usize::MAX {
                            (r matches Err(e) && e.kind == RuntimeErrorKind::IndexOutOfRange)
                                && crate::scopes::unchanged_env(before, after)
                        } else if id >= before.arrays@.len() {
                            (r matches Err(e) && e.kind == RuntimeErrorKind::NotIndexable)
                                && crate::scopes::unchanged_env(before, after)
                        } else if n >= before.arrays@[id as int]@.len() {
                            (r matches Err(e) && e.kind == RuntimeErrorKind::IndexOutOfRange)
                                && crate::scopes::unchanged_env(before, after)
                        } else {
                            &&& r matches Ok(v) && v == Value::Void
                            &&& after.scopes@ == before.scopes@
                            &&& after.objects@ == before.objects@
                            &&& after.arrays@.len() == before.arrays@.len()
                            &&& after.arrays@[id as int]@ == before.arrays@[id as int]@.update(
                                n as int,
                                value,
                            )
                            &&& forall|j: int|
                                0 <= j < before.arrays@.len() && j != id ==> after.arrays@[j]
                                    == before.arrays@[j]
                        }
                    },
                    _ => (r matches Err(e) && e.kind == RuntimeErrorKind::NotIndexable)
                        && crate::scopes::unchanged_env(before, after),
                },
                _ => (r matches Err(e) && e.kind == RuntimeErrorKind::TypeMismatch)
                    && crate::scopes::unchanged_env(before, after),
            },
        },
    }
}

/// What an assignment through a member place does, where the base read is
/// pinned: the member of the shared object is replaced or appended and
/// everything else is untouched, or the failure is reported with the
/// environment untouched.
pub open spec fn member_write_holds(
    before: Scopes,
    after: Scopes,
    base_outcome: Option<Result<Value, RuntimeErrorKind>>,
    member: Seq<char>,
    value: Value,
    r: Result<Value, RuntimeError>,
) -> bool {
    match base_outcome {
        None => true,
        Some(Err(k)) => (r matches Err(e) && e.kind == k) && crate::scopes::unchanged_env(
            before,
            after,
        ),
        Some(Ok(base)) => match base {
            Value::Object(id) => {
                if id >= before.objects@.len() {
                    (r matches Err(e) && e.kind == RuntimeErrorKind::NotIndexable)
                        && crate::scopes::unchanged_env(before, after)
                } else {
                    &&& r matches Ok(v) && v == Value::Void
                    &&& after.scopes@ == before.scopes@
                    &&& after.arrays@ == before.arrays@
                    &&& after.objects@.len() == before.objects@.len()
                    &&& forall|j: int|
                        0 <= j < before.objects@.len() && j != id ==> after.objects@[j]
                            == before.objects@[j]
                    &&& find_entry(after.objects@[id as int]@, member) == Some(value)
                    &&& match find_entry(before.objects@[id as int]@, member) {
                        Some(_prev) => after.objects@[id as int]@.len() == before.objects@[
                            id as int
                        ]@.len(),
                        None => after.objects@[id as int]@.len() == before.objects@[id as int]@.len()
                            + 1 && after.objects@[id as int]@.drop_last() == before.objects@[
                            id as int
                        ]@,
                    }
                    &&& forall|k: int|
                        0 <= k < before.objects@[id as int]@.len() && (
                        #[trigger] before.objects@[id as int]@[k]).0@ != member ==> after.objects@[
                            id as int
                        ]@[k] == before.objects@[id as int]@[k]
                }
            },
            _ => (r matches Err(e) && e.kind == RuntimeErrorKind::NotIndexable)
                && crate::scopes::unchanged_env(before, after),
        },
    }
}

/// Reads the value a place denotes: a symbol through the scope chain, an
/// index through the shared array it names, a member through the shared
/// object it names.
fn eval_place_expr_budgeted<C: IoContext>(
    place: &PlaceExpression,
    scopes: &mut Scopes,
    current_scope: usize,
    ctx: &mut C,
    budget: u64,
) -> (r: Result<Value, RuntimeError>)
    requires
        old(scopes).wf(),
        current_scope < old(scopes).scopes@.len(),
    ensures
        final(scopes).wf(),
        evolves(*old(scopes), *final(scopes)),
        scope_keys_frame(*old(scopes), *final(scopes), current_scope as int),
        scopes_shape_kept(*old(scopes), *final(scopes)),
        const_outcome_holds(
            spec_place_read_outcome(*old(scopes), current_scope as int, *place),
            *old(scopes),
            *final(scopes),
            r,
        ),
    decreases budget as nat, *place,
{
    match place {
        PlaceExpression::Symbol(ident) => scopes.get_value(ident.as_str(), current_scope),
        PlaceExpression::Index(inner, index_expr) => {
            let base = match eval_place_expr_budgeted(inner, scopes, current_scope, ctx, budget) {
                Ok(v) => v,
                Err(e) => {
                    return Err(e);
                },
            };
            let index_value = match evaluate_expr_budgeted(
                index_expr,
                scopes,
                current_scope,
                ctx,
                budget,
            ) {
                Ok(v) => v,
                Err(e) => {
                    return Err(e);
                },
            };
            let index = match index_value {
                Value::Num(n) => n,
                _ => {
                    return Err(
                        RuntimeError::new(
                            RuntimeErrorKind::TypeMismatch,
                            "Index does not resolve to a number.",
                        ),
                    );
                },
            };
            match base {
                Value::Array(id) => {
                    if index < 0 || (index as u64) > (usize::MAX as u64) {
                        return Err(
                            RuntimeError::new(
                                RuntimeErrorKind::IndexOutOfRange,
                                "Index out of range.",
                            ),
                        );
                    }
                    scopes.array_get(id, index as usize)
                },
                _ => Err(
                    RuntimeError::new(
                        RuntimeErrorKind::NotIndexable,
                        "Cannot index into a value which is not an array.",
                    ),
                ),
            }
        },
        PlaceExpression::MemberAccess(inner, member) => {
            let base = match eval_place_expr_budgeted(inner, scopes, current_scope, ctx, budget) {
                Ok(v) => v,
                Err(e) => {
                    return Err(e);
                },
            };
            match base {
                Value::Object(id) => scopes.object_get(id, member.as_str()),
                _ => Err(
                    RuntimeError::new(
                        RuntimeErrorKind::NotIndexable,
                        "Member access on a value which is not an object.",
                    ),
                ),
            }
        },
    }
}

/// Assigns an already evaluated value to a place.  Symbols go through the
/// mutation rules of the environment; indexed and member places update the
/// shared container in place, so every alias observes the write.
fn eval_assign_budgeted<C: IoContext>(
    variable: &PlaceExpression,
    value: Value,
    scopes: &mut Scopes,
    current_scope: usize,
    ctx: &mut C,
    budget: u64,
) -> (r: Result<Value, RuntimeError>)
    requires
        old(scopes).wf(),
        current_scope < old(scopes).scopes@.len(),
    ensures
        final(scopes).wf(),
        evolves(*old(scopes), *final(scopes)),
        scope_keys_frame(*old(scopes), *final(scopes), current_scope as int),
        scopes_shape_kept(*old(scopes), *final(scopes)),
        value is Void ==> (r matches Err(e) && e.kind == RuntimeErrorKind::VoidAssignment)
            && *final(scopes) == *old(scopes),
        variable matches PlaceExpression::Symbol(ident) ==> (!(value is Void) ==> match r {
            Ok(v) => v == Value::Void && spec_mutate_check(
                *old(scopes),
                current_scope as int,
                ident@,
                value,
            ) is None && crate::scopes::spec_symbol_write_ok(
                *old(scopes),
                *final(scopes),
                current_scope as int,
                ident@,
                value,
            ),
            Err(e) => spec_mutate_check(*old(scopes), current_scope as int, ident@, value) == Some(
                e.kind,
            ) && crate::scopes::unchanged_env(*old(scopes), *final(scopes)),
        }),
        variable matches PlaceExpression::Index(inner, index_expr) ==> (!(value is Void)
            ==> indexed_write_holds(
            *old(scopes),
            *final(scopes),
            spec_place_read_outcome(*old(scopes), current_scope as int, **inner),
            spec_const_expr(*old(scopes), current_scope as int, **index_expr),
            value,
            r,
        )),
        variable matches PlaceExpression::MemberAccess(inner, member) ==> (!(value is Void)
            ==> member_write_holds(
            *old(scopes),
            *final(scopes),
            spec_place_read_outcome(*old(scopes), current_scope as int, **inner),
            member@,
            value,
            r,
        )),
    decreases budget as nat, *variable,
{
    if value.is_void() {
        return Err(
            RuntimeError::new(RuntimeErrorKind::VoidAssignment, "Cannot assign a Void value."),
        );
    }
    match variable {
        PlaceExpression::Symbol(ident) => {
            let r = scopes.mutate_value(ident.as_str(), current_scope, value);
            proof {
                if r is Ok {
                    let d = crate::scopes::defining_scope(
                        old(scopes).scopes@,
                        current_scope as int,
                        ident@,
                    );
                    assert(crate::scopes::lookup_binding(
                        old(scopes).scopes@,
                        current_scope as int,
                        ident@,
                    ) is Some);
                    assert(d != -1);
                    crate::scopes::lemma_defining_scope_found(
                        old(scopes).scopes@,
                        current_scope as int,
                        ident@,
                    );
                    crate::scopes::lemma_frame_mutated(
                        *old(scopes),
                        *scopes,
                        d,
                        current_scope as int,
                    );
                } else {
                    crate::scopes::lemma_frame_identical(
                        *old(scopes),
                        *scopes,
                        current_scope as int,
                    );
                }
            }
            r
        },
        PlaceExpression::Index(inner, index_expr) => {
            let base = match eval_place_expr_budgeted(inner, scopes, current_scope, ctx, budget) {
                Ok(v) => v,
                Err(e) => {
                    return Err(e);
                },
            };
            let index_value = match evaluate_expr_budgeted(
                index_expr,
                scopes,
                current_scope,
                ctx,
                budget,
            ) {
                Ok(v) => v,
                Err(e) => {
                    return Err(e);
                },
            };
            let index = match index_value {
                Value::Num(n) => n,
                _ => {
                    return Err(
                        RuntimeError::new(
                            RuntimeErrorKind::TypeMismatch,
                            "Index does not resolve to a number.",
                        ),
                    );
                },
            };
            match base {
                Value::Array(id) => {
                    if index < 0 || (index as u64) > (usize::MAX as u64) {
                        return Err(
                            RuntimeError::new(
                                RuntimeErrorKind::IndexOutOfRange,
                                "Index out of range.",
                            ),
                        );
                    }
                    scopes.array_set(id, index as usize, value)
                },
                _ => Err(
                    RuntimeError::new(
                        RuntimeErrorKind::NotIndexable,
                        "Cannot index into a value which is not an array.",
                    ),
                ),
            }
        },
        PlaceExpression::MemberAccess(inner, member) => {
            let base = match eval_place_expr_budgeted(inner, scopes, current_scope, ctx, budget) {
                Ok(v) => v,
                Err(e) => {
                    return Err(e);
                },
            };
            match base {
                Value::Object(id) => scopes.object_set(id, member.as_str(), value),
                _ => Err(
                    RuntimeError::new(
                        RuntimeErrorKind::NotIndexable,
                        "Member access on a value which is not an object.",
                    ),
                ),
            }
        },
    }
}

// ---------------------------------------------------------------------------
// Expressions
// ---------------------------------------------------------------------------

fn evaluate_expr_budgeted<C: IoContext>(
    expr: &Expr,
    scopes: &mut Scopes,
    current_scope: usize,
    ctx: &mut C,
    budget: u64,
) -> (r: Result<Value, RuntimeError>)
    requires
        old(scopes).wf(),
        current_scope < old(scopes).scopes@.len(),
    ensures
        final(scopes).wf(),
        evolves(*old(scopes), *final(scopes)),
        scope_keys_frame(*old(scopes), *final(scopes), current_scope as int),
        scopes_shape_kept(*old(scopes), *final(scopes)),
        const_outcome_holds(
            spec_const_expr(*old(scopes), current_scope as int, *expr),
            *old(scopes),
            *final(scopes),
            r,
        ),
        spec_const_expr(*old(scopes), current_scope as int, *expr) is Some ==> io_unchanged(
            *old(ctx),
            *final(ctx),
        ),
    decreases budget as nat, *expr,

{
    match expr {
        Expr::Eq(left, right) => {
            let left_value = match evaluate_expr_budgeted(left, scopes, current_scope, ctx, budget) {
                Ok(v) => v,
                Err(e) => {
                    return Err(e);
                },
            };
            let right_value = match evaluate_enum_variant_budgeted(
                right,
                scopes,
                current_scope,
                ctx,
                budget,
            ) {
                Ok(v) => v,
                Err(e) => {
                    return Err(e);
                },
            };
            eval_equals(left_value, right_value, scopes, current_scope)
        },
        Expr::Gt(left, right) => {
            let left_value = match evaluate_expr_budgeted(left, scopes, current_scope, ctx, budget) {
                Ok(v) => v,
                Err(e) => {
                    return Err(e);
                },
            };
            let right_value = match evaluate_addend_budgeted(
                right,
                scopes,
                current_scope,
                ctx,
                budget,
            ) {
                Ok(v) => v,
                Err(e) => {
                    return Err(e);
                },
            };
            eval_gt(left_value, right_value, scopes, current_scope)
        },
        Expr::Lt(left, right) => {
            let left_value = match evaluate_expr_budgeted(left, scopes, current_scope, ctx, budget) {
                Ok(v) => v,
                Err(e) => {
                    return Err(e);
                },
            };
            let right_value = match evaluate_addend_budgeted(
                right,
                scopes,
                current_scope,
                ctx,
                budget,
            ) {
                Ok(v) => v,
                Err(e) => {
                    return Err(e);
                },
            };
            eval_lt(left_value, right_value, scopes, current_scope)
        },
        Expr::EnumVariant(inner) => evaluate_enum_variant_budgeted(
            inner,
            scopes,
            current_scope,
            ctx,
            budget,
        ),
        Expr::Array(array) => {
            let items = match evaluate_elems_budgeted(
                &array.elems,
                scopes,
                current_scope,
                ctx,
                budget,
            ) {
                Ok(v) => v,
                Err(e) => {
                    return Err(e);
                },
            };
            let id = scopes.new_array(items);
            Ok(Value::Array(id))
        },
        Expr::Object(object) => {
            let entries = match evaluate_object_entries_budgeted(
                &object.entries,
                scopes,
                current_scope,
                ctx,
                budget,
            ) {
                Ok(v) => v,
                Err(e) => {
                    return Err(e);
                },
            };
            let id = scopes.new_object(entries);
            Ok(Value::Object(id))
        },
    }
}

fn evaluate_enum_variant_budgeted<C: IoContext>(
    node: &EnumVariantOrAddend,
    scopes: &mut Scopes,
    current_scope: usize,
    ctx: &mut C,
    budget: u64,
) -> (r: Result<Value, RuntimeError>)
    requires
        old(scopes).wf(),
        current_scope < old(scopes).scopes@.len(),
    ensures
        final(scopes).wf(),
        evolves(*old(scopes), *final(scopes)),
        scope_keys_frame(*old(scopes), *final(scopes), current_scope as int),
        scopes_shape_kept(*old(scopes), *final(scopes)),
        const_outcome_holds(spec_const_evoa(*node), *old(scopes), *final(scopes), r),
        spec_const_evoa(*node) is Some ==> io_unchanged(*old(ctx), *final(ctx)),
        node matches EnumVariantOrAddend::EnumVariant(enum_ident, variant_ident, data) ==> (
        r matches Ok(out) ==> spec_variant_outcome(
            *old(scopes),
            *final(scopes),
            current_scope as int,
            enum_ident@,
            variant_ident@,
            data is Some,
            out,
        )),
        node matches EnumVariantOrAddend::EnumVariant(enum_ident, variant_ident, data)
            ==> const_outcome_holds(
            spec_variant_pinned(
                *old(scopes),
                current_scope as int,
                *enum_ident,
                *variant_ident,
                match data {
                    Some(d) => Some(spec_const_expr(*old(scopes), current_scope as int, **d)),
                    None => None,
                },
            ),
            *old(scopes),
            *final(scopes),
            r,
        ),
    decreases budget as nat, *node,
{
    match node {
        EnumVariantOrAddend::Addend(addend) => evaluate_addend_budgeted(
            addend,
            scopes,
            current_scope,
            ctx,
            budget,
        ),
        EnumVariantOrAddend::EnumVariant(enum_ident, variant_ident, data) => {
            let binding = match scopes.get_type(enum_ident.as_str(), current_scope) {
                Ok(b) => b,
                Err(e) => {
                    return Err(e);
                },
            };
            let (variants, type_param) = match binding.as_enum() {
                Ok(pair) => pair,
                Err(e) => {
                    return Err(e);
                },
            };
            let existing = match find_variant(&variants, variant_ident.as_str()) {
                Ok(v) => v,
                Err(e) => {
                    return Err(e);
                },
            };
            match data {
                Some(data_expr) => {
                    let data_value = match evaluate_expr_budgeted(
                        data_expr,
                        scopes,
                        current_scope,
                        ctx,
                        budget,
                    ) {
                        Ok(v) => v,
                        Err(e) => {
                            return Err(e);
                        },
                    };
                    let expected = match existing {
                        EnumVariant::Data(_ident, data_type) => *data_type,
                        EnumVariant::Empty(_ident) => {
                            return Err(
                                RuntimeError::new(
                                    RuntimeErrorKind::TypeMismatch,
                                    "Passed data when none was expected.",
                                ),
                            );
                        },
                    };
                    let data_type = match infer_type(&data_value, scopes, current_scope) {
                        Ok(t) => t,
                        Err(e) => {
                            return Err(e);
                        },
                    };
                    let expected = match &type_param {
                        Some(p) => expected.make_concrete(p.as_str(), &data_type),
                        None => expected,
                    };
                    if !data_type.is_assignable_to(&expected) {
                        let mut message = "Created a variant with data of type ".to_owned();
                        let found = data_type.to_string();
                        message.append(found.as_str());
                        message.append(" where ");
                        let wanted = expected.to_string();
                        message.append(wanted.as_str());
                        message.append(" is expected.");
                        return Err(
                            RuntimeError::new(RuntimeErrorKind::TypeMismatch, message.as_str()),
                        );
                    }
                    Ok(
                        Value::Variant(
                            EnumVariantValue {
                                enum_ident: enum_ident.clone(),
                                variant_ident: variant_ident.clone(),
                                data: Some(Box::new(data_value)),
                            },
                        ),
                    )
                },
                None => Ok(
                    Value::Variant(
                        EnumVariantValue {
                            enum_ident: enum_ident.clone(),
                            variant_ident: variant_ident.clone(),
                            data: None,
                        },
                    ),
                ),
            }
        },
    }
}

fn evaluate_addend_budgeted<C: IoContext>(
    addend: &Addend,
    scopes: &mut Scopes,
    current_scope: usize,
    ctx: &mut C,
    budget: u64,
) -> (r: Result<Value, RuntimeError>)
    requires
        old(scopes).wf(),
        current_scope < old(scopes).scopes@.len(),
    ensures
        final(scopes).wf(),
        evolves(*old(scopes), *final(scopes)),
        scope_keys_frame(*old(scopes), *final(scopes), current_scope as int),
        scopes_shape_kept(*old(scopes), *final(scopes)),
        const_outcome_holds(spec_const_addend(*addend), *old(scopes), *final(scopes), r),
        spec_const_addend(*addend) is Some ==> io_unchanged(*old(ctx), *final(ctx)),
    decreases budget as nat, *addend,
{
    match addend {
        Addend::Add(left, right) => {
            let left_value = match evaluate_addend_budgeted(
                left,
                scopes,
                current_scope,
                ctx,
                budget,
            ) {
                Ok(v) => v,
                Err(e) => {
                    return Err(e);
                },
            };
            let right_value = match evaluate_factor_budgeted(
                right,
                scopes,
                current_scope,
                ctx,
                budget,
            ) {
                Ok(v) => v,
                Err(e) => {
                    return Err(e);
                },
            };
            evaluate_oper(scopes, left_value, OpKind::Add, right_value)
        },
        Addend::Sub(left, right) => {
            let left_value = match evaluate_addend_budgeted(
                left,
                scopes,
                current_scope,
                ctx,
                budget,
            ) {
                Ok(v) => v,
                Err(e) => {
                    return Err(e);
                },
            };
            let right_value = match evaluate_factor_budgeted(
                right,
                scopes,
                current_scope,
                ctx,
                budget,
            ) {
                Ok(v) => v,
                Err(e) => {
                    return Err(e);
                },
            };
            evaluate_oper(scopes, left_value, OpKind::Sub, right_value)
        },
        Addend::Factor(factor) => evaluate_factor_budgeted(
            factor,
            scopes,
            current_scope,
            ctx,
            budget,
        ),
    }
}

fn evaluate_factor_budgeted<C: IoContext>(
    factor: &Factor,
    scopes: &mut Scopes,
    current_scope: usize,
    ctx: &mut C,
    budget: u64,
) -> (r: Result<Value, RuntimeError>)
    requires
        old(scopes).wf(),
        current_scope < old(scopes).scopes@.len(),
    ensures
        final(scopes).wf(),
        evolves(*old(scopes), *final(scopes)),
        scope_keys_frame(*old(scopes), *final(scopes), current_scope as int),
        scopes_shape_kept(*old(scopes), *final(scopes)),
        const_outcome_holds(spec_const_factor(*factor), *old(scopes), *final(scopes), r),
        spec_const_factor(*factor) is Some ==> io_unchanged(*old(ctx), *final(ctx)),
    decreases budget as nat, *factor,
{
    match factor {
        Factor::Mult(left, right) => {
            let left_value = match evaluate_factor_budgeted(
                left,
                scopes,
                current_scope,
                ctx,
                budget,
            ) {
                Ok(v) => v,
                Err(e) => {
                    return Err(e);
                },
            };
            let right_value = match evaluate_call_budgeted(
                right,
                scopes,
                current_scope,
                ctx,
                budget,
            ) {
                Ok(v) => v,
                Err(e) => {
                    return Err(e);
                },
            };
            evaluate_oper(scopes, left_value, OpKind::Mult, right_value)
        },
        Factor::Div(left, right) => {
            let left_value = match evaluate_factor_budgeted(
                left,
                scopes,
                current_scope,
                ctx,
                budget,
            ) {
                Ok(v) => v,
                Err(e) => {
                    return Err(e);
                },
            };
            let right_value = match evaluate_call_budgeted(
                right,
                scopes,
                current_scope,
                ctx,
                budget,
            ) {
                Ok(v) => v,
                Err(e) => {
                    return Err(e);
                },
            };
            evaluate_oper(scopes, left_value, OpKind::Div, right_value)
        },
        Factor::Call(call) => evaluate_call_budgeted(call, scopes, current_scope, ctx, budget),
    }
}

fn evaluate_elems_budgeted<C: IoContext>(
    elems: &Elems,
    scopes: &mut Scopes,
    current_scope: usize,
    ctx: &mut C,
    budget: u64,
) -> (r: Result<Vec<Value>, RuntimeError>)
    requires
        old(scopes).wf(),
        current_scope < old(scopes).scopes@.len(),
    ensures
        final(scopes).wf(),
        evolves(*old(scopes), *final(scopes)),
        scope_keys_frame(*old(scopes), *final(scopes), current_scope as int),
        scopes_shape_kept(*old(scopes), *final(scopes)),
        r matches Ok(values) ==> values@.len() == elems_count(*elems),
    decreases budget as nat, *elems,
{
    match elems {
        Elems::Elems(rest, last) => {
            let mut values = match evaluate_elems_budgeted(
                rest,
                scopes,
                current_scope,
                ctx,
                budget,
            ) {
                Ok(v) => v,
                Err(e) => {
                    return Err(e);
                },
            };
            let value = match evaluate_expr_budgeted(last, scopes, current_scope, ctx, budget) {
                Ok(v) => v,
                Err(e) => {
                    return Err(e);
                },
            };
            values.push(value);
            Ok(values)
        },
        Elems::Expr(single) => {
            let value = match evaluate_expr_budgeted(single, scopes, current_scope, ctx, budget) {
                Ok(v) => v,
                Err(e) => {
                    return Err(e);
                },
            };
            let mut values: Vec<Value> = Vec::new();
            values.push(value);
            Ok(values)
        },
        Elems::Empty => Ok(Vec::new()),
    }
}

fn evaluate_object_entries_budgeted<C: IoContext>(
    entries: &KeyValuePairs,
    scopes: &mut Scopes,
    current_scope: usize,
    ctx: &mut C,
    budget: u64,
) -> (r: Result<Vec<(String, Value)>, RuntimeError>)
    requires
        old(scopes).wf(),
        current_scope < old(scopes).scopes@.len(),
    ensures
        final(scopes).wf(),
        evolves(*old(scopes), *final(scopes)),
        scope_keys_frame(*old(scopes), *final(scopes), current_scope as int),
        scopes_shape_kept(*old(scopes), *final(scopes)),
    decreases budget as nat, *entries,
{
    match entries {
        KeyValuePairs::Pairs(rest, last) => {
            let mut values = match evaluate_object_entries_budgeted(
                rest,
                scopes,
                current_scope,
                ctx,
                budget,
            ) {
                Ok(v) => v,
                Err(e) => {
                    return Err(e);
                },
            };
            let value = match evaluate_expr_budgeted(
                &last.value,
                scopes,
                current_scope,
                ctx,
                budget,
            ) {
                Ok(v) => v,
                Err(e) => {
                    return Err(e);
                },
            };
            values.push((last.key.clone(), value));
            Ok(values)
        },
        KeyValuePairs::Pair(single) => {
            let value = match evaluate_expr_budgeted(
                &single.value,
                scopes,
                current_scope,
                ctx,
                budget,
            ) {
                Ok(v) => v,
                Err(e) => {
                    return Err(e);
                },
            };
            let mut values: Vec<(String, Value)> = Vec::new();
            values.push((single.key.clone(), value));
            Ok(values)
        },
    }
}

// ---------------------------------------------------------------------------
// Invocation
// ---------------------------------------------------------------------------

#[verifier::loop_isolation(false)]
fn evaluate_call_budgeted<C: IoContext>(
    call: &Call,
    scopes: &mut Scopes,
    current_scope: usize,
    ctx: &mut C,
    budget: u64,
) -> (r: Result<Value, RuntimeError>)
    requires
        old(scopes).wf(),
        current_scope < old(scopes).scopes@.len(),
    ensures
        final(scopes).wf(),
        evolves(*old(scopes), *final(scopes)),
        scope_keys_frame(*old(scopes), *final(scopes), current_scope as int),
        scopes_shape_kept(*old(scopes), *final(scopes)),
        call matches Call::Value(v) ==> (*final(scopes) == *old(scopes) && (r matches Ok(out) && out
            == v)),
        spec_const_call(*call) is Some ==> io_unchanged(*old(ctx), *final(ctx)),
    decreases budget as nat, *call,
{
    match call {
        Call::Value(value) => Ok(value.clone()),
        Call::PlaceExpression(place) => eval_place_expr_budgeted(
            place,
            scopes,
            current_scope,
            ctx,
            budget,
        ),
        Call::Invocation(place, args) => {
            let callee = match eval_place_expr_budgeted(place, scopes, current_scope, ctx, budget) {
                Ok(v) => v,
                Err(e) => {
                    return Err(e);
                },
            };
            let func = match callee {
                Value::Func(f) => f,
                _ => {
                    return Err(
                        RuntimeError::new(
                            RuntimeErrorKind::NotCallable,
                            "Cannot invoke a value which is not a function.",
                        ),
                    );
                },
            };
            let arg_values = match evaluate_elems_budgeted(
                args,
                scopes,
                current_scope,
                ctx,
                budget,
            ) {
                Ok(v) => v,
                Err(e) => {
                    return Err(e);
                },
            };
            if budget == 0 {
                return Err(
                    RuntimeError::new(
                        RuntimeErrorKind::BudgetExceeded,
                        "The evaluation budget ran out.",
                    ),
                );
            }
            if func.closure_scope >= scopes.scopes.len() {
                return Err(
                    RuntimeError::new(
                        RuntimeErrorKind::NotCallable,
                        "Closure captured an unknown scope.",
                    ),
                );
            }
            let ghost before_scope = *scopes;
            let call_scope = scopes.new_scope(Some(func.closure_scope));
            proof {
                crate::scopes::lemma_frame_append_scope(
                    before_scope,
                    *scopes,
                    current_scope as int,
                );
                crate::scopes::lemma_keys_frame_compose(
                    *old(scopes),
                    before_scope,
                    *scopes,
                    current_scope as int,
                    current_scope as int,
                );
                    crate::scopes::lemma_kept_trans(*old(scopes), before_scope, *scopes);
            }
            if let Some(p) = &func.type_param {
                let ghost before_param = *scopes;
                let added = scopes.add_type_binding(
                    p.as_str(),
                    call_scope,
                    TypeBinding::Generic(p.clone()),
                );
                proof {
                    if added is Ok {
                        crate::scopes::lemma_frame_type_pushed(
                            before_param,
                            *scopes,
                            call_scope as int,
                        );
                    } else {
                        crate::scopes::lemma_frame_identical(
                            before_param,
                            *scopes,
                            call_scope as int,
                        );
                    }
                    crate::scopes::lemma_keys_frame_compose(
                        *old(scopes),
                        before_param,
                        *scopes,
                        current_scope as int,
                        call_scope as int,
                    );
                    crate::scopes::lemma_kept_after_frame(*old(scopes), before_param, *scopes, call_scope as int);
                }
                if added.is_err() {
                    return Err(
                        RuntimeError::new(
                            RuntimeErrorKind::AlreadyBound,
                            "Type parameter already bound.",
                        ),
                    );
                }
            }
            let params = func.params.to_vec();
            if params.len() != arg_values.len() {
                return Err(
                    RuntimeError::new(
                        RuntimeErrorKind::ArityMismatch,
                        "Number of arguments does not match number of parameters.",
                    ),
                );
            }
            let mut param_types = match evaluate_params(&func.params, scopes, call_scope) {
                Ok(v) => v,
                Err(e) => {
                    return Err(e);
                },
            };
            if param_types.len() != params.len() {
                return Err(
                    RuntimeError::new(
                        RuntimeErrorKind::ArityMismatch,
                        "Number of arguments does not match number of parameters.",
                    ),
                );
            }
            let mut return_type = match TypeVariant::from_literal(
                &func.return_type,
                scopes,
                call_scope,
            ) {
                Ok(t) => t,
                Err(e) => {
                    return Err(e);
                },
            };
            if let Some(p) = &func.type_param {
                if arg_values.len() > 0 {
                    let concrete = match infer_type(&arg_values[0], scopes, call_scope) {
                        Ok(t) => t,
                        Err(e) => {
                            return Err(e);
                        },
                    };
                    let mut substituted: Vec<TypeVariant> = Vec::new();
                    let mut i: usize = 0;
                    while i < param_types.len()
                        invariant
                            i <= param_types@.len(),
                            substituted@.len() == i,
                            scopes.wf(),
                            call_scope < scopes.scopes@.len(),
                            call_scope >= old(scopes).scopes@.len(),
                            evolves(*old(scopes), *scopes),
                            scope_keys_frame(*old(scopes), *scopes, current_scope as int),
                            scopes_shape_kept(*old(scopes), *scopes),
                        decreases param_types@.len() - i,
                    {
                        let t = param_types[i].clone().make_concrete(p.as_str(), &concrete);
                        substituted.push(t);
                        i = i + 1;
                    }
                    param_types = substituted;
                    return_type = return_type.make_concrete(p.as_str(), &concrete);
                }
            }
            let mut i: usize = 0;
            while i < arg_values.len()
                invariant
                    i <= arg_values@.len(),
                    arg_values@.len() == params@.len(),
                    param_types@.len() == params@.len(),
                    scopes.wf(),
                    call_scope < scopes.scopes@.len(),
                    call_scope >= old(scopes).scopes@.len(),
                    evolves(*old(scopes), *scopes),
                    scope_keys_frame(*old(scopes), *scopes, current_scope as int),
                    scopes_shape_kept(*old(scopes), *scopes),
                decreases arg_values@.len() - i,
            {
                let arg_type = match infer_type(&arg_values[i], scopes, call_scope) {
                    Ok(t) => t,
                    Err(e) => {
                        return Err(e);
                    },
                };
                if !arg_type.is_assignable_to(&param_types[i]) {
                    return Err(
                        RuntimeError::new(
                            RuntimeErrorKind::TypeMismatch,
                            "Argument type is not assignable to the parameter type.",
                        ),
                    );
                }
                let ghost before_bind = *scopes;
                let added = scopes.add_binding(
                    params[i].ident.as_str(),
                    call_scope,
                    param_types[i].clone(),
                    arg_values[i].clone(),
                    false,
                );
                proof {
                    if added is Ok {
                        crate::scopes::lemma_frame_value_pushed(
                            before_bind,
                            *scopes,
                            call_scope as int,
                        );
                    } else {
                        crate::scopes::lemma_frame_identical(
                            before_bind,
                            *scopes,
                            call_scope as int,
                        );
                    }
                    crate::scopes::lemma_keys_frame_compose(
                        *old(scopes),
                        before_bind,
                        *scopes,
                        current_scope as int,
                        call_scope as int,
                    );
                    crate::scopes::lemma_kept_after_frame(*old(scopes), before_bind, *scopes, call_scope as int);
                }
                if let Err(e) = added {
                    return Err(e);
                }
                i = i + 1;
            }
            let result = match &*func.block {
                FuncVariant::Nala(block) => {
                    let ghost before_body = *scopes;
                    let body_result = interpret_block_budgeted(
                        block,
                        scopes,
                        call_scope,
                        ctx,
                        budget - 1,
                    );
                    proof {
                        crate::scopes::lemma_keys_frame_compose(
                            *old(scopes),
                            before_body,
                            *scopes,
                            current_scope as int,
                            call_scope as int,
                        );
                    crate::scopes::lemma_kept_after_frame(*old(scopes), before_body, *scopes, call_scope as int);
                    }
                    match body_result {
                        Ok(v) => v,
                        Err(e) => {
                            return Err(e);
                        },
                    }
                },
                FuncVariant::Builtin(kind) => {
                    match call_builtin(*kind, &arg_values, scopes, ctx) {
                        Ok(v) => v,
                        Err(e) => {
                            return Err(e);
                        },
                    }
                },
            };
            let result_type = match infer_type(&result, scopes, call_scope) {
                Ok(t) => t,
                Err(e) => {
                    return Err(e);
                },
            };
            if !result_type.is_assignable_to(&return_type) {
                return Err(
                    RuntimeError::new(
                        RuntimeErrorKind::ReturnTypeMismatch,
                        "Function returned a value of the wrong type.",
                    ),
                );
            }
            Ok(result)
        },
    }
}

// ---------------------------------------------------------------------------
// Statements
// ---------------------------------------------------------------------------

fn interpret_block_budgeted<C: IoContext>(
    block: &Block,
    scopes: &mut Scopes,
    current_scope: usize,
    ctx: &mut C,
    budget: u64,
) -> (r: Result<Value, RuntimeError>)
    requires
        old(scopes).wf(),
        current_scope < old(scopes).scopes@.len(),
    ensures
        final(scopes).wf(),
        evolves(*old(scopes), *final(scopes)),
        scope_keys_frame(*old(scopes), *final(scopes), current_scope as int),
    decreases budget as nat, *block,
{
    interpret_stmts_budgeted(&block.stmts, scopes, current_scope, ctx, budget)
}

/// Runs the statements in order, threading the block's current value: it
/// starts `Void`, and the first statement that produces a non-`Void` value
/// ends the block with that value, so `break` values and early results
/// unwind cleanly.
fn interpret_stmts_budgeted<C: IoContext>(
    stmts: &Stmts,
    scopes: &mut Scopes,
    current_scope: usize,
    ctx: &mut C,
    budget: u64,
) -> (r: Result<Value, RuntimeError>)
    requires
        old(scopes).wf(),
        current_scope < old(scopes).scopes@.len(),
    ensures
        final(scopes).wf(),
        evolves(*old(scopes), *final(scopes)),
        scope_keys_frame(*old(scopes), *final(scopes), current_scope as int),
        stmts matches Stmts::Stmt(Stmt::Expr(Expr::EnumVariant(node))) ==> (const_outcome_holds(
            spec_const_evoa(*node),
            *old(scopes),
            *final(scopes),
            r,
        ) && (spec_const_evoa(*node) is Some ==> io_unchanged(*old(ctx), *final(ctx)))),
        stmts matches Stmts::Stmts(rest, _last) ==> (**rest matches Stmts::Stmt(
            Stmt::Expr(Expr::EnumVariant(node)),
        ) ==> (match spec_const_evoa(node) {
            Some(Ok(v)) => !(v is Void) ==> ((r matches Ok(out) && out == v) && *final(scopes)
                == *old(scopes) && io_unchanged(*old(ctx), *final(ctx))),
            Some(Err(k)) => ((r matches Err(e) && e.kind == k) && *final(scopes) == *old(scopes)
                && io_unchanged(*old(ctx), *final(ctx))),
            None => true,
        })),
    decreases budget as nat, *stmts,
{
    match stmts {
        Stmts::Stmts(rest, last) => {
            let result = match interpret_stmts_budgeted(rest, scopes, current_scope, ctx, budget) {
                Ok(v) => v,
                Err(e) => {
                    return Err(e);
                },
            };
            if result.is_void() {
                interpret_stmt_budgeted(last, scopes, current_scope, ctx, budget)
            } else {
                Ok(result)
            }
        },
        Stmts::Stmt(single) => interpret_stmt_budgeted(single, scopes, current_scope, ctx, budget),
    }
}

#[verifier::loop_isolation(false)]
#[verifier::rlimit(60)]
fn interpret_stmt_budgeted<C: IoContext>(
    stmt: &Stmt,
    scopes: &mut Scopes,
    current_scope: usize,
    ctx: &mut C,
    budget: u64,
) -> (r: Result<Value, RuntimeError>)
    requires
        old(scopes).wf(),
        current_scope < old(scopes).scopes@.len(),
    ensures
        final(scopes).wf(),
        evolves(*old(scopes), *final(scopes)),
        scope_keys_frame(*old(scopes), *final(scopes), current_scope as int),
        match stmt {
            Stmt::Declare(_i, _e, _a, _m) => true,
            Stmt::Func(_f) => true,
            Stmt::Enum(_i, _p, _v) => true,
            Stmt::Struct(_i, _p, _f) => true,
            _ => scopes_shape_kept(*old(scopes), *final(scopes)),
        },
        stmt matches Stmt::Expr(Expr::EnumVariant(node)) ==> (const_outcome_holds(
            spec_const_evoa(*node),
            *old(scopes),
            *final(scopes),
            r,
        ) && (spec_const_evoa(*node) is Some ==> io_unchanged(*old(ctx), *final(ctx)))),
    decreases budget as nat, *stmt,
{
    match stmt {
        Stmt::Declare(ident, expr, annotation, is_mutable) => {
            let value = match evaluate_expr_budgeted(expr, scopes, current_scope, ctx, budget) {
                Ok(v) => v,
                Err(e) => {
                    return Err(e);
                },
            };
            eval_declare(ident.as_str(), value, annotation, scopes, current_scope, *is_mutable)
        },
        Stmt::Assign(place, expr) => {
            let value = match evaluate_expr_budgeted(expr, scopes, current_scope, ctx, budget) {
                Ok(v) => v,
                Err(e) => {
                    return Err(e);
                },
            };
            eval_assign_budgeted(place, value, scopes, current_scope, ctx, budget)
        },
        Stmt::Expr(expr) => evaluate_expr_budgeted(expr, scopes, current_scope, ctx, budget),
        Stmt::Break(expr) => {
            let value = match evaluate_expr_budgeted(expr, scopes, current_scope, ctx, budget) {
                Ok(v) => v,
                Err(e) => {
                    return Err(e);
                },
            };
            Ok(Value::Break(Box::new(value)))
        },
        Stmt::Func(func) => interpret_func(func, scopes, current_scope),
        Stmt::Enum(ident, type_param, variants) => eval_enum(
            ident.as_str(),
            type_param,
            variants,
            scopes,
            current_scope,
        ),
        Stmt::Struct(ident, type_param, fields) => eval_struct(
            ident.as_str(),
            type_param,
            fields,
            scopes,
            current_scope,
        ),
        Stmt::IfElseChain(chain) => {
            let taken = match eval_if_cases_budgeted(&chain.cases, scopes, current_scope, ctx, budget) {
                Ok(v) => v,
                Err(e) => {
                    return Err(e);
                },
            };
            match taken {
                Some(value) => Ok(value),
                None => match &chain.else_block {
                    Some(block) => {
                        let ghost before_scope = *scopes;
                        let block_scope = scopes.new_scope(Some(current_scope));
                        proof {
                            crate::scopes::lemma_frame_append_scope(
                                before_scope,
                                *scopes,
                                current_scope as int,
                            );
                            crate::scopes::lemma_keys_frame_compose(
                                *old(scopes),
                                before_scope,
                                *scopes,
                                current_scope as int,
                                current_scope as int,
                            );
                    crate::scopes::lemma_kept_trans(*old(scopes), before_scope, *scopes);
                        }
                        let ghost before_block = *scopes;
                        let block_result = interpret_block_budgeted(
                            block,
                            scopes,
                            block_scope,
                            ctx,
                            budget,
                        );
                        proof {
                            crate::scopes::lemma_keys_frame_compose(
                                *old(scopes),
                                before_block,
                                *scopes,
                                current_scope as int,
                                block_scope as int,
                            );
                    crate::scopes::lemma_kept_after_frame(*old(scopes), before_block, *scopes, block_scope as int);
                        }
                        block_result
                    },
                    None => Ok(Value::Void),
                },
            }
        },
        Stmt::Match(m) => {
            let subject = match evaluate_expr_budgeted(
                &m.subject,
                scopes,
                current_scope,
                ctx,
                budget,
            ) {
                Ok(v) => v,
                Err(e) => {
                    return Err(e);
                },
            };
            eval_match_arms_budgeted(&m.arms, &subject, scopes, current_scope, ctx, budget)
        },
        Stmt::For(ident, expr, block) => {
            let iterated = match evaluate_expr_budgeted(expr, scopes, current_scope, ctx, budget) {
                Ok(v) => v,
                Err(e) => {
                    return Err(e);
                },
            };
            let array_id = match iterated {
                Value::Array(id) => id,
                _ => {
                    return Err(
                        RuntimeError::new(
                            RuntimeErrorKind::TypeMismatch,
                            "Cannot iterate over a value which is not an array.",
                        ),
                    );
                },
            };
            let len = match scopes.array_len(array_id) {
                Ok(n) => n,
                Err(e) => {
                    return Err(e);
                },
            };
            let mut i: usize = 0;
            while i < len
                invariant
                    scopes.wf(),
                    current_scope < scopes.scopes@.len(),
                    evolves(*old(scopes), *scopes),
                    scope_keys_frame(*old(scopes), *scopes, current_scope as int),
                    scopes_shape_kept(*old(scopes), *scopes),
                decreases len - i,
            {
                let element = match scopes.array_get(array_id, i) {
                    Ok(v) => v,
                    Err(e) => {
                        return Err(e);
                    },
                };
                let ghost before_scope = *scopes;
                let block_scope = scopes.new_scope(Some(current_scope));
                proof {
                    crate::scopes::lemma_frame_append_scope(
                        before_scope,
                        *scopes,
                        current_scope as int,
                    );
                    crate::scopes::lemma_keys_frame_compose(
                        *old(scopes),
                        before_scope,
                        *scopes,
                        current_scope as int,
                        current_scope as int,
                    );
                    crate::scopes::lemma_kept_trans(*old(scopes), before_scope, *scopes);
                }
                let ghost before_bind = *scopes;
                let bound = eval_declare(
                    ident.as_str(),
                    element,
                    &None,
                    scopes,
                    block_scope,
                    false,
                );
                proof {
                    crate::scopes::lemma_keys_frame_compose(
                        *old(scopes),
                        before_bind,
                        *scopes,
                        current_scope as int,
                        block_scope as int,
                    );
                    crate::scopes::lemma_kept_after_frame(*old(scopes), before_bind, *scopes, block_scope as int);
                }
                if let Err(e) = bound {
                    return Err(e);
                }
                let ghost before_block = *scopes;
                let result = match interpret_block_budgeted(block, scopes, block_scope, ctx, budget) {
                    Ok(v) => v,
                    Err(e) => {
                        proof {
                            crate::scopes::lemma_keys_frame_compose(
                                *old(scopes),
                                before_block,
                                *scopes,
                                current_scope as int,
                                block_scope as int,
                            );
                    crate::scopes::lemma_kept_after_frame(*old(scopes), before_block, *scopes, block_scope as int);
                        }
                        return Err(e);
                    },
                };
                proof {
                    crate::scopes::lemma_keys_frame_compose(
                        *old(scopes),
                        before_block,
                        *scopes,
                        current_scope as int,
                        block_scope as int,
                    );
                    crate::scopes::lemma_kept_after_frame(*old(scopes), before_block, *scopes, block_scope as int);
                }
                match result {
                    Value::Void => {},
                    Value::Break(inner) => {
                        return Ok(*inner);
                    },
                    other => {
                        return Ok(other);
                    },
                }
                i = i + 1;
            }
            Ok(Value::Void)
        },
        Stmt::Wiles(cond, block) => {
            let mut remaining: u64 = budget;
            loop
                invariant
                    scopes.wf(),
                    current_scope < scopes.scopes@.len(),
                    evolves(*old(scopes), *scopes),
                    scope_keys_frame(*old(scopes), *scopes, current_scope as int),
                    scopes_shape_kept(*old(scopes), *scopes),
                    remaining <= budget,
                decreases remaining,
            {
                if remaining == 0 {
                    return Err(
                        RuntimeError::new(
                            RuntimeErrorKind::BudgetExceeded,
                            "The evaluation budget ran out.",
                        ),
                    );
                }
                remaining = remaining - 1;
                let cond_value = match evaluate_expr_budgeted(
                    cond,
                    scopes,
                    current_scope,
                    ctx,
                    remaining,
                ) {
                    Ok(v) => v,
                    Err(e) => {
                        return Err(e);
                    },
                };
                let keep_going = match cond_value {
                    Value::Bool(b) => b,
                    _ => {
                        return Err(
                            RuntimeError::new(
                                RuntimeErrorKind::TypeMismatch,
                                "Loop condition is not a boolean.",
                            ),
                        );
                    },
                };
                if !keep_going {
                    return Ok(Value::Void);
                }
                let ghost before_scope = *scopes;
                let block_scope = scopes.new_scope(Some(current_scope));
                proof {
                    crate::scopes::lemma_frame_append_scope(
                        before_scope,
                        *scopes,
                        current_scope as int,
                    );
                    crate::scopes::lemma_keys_frame_compose(
                        *old(scopes),
                        before_scope,
                        *scopes,
                        current_scope as int,
                        current_scope as int,
                    );
                    crate::scopes::lemma_kept_trans(*old(scopes), before_scope, *scopes);
                }
                let ghost before_block = *scopes;
                let result = match interpret_block_budgeted(
                    block,
                    scopes,
                    block_scope,
                    ctx,
                    remaining,
                ) {
                    Ok(v) => v,
                    Err(e) => {
                        proof {
                            crate::scopes::lemma_keys_frame_compose(
                                *old(scopes),
                                before_block,
                                *scopes,
                                current_scope as int,
                                block_scope as int,
                            );
                    crate::scopes::lemma_kept_after_frame(*old(scopes), before_block, *scopes, block_scope as int);
                        }
                        return Err(e);
                    },
                };
                proof {
                    crate::scopes::lemma_keys_frame_compose(
                        *old(scopes),
                        before_block,
                        *scopes,
                        current_scope as int,
                        block_scope as int,
                    );
                    crate::scopes::lemma_kept_after_frame(*old(scopes), before_block, *scopes, block_scope as int);
                }
                match result {
                    Value::Void => {},
                    Value::Break(inner) => {
                        return Ok(*inner);
                    },
                    other => {
                        return Ok(other);
                    },
                }
            }
        },
    }
}

/// Tries each guarded case in order; the first true guard runs its block in
/// a fresh child scope.  Yields nothing when no guard is true, so the
/// caller can fall through to the else block.
fn eval_if_cases_budgeted<C: IoContext>(
    cases: &IfCases,
    scopes: &mut Scopes,
    current_scope: usize,
    ctx: &mut C,
    budget: u64,
) -> (r: Result<Option<Value>, RuntimeError>)
    requires
        old(scopes).wf(),
        current_scope < old(scopes).scopes@.len(),
    ensures
        final(scopes).wf(),
        evolves(*old(scopes), *final(scopes)),
        scope_keys_frame(*old(scopes), *final(scopes), current_scope as int),
        scopes_shape_kept(*old(scopes), *final(scopes)),
    decreases budget as nat, *cases,
{
    let (case, rest): (&crate::ast::IfCase, Option<&IfCases>) = match cases {
        IfCases::Cases(first, more) => (first, Some(more)),
        IfCases::Case(single) => (single, None),
    };
    let cond_value = match evaluate_expr_budgeted(&case.cond, scopes, current_scope, ctx, budget) {
        Ok(v) => v,
        Err(e) => {
            return Err(e);
        },
    };
    let taken = match cond_value {
        Value::Bool(b) => b,
        _ => {
            return Err(
                RuntimeError::new(
                    RuntimeErrorKind::TypeMismatch,
                    "Branch condition is not a boolean.",
                ),
            );
        },
    };
    if taken {
        let ghost before_scope = *scopes;
        let block_scope = scopes.new_scope(Some(current_scope));
        proof {
            crate::scopes::lemma_frame_append_scope(before_scope, *scopes, current_scope as int);
            crate::scopes::lemma_keys_frame_compose(
                *old(scopes),
                before_scope,
                *scopes,
                current_scope as int,
                current_scope as int,
            );
                    crate::scopes::lemma_kept_trans(*old(scopes), before_scope, *scopes);
        }
        let ghost before_block = *scopes;
        let block_result = interpret_block_budgeted(&case.block, scopes, block_scope, ctx, budget);
        proof {
            crate::scopes::lemma_keys_frame_compose(
                *old(scopes),
                before_block,
                *scopes,
                current_scope as int,
                block_scope as int,
            );
                    crate::scopes::lemma_kept_after_frame(*old(scopes), before_block, *scopes, block_scope as int);
        }
        match block_result {
            Ok(v) => Ok(Some(v)),
            Err(e) => Err(e),
        }
    } else {
        match rest {
            Some(more) => eval_if_cases_budgeted(more, scopes, current_scope, ctx, budget),
            None => Ok(None),
        }
    }
}

/// Tests the arms in declaration order; the first pattern that accepts the
/// scrutinee runs its arm in a fresh child scope holding the pattern's
/// bindings.  A match with no accepting arm fails.
#[verifier::loop_isolation(false)]
fn eval_match_arms_budgeted<C: IoContext>(
    arms: &MatchArms,
    subject: &Value,
    scopes: &mut Scopes,
    current_scope: usize,
    ctx: &mut C,
    budget: u64,
) -> (r: Result<Value, RuntimeError>)
    requires
        old(scopes).wf(),
        current_scope < old(scopes).scopes@.len(),
    ensures
        final(scopes).wf(),
        evolves(*old(scopes), *final(scopes)),
        scope_keys_frame(*old(scopes), *final(scopes), current_scope as int),
        scopes_shape_kept(*old(scopes), *final(scopes)),
    decreases budget as nat, *arms,
{
    let (arm, rest): (&crate::ast::MatchArm, Option<&MatchArms>) = match arms {
        MatchArms::Arms(first, more) => (first, Some(more)),
        MatchArms::Arm(single) => (single, None),
    };
    match match_pattern(&arm.pattern, subject) {
        Some(bindings) => {
            let ghost before_scope = *scopes;
            let arm_scope = scopes.new_scope(Some(current_scope));
            proof {
                crate::scopes::lemma_frame_append_scope(
                    before_scope,
                    *scopes,
                    current_scope as int,
                );
            }
            let mut i: usize = 0;
            while i < bindings.len()
                invariant
                    scopes.wf(),
                    arm_scope < scopes.scopes@.len(),
                    arm_scope >= old(scopes).scopes@.len(),
                    evolves(*old(scopes), *scopes),
                    scope_keys_frame(*old(scopes), *scopes, current_scope as int),
                    scopes_shape_kept(*old(scopes), *scopes),
                decreases bindings@.len() - i,
            {
                let ghost before_bind = *scopes;
                let bound = eval_declare(
                    bindings[i].0.as_str(),
                    bindings[i].1.clone(),
                    &None,
                    scopes,
                    arm_scope,
                    false,
                );
                proof {
                    crate::scopes::lemma_keys_frame_compose(
                        *old(scopes),
                        before_bind,
                        *scopes,
                        current_scope as int,
                        arm_scope as int,
                    );
                    crate::scopes::lemma_kept_after_frame(*old(scopes), before_bind, *scopes, arm_scope as int);
                }
                if let Err(e) = bound {
                    return Err(e);
                }
                i = i + 1;
            }
            let ghost before_body = *scopes;
            let body_result = evaluate_expr_budgeted(&arm.body, scopes, arm_scope, ctx, budget);
            proof {
                crate::scopes::lemma_keys_frame_compose(
                    *old(scopes),
                    before_body,
                    *scopes,
                    current_scope as int,
                    arm_scope as int,
                );
                    crate::scopes::lemma_kept_after_frame(*old(scopes), before_body, *scopes, arm_scope as int);
            }
            body_result
        },
        None => match rest {
            Some(more) => eval_match_arms_budgeted(
                more,
                subject,
                scopes,
                current_scope,
                ctx,
                budget,
            ),
            None => Err(
                RuntimeError::new(RuntimeErrorKind::MatchNoArm, "No match arm accepted the value."),
            ),
        },
    }
}

// ---------------------------------------------------------------------------
// Entry points
// ---------------------------------------------------------------------------

/// Evaluates an expression in the given scope under the default budget.
pub fn evaluate_expr<C: IoContext>(
    expr: &Expr,
    scopes: &mut Scopes,
    current_scope: usize,
    ctx: &mut C,
) -> (r: Result<Value, RuntimeError>)
    requires
        old(scopes).wf(),
        current_scope < old(scopes).scopes@.len(),
    ensures
        final(scopes).wf(),
        evolves(*old(scopes), *final(scopes)),
        scope_keys_frame(*old(scopes), *final(scopes), current_scope as int),
        scopes_shape_kept(*old(scopes), *final(scopes)),
        const_outcome_holds(
            spec_const_expr(*old(scopes), current_scope as int, *expr),
            *old(scopes),
            *final(scopes),
            r,
        ),
{
    evaluate_expr_budgeted(expr, scopes, current_scope, ctx, EVAL_BUDGET)
}

/// Evaluates an additive arithmetic tree under the default budget.
pub fn evaluate_addend<C: IoContext>(
    addend: &Addend,
    scopes: &mut Scopes,
    current_scope: usize,
    ctx: &mut C,
) -> (r: Result<Value, RuntimeError>)
    requires
        old(scopes).wf(),
        current_scope < old(scopes).scopes@.len(),
    ensures
        final(scopes).wf(),
        evolves(*old(scopes), *final(scopes)),
        scope_keys_frame(*old(scopes), *final(scopes), current_scope as int),
        scopes_shape_kept(*old(scopes), *final(scopes)),
        const_outcome_holds(spec_const_addend(*addend), *old(scopes), *final(scopes), r),
{
    evaluate_addend_budgeted(addend, scopes, current_scope, ctx, EVAL_BUDGET)
}

/// Evaluates a multiplicative arithmetic tree under the default budget.
pub fn evaluate_factor<C: IoContext>(
    factor: &Factor,
    scopes: &mut Scopes,
    current_scope: usize,
    ctx: &mut C,
) -> (r: Result<Value, RuntimeError>)
    requires
        old(scopes).wf(),
        current_scope < old(scopes).scopes@.len(),
    ensures
        final(scopes).wf(),
        evolves(*old(scopes), *final(scopes)),
        scope_keys_frame(*old(scopes), *final(scopes), current_scope as int),
        scopes_shape_kept(*old(scopes), *final(scopes)),
        const_outcome_holds(spec_const_factor(*factor), *old(scopes), *final(scopes), r),
{
    evaluate_factor_budgeted(factor, scopes, current_scope, ctx, EVAL_BUDGET)
}

/// Constructs an enum variant value, checking the payload against the
/// variant's declared data type.
pub fn evaluate_variant<C: IoContext>(
    variant: &EnumVariantOrAddend,
    scopes: &mut Scopes,
    current_scope: usize,
    ctx: &mut C,
) -> (r: Result<Value, RuntimeError>)
    requires
        old(scopes).wf(),
        current_scope < old(scopes).scopes@.len(),
    ensures
        final(scopes).wf(),
        evolves(*old(scopes), *final(scopes)),
        scope_keys_frame(*old(scopes), *final(scopes), current_scope as int),
        scopes_shape_kept(*old(scopes), *final(scopes)),
        const_outcome_holds(spec_const_evoa(*variant), *old(scopes), *final(scopes), r),
        variant matches EnumVariantOrAddend::EnumVariant(enum_ident, variant_ident, data) ==> (
        r matches Ok(out) ==> spec_variant_outcome(
            *old(scopes),
            *final(scopes),
            current_scope as int,
            enum_ident@,
            variant_ident@,
            data is Some,
            out,
        )),
        variant matches EnumVariantOrAddend::EnumVariant(enum_ident, variant_ident, data)
            ==> const_outcome_holds(
            spec_variant_pinned(
                *old(scopes),
                current_scope as int,
                *enum_ident,
                *variant_ident,
                match data {
                    Some(d) => Some(spec_const_expr(*old(scopes), current_scope as int, **d)),
                    None => None,
                },
            ),
            *old(scopes),
            *final(scopes),
            r,
        ),
{
    evaluate_enum_variant_budgeted(variant, scopes, current_scope, ctx, EVAL_BUDGET)
}

/// Reads the value a place denotes under the default budget.
pub fn eval_place_expr<C: IoContext>(
    variable: &PlaceExpression,
    scopes: &mut Scopes,
    current_scope: usize,
    ctx: &mut C,
) -> (r: Result<Value, RuntimeError>)
    requires
        old(scopes).wf(),
        current_scope < old(scopes).scopes@.len(),
    ensures
        final(scopes).wf(),
        evolves(*old(scopes), *final(scopes)),
        scope_keys_frame(*old(scopes), *final(scopes), current_scope as int),
        scopes_shape_kept(*old(scopes), *final(scopes)),
        const_outcome_holds(
            spec_place_read_outcome(*old(scopes), current_scope as int, *variable),
            *old(scopes),
            *final(scopes),
            r,
        ),
{
    eval_place_expr_budgeted(variable, scopes, current_scope, ctx, EVAL_BUDGET)
}

/// Assigns an already evaluated value to a place under the default budget.
pub fn eval_assign<C: IoContext>(
    variable: &PlaceExpression,
    value: Value,
    scopes: &mut Scopes,
    current_scope: usize,
    ctx: &mut C,
) -> (r: Result<Value, RuntimeError>)
    requires
        old(scopes).wf(),
        current_scope < old(scopes).scopes@.len(),
    ensures
        final(scopes).wf(),
        evolves(*old(scopes), *final(scopes)),
        scope_keys_frame(*old(scopes), *final(scopes), current_scope as int),
        scopes_shape_kept(*old(scopes), *final(scopes)),
        value is Void ==> (r matches Err(e) && e.kind == RuntimeErrorKind::VoidAssignment)
            && *final(scopes) == *old(scopes),
        variable matches PlaceExpression::Symbol(ident) ==> (!(value is Void) ==> match r {
            Ok(v) => v == Value::Void && spec_mutate_check(
                *old(scopes),
                current_scope as int,
                ident@,
                value,
            ) is None && crate::scopes::spec_symbol_write_ok(
                *old(scopes),
                *final(scopes),
                current_scope as int,
                ident@,
                value,
            ),
            Err(e) => spec_mutate_check(*old(scopes), current_scope as int, ident@, value) == Some(
                e.kind,
            ) && crate::scopes::unchanged_env(*old(scopes), *final(scopes)),
        }),
        variable matches PlaceExpression::Index(inner, index_expr) ==> (!(value is Void)
            ==> indexed_write_holds(
            *old(scopes),
            *final(scopes),
            spec_place_read_outcome(*old(scopes), current_scope as int, **inner),
            spec_const_expr(*old(scopes), current_scope as int, **index_expr),
            value,
            r,
        )),
        variable matches PlaceExpression::MemberAccess(inner, member) ==> (!(value is Void)
            ==> member_write_holds(
            *old(scopes),
            *final(scopes),
            spec_place_read_outcome(*old(scopes), current_scope as int, **inner),
            member@,
            value,
            r,
        )),
{
    eval_assign_budgeted(variable, value, scopes, current_scope, ctx, EVAL_BUDGET)
}

/// Runs a whole program: builds a root scope, installs the built-in
/// library, and interprets the statements in order under the default
/// budget.  The program's final value is returned.  For a program that is
/// one expression statement built from literals, the outcome and the
/// untouched I/O trace are pinned here; richer programs are specified by
/// the statement and expression contracts the run composes.
pub fn interpret_tree<C: IoContext>(program: &Program, context: &mut C) -> (r: Result<
    Value,
    RuntimeError,
>)
    ensures
        program matches Program::Stmts(Stmts::Stmt(Stmt::Expr(Expr::EnumVariant(node)))) ==> (
        match spec_const_evoa(*node) {
            Some(Ok(v)) => (r matches Ok(out) && out == v) && io_unchanged(
                *old(context),
                *final(context),
            ),
            Some(Err(k)) => (r matches Err(e) && e.kind == k) && io_unchanged(
                *old(context),
                *final(context),
            ),
            None => true,
        }),
{
    let mut scopes = Scopes::new();
    let top_scope = scopes.new_scope(None);
    register_builtins(&mut scopes, top_scope);
    match program {
        Program::Block(block) => interpret_block_budgeted(
            block,
            &mut scopes,
            top_scope,
            context,
            EVAL_BUDGET,
        ),
        Program::Stmts(stmts) => interpret_stmts_budgeted(
            stmts,
            &mut scopes,
            top_scope,
            context,
            EVAL_BUDGET,
        ),
    }
}

/// Runs a whole program and discards its final value, as a command-line
/// embedder does.
pub fn interpret<C: IoContext>(program: &Program, context: &mut C) -> (r: Result<
    (),
    RuntimeError,
>)
    ensures
        program matches Program::Stmts(Stmts::Stmt(Stmt::Expr(Expr::EnumVariant(node)))) ==> (
        match spec_const_evoa(*node) {
            Some(Ok(_v)) => r is Ok && io_unchanged(*old(context), *final(context)),
            Some(Err(k)) => (r matches Err(e) && e.kind == k) && io_unchanged(
                *old(context),
                *final(context),
            ),
            None => true,
        }),
{
    match interpret_tree(program, context) {
        Ok(_value) => Ok(()),
        Err(e) => Err(e),
    }
}

} // verus!
