use vstd::prelude::*;

use crate::errors::RuntimeError;
use crate::errors::RuntimeErrorKind;
use crate::scopes::lookup_type_binding;
use crate::scopes::Scopes;
use crate::scopes::TypeBinding;
use crate::types::str_eq;
use crate::types::EnumVariant;
use crate::types::EnumVariants;
use crate::types::NalaType;
use crate::types::PrimitiveType;
use crate::types::StructField;
use crate::types::StructFields;
use crate::types::TypeLiteral;
use crate::types::TypeLiteralVariant;
use crate::types::TypeLiterals;
use crate::types::Types;
use crate::values::Value;
use crate::display::val_height;

verus! {

// ---------------------------------------------------------------------------
// Resolving written types against the scope's type namespace
// ---------------------------------------------------------------------------

/// The resolved form of a bare type name under the bindings visible from
/// scope `id`.
pub open spec fn spec_tl_resolve(sc: Scopes, id: int, lit: TypeLiteral) -> Result<
    NalaType,
    RuntimeErrorKind,
> {
    match lit {
        TypeLiteral::PrimitiveType(p) => Ok(NalaType::PrimitiveType(p)),
        TypeLiteral::UserDefined(ident) => match lookup_type_binding(sc.scopes@, id, ident@) {
            Some(TypeBinding::Enum(variants, type_param)) => Ok(
                NalaType::Enum(ident, variants, type_param),
            ),
            Some(TypeBinding::Struct(fields, type_param)) => Ok(
                NalaType::Struct(fields, type_param),
            ),
            Some(TypeBinding::Generic(g)) => Ok(NalaType::Generic(g)),
            Some(TypeBinding::PrimitiveType(p)) => Ok(NalaType::PrimitiveType(p)),
            None => Err(RuntimeErrorKind::UnknownIdent),
        },
    }
}

pub open spec fn spec_tlv_resolve(sc: Scopes, id: int, lit: TypeLiteralVariant) -> Result<
    crate::types::TypeVariant,
    RuntimeErrorKind,
>
    decreases lit,
{
    match lit {
        TypeLiteralVariant::Type(base) => match spec_tl_resolve(sc, id, base) {
            Ok(t) => Ok(crate::types::TypeVariant::Type(t)),
            Err(e) => Err(e),
        },
        TypeLiteralVariant::Composite(base, args) => match spec_tl_resolve(sc, id, base) {
            Ok(t) => match spec_tls_resolve(sc, id, *args) {
                Ok(resolved_args) => Ok(
                    crate::types::TypeVariant::Composite(t, Box::new(resolved_args)),
                ),
                Err(e) => Err(e),
            },
            Err(e) => Err(e),
        },
    }
}

pub open spec fn spec_tls_resolve(sc: Scopes, id: int, lits: TypeLiterals) -> Result<
    Types,
    RuntimeErrorKind,
>
    decreases lits,
{
    match lits {
        TypeLiterals::Literals(rest, last) => match spec_tls_resolve(sc, id, *rest) {
            Ok(resolved_rest) => match spec_tlv_resolve(sc, id, last) {
                Ok(resolved_last) => Ok(Types::Types(Box::new(resolved_rest), resolved_last)),
                Err(e) => Err(e),
            },
            Err(e) => Err(e),
        },
        TypeLiterals::Literal(single) => match spec_tlv_resolve(sc, id, single) {
            Ok(resolved) => Ok(Types::Type(resolved)),
            Err(e) => Err(e),
        },
    }
}

impl NalaType {
    /// Resolves a bare written type name against the current scope.
    pub fn from_literal(literal: &TypeLiteral, scopes: &Scopes, current_scope: usize) -> (r:
        Result<NalaType, RuntimeError>)
        requires
            scopes.wf(),
            current_scope < scopes.scopes@.len(),
        ensures
            match spec_tl_resolve(*scopes, current_scope as int, *literal) {
                Ok(t) => r matches Ok(rt) && rt == t,
                Err(k) => r matches Err(e) && e.kind == k,
            },
    {
        match literal {
            TypeLiteral::PrimitiveType(p) => Ok(NalaType::PrimitiveType(*p)),
            TypeLiteral::UserDefined(ident) => match scopes.get_type(ident.as_str(), current_scope) {
                Ok(TypeBinding::Enum(variants, type_param)) => Ok(
                    NalaType::Enum(ident.clone(), variants, type_param),
                ),
                Ok(TypeBinding::Struct(fields, type_param)) => Ok(
                    NalaType::Struct(fields, type_param),
                ),
                Ok(TypeBinding::Generic(g)) => Ok(NalaType::Generic(g)),
                Ok(TypeBinding::PrimitiveType(p)) => Ok(NalaType::PrimitiveType(p)),
                Err(e) => Err(e),
            },
        }
    }
}

impl crate::types::TypeVariant {
    /// Resolves a written type against the current scope.
    pub fn from_literal(literal: &TypeLiteralVariant, scopes: &Scopes, current_scope: usize) -> (r:
        Result<crate::types::TypeVariant, RuntimeError>)
        requires
            scopes.wf(),
            current_scope < scopes.scopes@.len(),
        ensures
            match spec_tlv_resolve(*scopes, current_scope as int, *literal) {
                Ok(t) => r matches Ok(rt) && rt == t,
                Err(k) => r matches Err(e) && e.kind == k,
            },
        decreases literal,
    {
        match literal {
            TypeLiteralVariant::Type(base) => match NalaType::from_literal(
                base,
                scopes,
                current_scope,
            ) {
                Ok(t) => Ok(crate::types::TypeVariant::Type(t)),
                Err(e) => Err(e),
            },
            TypeLiteralVariant::Composite(base, args) => match NalaType::from_literal(
                base,
                scopes,
                current_scope,
            ) {
                Ok(t) => match Types::from_literals(args, scopes, current_scope) {
                    Ok(resolved_args) => Ok(
                        crate::types::TypeVariant::Composite(t, Box::new(resolved_args)),
                    ),
                    Err(e) => Err(e),
                },
                Err(e) => Err(e),
            },
        }
    }
}

impl Types {
    /// Resolves a written type-argument list against the current scope.
    pub fn from_literals(literals: &TypeLiterals, scopes: &Scopes, current_scope: usize) -> (r:
        Result<Types, RuntimeError>)
        requires
            scopes.wf(),
            current_scope < scopes.scopes@.len(),
        ensures
            match spec_tls_resolve(*scopes, current_scope as int, *literals) {
                Ok(t) => r matches Ok(rt) && rt == t,
                Err(k) => r matches Err(e) && e.kind == k,
            },
        decreases literals,
    {
        match literals {
            TypeLiterals::Literals(rest, last) => match Types::from_literals(
                rest,
                scopes,
                current_scope,
            ) {
                Ok(resolved_rest) => match crate::types::TypeVariant::from_literal(
                    last,
                    scopes,
                    current_scope,
                ) {
                    Ok(resolved_last) => Ok(Types::Types(Box::new(resolved_rest), resolved_last)),
                    Err(e) => Err(e),
                },
                Err(e) => Err(e),
            },
            TypeLiterals::Literal(single) => match crate::types::TypeVariant::from_literal(
                single,
                scopes,
                current_scope,
            ) {
                Ok(resolved) => Ok(Types::Type(resolved)),
                Err(e) => Err(e),
            },
        }
    }
}

// ---------------------------------------------------------------------------
// Resolving written types inside a declaration with a type parameter
// ---------------------------------------------------------------------------

/// The resolved form of a bare type name inside a declaration that binds a
/// type parameter: the parameter's own name resolves to a type variable,
/// and every other name resolves against the scope as usual.
pub open spec fn spec_tl_resolve_decl(
    sc: Scopes,
    id: int,
    param: Option<String>,
    lit: TypeLiteral,
) -> Result<NalaType, RuntimeErrorKind> {
    match lit {
        TypeLiteral::PrimitiveType(_p) => spec_tl_resolve(sc, id, lit),
        TypeLiteral::UserDefined(ident) => match param {
            Some(p) => if p@ == ident@ {
                Ok(NalaType::Generic(ident))
            } else {
                spec_tl_resolve(sc, id, lit)
            },
            None => spec_tl_resolve(sc, id, lit),
        },
    }
}

pub open spec fn spec_tlv_resolve_decl(
    sc: Scopes,
    id: int,
    param: Option<String>,
    lit: TypeLiteralVariant,
) -> Result<crate::types::TypeVariant, RuntimeErrorKind>
    decreases lit,
{
    match lit {
        TypeLiteralVariant::Type(base) => match spec_tl_resolve_decl(sc, id, param, base) {
            Ok(t) => Ok(crate::types::TypeVariant::Type(t)),
            Err(e) => Err(e),
        },
        TypeLiteralVariant::Composite(base, args) => match spec_tl_resolve_decl(
            sc,
            id,
            param,
            base,
        ) {
            Ok(t) => match spec_tls_resolve_decl(sc, id, param, *args) {
                Ok(resolved_args) => Ok(
                    crate::types::TypeVariant::Composite(t, Box::new(resolved_args)),
                ),
                Err(e) => Err(e),
            },
            Err(e) => Err(e),
        },
    }
}

pub open spec fn spec_tls_resolve_decl(
    sc: Scopes,
    id: int,
    param: Option<String>,
    lits: TypeLiterals,
) -> Result<Types, RuntimeErrorKind>
    decreases lits,
{
    match lits {
        TypeLiterals::Literals(rest, last) => match spec_tls_resolve_decl(sc, id, param, *rest) {
            Ok(resolved_rest) => match spec_tlv_resolve_decl(sc, id, param, last) {
                Ok(resolved_last) => Ok(Types::Types(Box::new(resolved_rest), resolved_last)),
                Err(e) => Err(e),
            },
            Err(e) => Err(e),
        },
        TypeLiterals::Literal(single) => match spec_tlv_resolve_decl(sc, id, param, single) {
            Ok(resolved) => Ok(Types::Type(resolved)),
            Err(e) => Err(e),
        },
    }
}

/// Resolves a bare written type name inside a declaration binding `param`.
pub fn tl_resolve_decl(
    literal: &TypeLiteral,
    scopes: &Scopes,
    current_scope: usize,
    param: &Option<String>,
) -> (r: Result<NalaType, RuntimeError>)
    requires
        scopes.wf(),
        current_scope < scopes.scopes@.len(),
    ensures
        match spec_tl_resolve_decl(*scopes, current_scope as int, *param, *literal) {
            Ok(t) => r matches Ok(rt) && rt == t,
            Err(k) => r matches Err(e) && e.kind == k,
        },
{
    if let TypeLiteral::UserDefined(ident) = literal {
        if let Some(p) = param {
            if str_eq(ident.as_str(), p.as_str()) {
                return Ok(NalaType::Generic(ident.clone()));
            }
        }
    }
    NalaType::from_literal(literal, scopes, current_scope)
}

/// Resolves a written type inside a declaration binding `param`.
pub fn tlv_resolve_decl(
    literal: &TypeLiteralVariant,
    scopes: &Scopes,
    current_scope: usize,
    param: &Option<String>,
) -> (r: Result<crate::types::TypeVariant, RuntimeError>)
    requires
        scopes.wf(),
        current_scope < scopes.scopes@.len(),
    ensures
        match spec_tlv_resolve_decl(*scopes, current_scope as int, *param, *literal) {
            Ok(t) => r matches Ok(rt) && rt == t,
            Err(k) => r matches Err(e) && e.kind == k,
        },
    decreases literal,
{
    match literal {
        TypeLiteralVariant::Type(base) => match tl_resolve_decl(base, scopes, current_scope, param) {
            Ok(t) => Ok(crate::types::TypeVariant::Type(t)),
            Err(e) => Err(e),
        },
        TypeLiteralVariant::Composite(base, args) => match tl_resolve_decl(
            base,
            scopes,
            current_scope,
            param,
        ) {
            Ok(t) => match tls_resolve_decl(args, scopes, current_scope, param) {
                Ok(resolved_args) => Ok(
                    crate::types::TypeVariant::Composite(t, Box::new(resolved_args)),
                ),
                Err(e) => Err(e),
            },
            Err(e) => Err(e),
        },
    }
}

fn tls_resolve_decl(
    literals: &TypeLiterals,
    scopes: &Scopes,
    current_scope: usize,
    param: &Option<String>,
) -> (r: Result<Types, RuntimeError>)
    requires
        scopes.wf(),
        current_scope < scopes.scopes@.len(),
    ensures
        match spec_tls_resolve_decl(*scopes, current_scope as int, *param, *literals) {
            Ok(t) => r matches Ok(rt) && rt == t,
            Err(k) => r matches Err(e) && e.kind == k,
        },
    decreases literals,
{
    match literals {
        TypeLiterals::Literals(rest, last) => match tls_resolve_decl(
            rest,
            scopes,
            current_scope,
            param,
        ) {
            Ok(resolved_rest) => match tlv_resolve_decl(last, scopes, current_scope, param) {
                Ok(resolved_last) => Ok(Types::Types(Box::new(resolved_rest), resolved_last)),
                Err(e) => Err(e),
            },
            Err(e) => Err(e),
        },
        TypeLiterals::Literal(single) => match tlv_resolve_decl(
            single,
            scopes,
            current_scope,
            param,
        ) {
            Ok(resolved) => Ok(Types::Type(resolved)),
            Err(e) => Err(e),
        },
    }
}

/// The resolved parameter types of a function declaration binding `param`.
pub open spec fn spec_params_resolve_decl(
    sc: Scopes,
    id: int,
    param: Option<String>,
    params: crate::ast::Params,
) -> Result<Seq<crate::types::TypeVariant>, RuntimeErrorKind>
    decreases params,
{
    match params {
        crate::ast::Params::Params(rest, last) => match spec_params_resolve_decl(
            sc,
            id,
            param,
            *rest,
        ) {
            Ok(types) => match spec_tlv_resolve_decl(sc, id, param, last.param_type) {
                Ok(t) => Ok(types.push(t)),
                Err(e) => Err(e),
            },
            Err(e) => Err(e),
        },
        crate::ast::Params::Param(single) => match spec_tlv_resolve_decl(
            sc,
            id,
            param,
            single.param_type,
        ) {
            Ok(t) => Ok(seq![t]),
            Err(e) => Err(e),
        },
        crate::ast::Params::Empty => Ok(Seq::<crate::types::TypeVariant>::empty()),
    }
}

/// The type a function declaration is bound under: its resolved parameter
/// types followed by its resolved return type, with the declaration's type
/// parameter resolving to a type variable.
pub open spec fn spec_func_declared_type(
    sc: Scopes,
    id: int,
    param: Option<String>,
    params: crate::ast::Params,
    return_type: TypeLiteralVariant,
) -> Result<crate::types::TypeVariant, RuntimeErrorKind> {
    match spec_params_resolve_decl(sc, id, param, params) {
        Ok(types) => match spec_tlv_resolve_decl(sc, id, param, return_type) {
            Ok(ret) => Ok(
                crate::types::TypeVariant::Composite(
                    NalaType::PrimitiveType(PrimitiveType::Func),
                    Box::new(push_type(types, ret)),
                ),
            ),
            Err(e) => Err(e),
        },
        Err(e) => Err(e),
    }
}

/// Computes the type a function declaration is bound under.
pub fn func_declared_type(
    params: &crate::ast::Params,
    return_type: &TypeLiteralVariant,
    scopes: &Scopes,
    current_scope: usize,
    param: &Option<String>,
) -> (r: Result<crate::types::TypeVariant, RuntimeError>)
    requires
        scopes.wf(),
        current_scope < scopes.scopes@.len(),
    ensures
        match spec_func_declared_type(
            *scopes,
            current_scope as int,
            *param,
            *params,
            *return_type,
        ) {
            Ok(t) => r matches Ok(rt) && rt == t,
            Err(k) => r matches Err(e) && e.kind == k,
        },
{
    let param_types = match params_resolve_decl(params, scopes, current_scope, param) {
        Ok(v) => v,
        Err(e) => {
            return Err(e);
        },
    };
    let ret = match tlv_resolve_decl(return_type, scopes, current_scope, param) {
        Ok(t) => t,
        Err(e) => {
            return Err(e);
        },
    };
    let args = if param_types.len() == 0 {
        Types::Type(ret)
    } else {
        proof {
            assert(param_types@.subrange(0, param_types@.len() as int) =~= param_types@);
        }
        Types::Types(Box::new(vec_to_types(&param_types, param_types.len())), ret)
    };
    Ok(
        crate::types::TypeVariant::Composite(
            NalaType::PrimitiveType(PrimitiveType::Func),
            Box::new(args),
        ),
    )
}

fn params_resolve_decl(
    params: &crate::ast::Params,
    scopes: &Scopes,
    current_scope: usize,
    param: &Option<String>,
) -> (r: Result<Vec<crate::types::TypeVariant>, RuntimeError>)
    requires
        scopes.wf(),
        current_scope < scopes.scopes@.len(),
    ensures
        match spec_params_resolve_decl(*scopes, current_scope as int, *param, *params) {
            Ok(types) => r matches Ok(v) && v@ == types,
            Err(k) => r matches Err(e) && e.kind == k,
        },
    decreases params,
{
    match params {
        crate::ast::Params::Params(rest, last) => {
            let mut types = match params_resolve_decl(rest, scopes, current_scope, param) {
                Ok(types) => types,
                Err(e) => {
                    return Err(e);
                },
            };
            match tlv_resolve_decl(&last.param_type, scopes, current_scope, param) {
                Ok(t) => {
                    types.push(t);
                    Ok(types)
                },
                Err(e) => Err(e),
            }
        },
        crate::ast::Params::Param(single) => {
            match tlv_resolve_decl(&single.param_type, scopes, current_scope, param) {
                Ok(t) => {
                    let mut types: Vec<crate::types::TypeVariant> = Vec::new();
                    types.push(t);
                    proof {
                        assert(types@ =~= seq![types@[0]]);
                    }
                    Ok(types)
                },
                Err(e) => Err(e),
            }
        },
        crate::ast::Params::Empty => Ok(Vec::new()),
    }
}

// ---------------------------------------------------------------------------
// Finding enum variants
// ---------------------------------------------------------------------------

/// Whether the variant carries the given name.
pub fn compare_variant(variant: &EnumVariant, name: &str) -> (r: bool)
    ensures
        r == spec_variant_named(*variant, name@),
{
    match variant {
        EnumVariant::Empty(ident) => str_eq(ident.as_str(), name),
        EnumVariant::Data(ident, _data) => str_eq(ident.as_str(), name),
    }
}

pub open spec fn spec_variant_named(variant: EnumVariant, name: Seq<char>) -> bool {
    match variant {
        EnumVariant::Empty(ident) => ident@ == name,
        EnumVariant::Data(ident, _data) => ident@ == name,
    }
}

/// The first variant carrying the given name, in declaration order.
pub open spec fn spec_find_variant(variants: EnumVariants, name: Seq<char>) -> Option<EnumVariant>
    decreases variants,
{
    match variants {
        EnumVariants::Variants(rest, last) => match spec_find_variant(*rest, name) {
            Some(v) => Some(v),
            None => if spec_variant_named(last, name) {
                Some(last)
            } else {
                None
            },
        },
        EnumVariants::Variant(single) => if spec_variant_named(single, name) {
            Some(single)
        } else {
            None
        },
    }
}

/// Finds the declared variant under the given name, in declaration order.
pub fn find_variant(variants: &EnumVariants, needle: &str) -> (r: Result<EnumVariant, RuntimeError>)
    ensures
        match spec_find_variant(*variants, needle@) {
            Some(v) => r matches Ok(found) && found == v,
            None => r matches Err(e) && e.kind == RuntimeErrorKind::UnknownIdent,
        },
    decreases variants,
{
    match variants {
        EnumVariants::Variants(rest, last) => match find_variant(rest, needle) {
            Ok(v) => Ok(v),
            Err(_e) => {
                if compare_variant(last, needle) {
                    Ok(last.clone())
                } else {
                    Err(RuntimeError::new(RuntimeErrorKind::UnknownIdent, "Unknown enum variant."))
                }
            },
        },
        EnumVariants::Variant(single) => {
            if compare_variant(single, needle) {
                Ok(single.clone())
            } else {
                Err(RuntimeError::new(RuntimeErrorKind::UnknownIdent, "Unknown enum variant."))
            }
        },
    }
}

// ---------------------------------------------------------------------------
// Type inference on values
// ---------------------------------------------------------------------------

/// The depth to which container contents are followed during inference.
pub const INFER_FUEL: u64 = 32;

/// The inferred type of a value.  Array element types follow the head
/// element through the environment, so the recursion carries fuel; an empty
/// array is typed `Array<Any>`, and an empty object has no concrete type.
pub open spec fn spec_infer_type(sc: Scopes, id: int, v: Value, fuel: nat) -> Result<
    crate::types::TypeVariant,
    RuntimeErrorKind,
>
    decreases fuel, val_height(v), 0nat,
{
    match v {
        Value::Num(_n) => Ok(
            crate::types::TypeVariant::Type(NalaType::PrimitiveType(PrimitiveType::Number)),
        ),
        Value::Bool(_b) => Ok(
            crate::types::TypeVariant::Type(NalaType::PrimitiveType(PrimitiveType::Bool)),
        ),
        Value::String(_s) => Ok(
            crate::types::TypeVariant::Type(NalaType::PrimitiveType(PrimitiveType::String)),
        ),
        Value::Void => Ok(
            crate::types::TypeVariant::Type(NalaType::PrimitiveType(PrimitiveType::Void)),
        ),
        Value::Break(inner) => match spec_infer_type(sc, id, *inner, fuel) {
            Ok(t) => Ok(
                crate::types::TypeVariant::Composite(
                    NalaType::PrimitiveType(PrimitiveType::Break),
                    Box::new(Types::Type(t)),
                ),
            ),
            Err(e) => Err(e),
        },
        Value::Func(f) => match spec_params_resolve(sc, id, *f.params) {
            Ok(param_types) => match spec_tlv_resolve(sc, id, f.return_type) {
                Ok(ret) => Ok(
                    crate::types::TypeVariant::Composite(
                        NalaType::PrimitiveType(PrimitiveType::Func),
                        Box::new(push_type(param_types, ret)),
                    ),
                ),
                Err(e) => Err(e),
            },
            Err(e) => Err(e),
        },
        Value::Array(arr_id) => {
            if arr_id >= sc.arrays@.len() {
                Err(RuntimeErrorKind::NotIndexable)
            } else if sc.arrays@[arr_id as int]@.len() == 0 {
                Ok(
                    crate::types::TypeVariant::Composite(
                        NalaType::PrimitiveType(PrimitiveType::Array),
                        Box::new(
                            Types::Type(
                                crate::types::TypeVariant::Type(
                                    NalaType::PrimitiveType(PrimitiveType::Any),
                                ),
                            ),
                        ),
                    ),
                )
            } else if fuel == 0 {
                Err(RuntimeErrorKind::BudgetExceeded)
            } else {
                match spec_infer_type(sc, id, sc.arrays@[arr_id as int]@[0], (fuel - 1) as nat) {
                    Ok(elem) => Ok(
                        crate::types::TypeVariant::Composite(
                            NalaType::PrimitiveType(PrimitiveType::Array),
                            Box::new(Types::Type(elem)),
                        ),
                    ),
                    Err(e) => Err(e),
                }
            }
        },
        Value::Object(obj_id) => {
            if obj_id >= sc.objects@.len() {
                Err(RuntimeErrorKind::NotIndexable)
            } else if sc.objects@[obj_id as int]@.len() == 0 {
                Err(RuntimeErrorKind::TypeUnknown)
            } else if fuel == 0 {
                Err(RuntimeErrorKind::BudgetExceeded)
            } else {
                match spec_object_fields_infer(
                    sc,
                    id,
                    sc.objects@[obj_id as int]@,
                    (fuel - 1) as nat,
                ) {
                    Ok(fields) => Ok(
                        crate::types::TypeVariant::Type(NalaType::Struct(fields, None)),
                    ),
                    Err(e) => Err(e),
                }
            }
        },
        Value::Variant(ev) => match lookup_type_binding(sc.scopes@, id, ev.enum_ident@) {
            Some(TypeBinding::Enum(variants, type_param)) => match type_param {
                Some(param) => {
                    let result_type = NalaType::Enum(ev.enum_ident, variants, Some(param));
                    match ev.data {
                        Some(data) => {
                            if spec_variant_takes_param(variants, ev.variant_ident@, param@) {
                                match spec_infer_type(sc, id, *data, fuel) {
                                    Ok(data_type) => Ok(
                                        crate::types::TypeVariant::Composite(
                                            result_type,
                                            Box::new(Types::Type(data_type)),
                                        ),
                                    ),
                                    Err(e) => Err(e),
                                }
                            } else {
                                Ok(
                                    crate::types::TypeVariant::Composite(
                                        result_type,
                                        Box::new(
                                            Types::Type(
                                                crate::types::TypeVariant::Type(
                                                    NalaType::PrimitiveType(PrimitiveType::Any),
                                                ),
                                            ),
                                        ),
                                    ),
                                )
                            }
                        },
                        None => Ok(
                            crate::types::TypeVariant::Composite(
                                result_type,
                                Box::new(
                                    Types::Type(
                                        crate::types::TypeVariant::Type(
                                            NalaType::PrimitiveType(PrimitiveType::Any),
                                        ),
                                    ),
                                ),
                            ),
                        ),
                    }
                },
                None => Ok(
                    crate::types::TypeVariant::Type(
                        NalaType::Enum(ev.enum_ident, variants, None),
                    ),
                ),
            },
            Some(_other) => Err(RuntimeErrorKind::NotAnEnum),
            None => Err(RuntimeErrorKind::UnknownIdent),
        },
    }
}

/// Whether the named variant carries data whose declared type is exactly the
/// enum's type parameter.
pub open spec fn spec_variant_takes_param(
    variants: EnumVariants,
    variant_name: Seq<char>,
    param: Seq<char>,
) -> bool {
    match spec_find_variant(variants, variant_name) {
        Some(EnumVariant::Data(_ident, data_type)) => match *data_type {
            crate::types::TypeVariant::Type(NalaType::Generic(g)) => g@ == param,
            _ => false,
        },
        _ => false,
    }
}

/// The resolved types of a parameter list, in order.
pub open spec fn spec_params_resolve(sc: Scopes, id: int, params: crate::ast::Params) -> Result<
    Seq<crate::types::TypeVariant>,
    RuntimeErrorKind,
>
    decreases params,
{
    match params {
        crate::ast::Params::Params(rest, last) => match spec_params_resolve(sc, id, *rest) {
            Ok(types) => match spec_tlv_resolve(sc, id, last.param_type) {
                Ok(t) => Ok(types.push(t)),
                Err(e) => Err(e),
            },
            Err(e) => Err(e),
        },
        crate::ast::Params::Param(single) => match spec_tlv_resolve(sc, id, single.param_type) {
            Ok(t) => Ok(seq![t]),
            Err(e) => Err(e),
        },
        crate::ast::Params::Empty => Ok(Seq::<crate::types::TypeVariant>::empty()),
    }
}

/// Rebuilds a type list from resolved parameter types followed by the
/// return type.
pub open spec fn push_type(types: Seq<crate::types::TypeVariant>, last: crate::types::TypeVariant) -> Types
    decreases types.len(),
{
    if types.len() == 0 {
        Types::Type(last)
    } else {
        Types::Types(Box::new(seq_to_types(types)), last)
    }
}

pub open spec fn seq_to_types(types: Seq<crate::types::TypeVariant>) -> Types
    decreases types.len(),
{
    if types.len() <= 1 {
        Types::Type(types[0])
    } else {
        Types::Types(Box::new(seq_to_types(types.drop_last())), types.last())
    }
}

/// The inferred types of the values of an object's members, as struct fields.
pub open spec fn spec_object_fields_infer(
    sc: Scopes,
    id: int,
    entries: Seq<(String, Value)>,
    fuel: nat,
) -> Result<StructFields, RuntimeErrorKind>
    decreases fuel, crate::display::entries_heights(entries), 0nat,
{
    if entries.len() == 0 {
        Err(RuntimeErrorKind::TypeUnknown)
    } else {
        match spec_infer_type(sc, id, entries[0].1, fuel) {
            Ok(t) => {
                let field = StructField { ident: entries[0].0, value_type: Box::new(t) };
                if entries.len() == 1 {
                    Ok(StructFields::Field(field))
                } else {
                    match spec_object_fields_infer(sc, id, entries.drop_first(), fuel) {
                        Ok(rest) => Ok(prepend_field(field, rest)),
                        Err(e) => Err(e),
                    }
                }
            },
            Err(e) => Err(e),
        }
    }
}

/// Attaches a field before the others, keeping declaration order.
pub open spec fn prepend_field(field: StructField, rest: StructFields) -> StructFields
    decreases rest,
{
    match rest {
        StructFields::Fields(more, last) => StructFields::Fields(
            Box::new(prepend_field(field, *more)),
            last,
        ),
        StructFields::Field(single) => StructFields::Fields(
            Box::new(StructFields::Field(field)),
            single,
        ),
    }
}

// ---------------------------------------------------------------------------
// Executable inference
// ---------------------------------------------------------------------------

/// Rebuilds the grammar's list shape from a prefix of a vector of types.
fn vec_to_types(types: &Vec<crate::types::TypeVariant>, upto: usize) -> (r: Types)
    requires
        1 <= upto <= types@.len(),
    ensures
        r == seq_to_types(types@.subrange(0, upto as int)),
    decreases upto,
{
    if upto == 1 {
        proof {
            assert(types@.subrange(0, 1)[0] == types@[0]);
        }
        Types::Type(types[0].clone())
    } else {
        let rest = vec_to_types(types, upto - 1);
        proof {
            let sub = types@.subrange(0, upto as int);
            assert(sub.drop_last() =~= types@.subrange(0, upto as int - 1));
            assert(sub.last() == types@[upto as int - 1]);
        }
        Types::Types(Box::new(rest), types[upto - 1].clone())
    }
}

/// Resolves every parameter's written type, in order.
pub fn evaluate_params(params: &crate::ast::Params, scopes: &Scopes, current_scope: usize) -> (r:
    Result<Vec<crate::types::TypeVariant>, RuntimeError>)
    requires
        scopes.wf(),
        current_scope < scopes.scopes@.len(),
    ensures
        match spec_params_resolve(*scopes, current_scope as int, *params) {
            Ok(types) => r matches Ok(v) && v@ == types,
            Err(k) => r matches Err(e) && e.kind == k,
        },
    decreases params,
{
    match params {
        crate::ast::Params::Params(rest, last) => {
            let mut types = match evaluate_params(rest, scopes, current_scope) {
                Ok(types) => types,
                Err(e) => {
                    return Err(e);
                },
            };
            match crate::types::TypeVariant::from_literal(&last.param_type, scopes, current_scope) {
                Ok(t) => {
                    types.push(t);
                    Ok(types)
                },
                Err(e) => Err(e),
            }
        },
        crate::ast::Params::Param(single) => {
            match crate::types::TypeVariant::from_literal(&single.param_type, scopes, current_scope) {
                Ok(t) => {
                    let mut types: Vec<crate::types::TypeVariant> = Vec::new();
                    types.push(t);
                    proof {
                        assert(types@ =~= seq![types@[0]]);
                    }
                    Ok(types)
                },
                Err(e) => Err(e),
            }
        },
        crate::ast::Params::Empty => Ok(Vec::new()),
    }
}

fn infer_object_fields(
    scopes: &Scopes,
    current_scope: usize,
    obj_id: usize,
    idx: usize,
    fuel: u64,
) -> (r: Result<StructFields, RuntimeError>)
    requires
        scopes.wf(),
        current_scope < scopes.scopes@.len(),
        obj_id < scopes.objects@.len(),
        idx < scopes.objects@[obj_id as int]@.len(),
    ensures
        match spec_object_fields_infer(
            *scopes,
            current_scope as int,
            scopes.objects@[obj_id as int]@.skip(idx as int),
            fuel as nat,
        ) {
            Ok(fields) => r matches Ok(found) && found == fields,
            Err(k) => r matches Err(e) && e.kind == k,
        },
    decreases fuel as nat, crate::display::entries_heights(
        scopes.objects@[obj_id as int]@.skip(idx as int),
    ), 1nat,
{
    let ghost entries = scopes.objects@[obj_id as int]@.skip(idx as int);
    proof {
        assert(entries[0] == scopes.objects@[obj_id as int]@[idx as int]);
        assert(entries.drop_first() =~= scopes.objects@[obj_id as int]@.skip(idx as int + 1));
    }
    let fields_vec = &scopes.objects[obj_id];
    let entry_value = &fields_vec[idx].1;
    match infer_type_fueled(entry_value, scopes, current_scope, fuel) {
        Ok(t) => {
            let field = StructField { ident: fields_vec[idx].0.clone(), value_type: Box::new(t) };
            let n = fields_vec.len();
            if idx + 1 == n {
                proof {
                    assert(entries.len() == 1);
                }
                Ok(StructFields::Field(field))
            } else {
                match infer_object_fields(scopes, current_scope, obj_id, idx + 1, fuel) {
                    Ok(rest) => Ok(prepend_field_exec(field, rest)),
                    Err(e) => Err(e),
                }
            }
        },
        Err(e) => Err(e),
    }
}

fn prepend_field_exec(field: StructField, rest: StructFields) -> (r: StructFields)
    ensures
        r == prepend_field(field, rest),
    decreases rest,
{
    match rest {
        StructFields::Fields(more, last) => StructFields::Fields(
            Box::new(prepend_field_exec(field, *more)),
            last,
        ),
        StructFields::Field(single) => StructFields::Fields(
            Box::new(StructFields::Field(field)),
            single,
        ),
    }
}

fn infer_type_fueled(value: &Value, scopes: &Scopes, current_scope: usize, fuel: u64) -> (r: Result<
    crate::types::TypeVariant,
    RuntimeError,
>)
    requires
        scopes.wf(),
        current_scope < scopes.scopes@.len(),
    ensures
        match spec_infer_type(*scopes, current_scope as int, *value, fuel as nat) {
            Ok(t) => r matches Ok(rt) && rt == t,
            Err(k) => r matches Err(e) && e.kind == k,
        },
    decreases fuel as nat, val_height(*value), 1nat,
{
    match value {
        Value::Num(_n) => Ok(
            crate::types::TypeVariant::Type(NalaType::PrimitiveType(PrimitiveType::Number)),
        ),
        Value::Bool(_b) => Ok(
            crate::types::TypeVariant::Type(NalaType::PrimitiveType(PrimitiveType::Bool)),
        ),
        Value::String(_s) => Ok(
            crate::types::TypeVariant::Type(NalaType::PrimitiveType(PrimitiveType::String)),
        ),
        Value::Void => Ok(
            crate::types::TypeVariant::Type(NalaType::PrimitiveType(PrimitiveType::Void)),
        ),
        Value::Break(inner) => match infer_type_fueled(inner, scopes, current_scope, fuel) {
            Ok(t) => Ok(
                crate::types::TypeVariant::Composite(
                    NalaType::PrimitiveType(PrimitiveType::Break),
                    Box::new(Types::Type(t)),
                ),
            ),
            Err(e) => Err(e),
        },
        Value::Func(f) => match evaluate_params(&f.params, scopes, current_scope) {
            Ok(param_types) => match crate::types::TypeVariant::from_literal(
                &f.return_type,
                scopes,
                current_scope,
            ) {
                Ok(ret) => {
                    let args = if param_types.len() == 0 {
                        Types::Type(ret)
                    } else {
                        proof {
                            assert(param_types@.subrange(0, param_types@.len() as int) =~= param_types@);
                        }
                        Types::Types(Box::new(vec_to_types(&param_types, param_types.len())), ret)
                    };
                    Ok(
                        crate::types::TypeVariant::Composite(
                            NalaType::PrimitiveType(PrimitiveType::Func),
                            Box::new(args),
                        ),
                    )
                },
                Err(e) => Err(e),
            },
            Err(e) => Err(e),
        },
        Value::Array(arr_id) => {
            if *arr_id >= scopes.arrays.len() {
                Err(RuntimeError::new(RuntimeErrorKind::NotIndexable, "Unknown array reference."))
            } else if scopes.arrays[*arr_id].len() == 0 {
                Ok(
                    crate::types::TypeVariant::Composite(
                        NalaType::PrimitiveType(PrimitiveType::Array),
                        Box::new(
                            Types::Type(
                                crate::types::TypeVariant::Type(
                                    NalaType::PrimitiveType(PrimitiveType::Any),
                                ),
                            ),
                        ),
                    ),
                )
            } else if fuel == 0 {
                Err(
                    RuntimeError::new(
                        RuntimeErrorKind::BudgetExceeded,
                        "Type inference descended too deep.",
                    ),
                )
            } else {
                let head = &scopes.arrays[*arr_id][0];
                match infer_type_fueled(head, scopes, current_scope, fuel - 1) {
                    Ok(elem) => Ok(
                        crate::types::TypeVariant::Composite(
                            NalaType::PrimitiveType(PrimitiveType::Array),
                            Box::new(Types::Type(elem)),
                        ),
                    ),
                    Err(e) => Err(e),
                }
            }
        },
        Value::Object(obj_id) => {
            if *obj_id >= scopes.objects.len() {
                Err(RuntimeError::new(RuntimeErrorKind::NotIndexable, "Unknown object reference."))
            } else if scopes.objects[*obj_id].len() == 0 {
                Err(
                    RuntimeError::new(
                        RuntimeErrorKind::TypeUnknown,
                        "An empty object has no concrete type.",
                    ),
                )
            } else if fuel == 0 {
                Err(
                    RuntimeError::new(
                        RuntimeErrorKind::BudgetExceeded,
                        "Type inference descended too deep.",
                    ),
                )
            } else {
                proof {
                    assert(scopes.objects@[*obj_id as int]@.skip(0) =~= scopes.objects@[*obj_id as int]@);
                }
                match infer_object_fields(scopes, current_scope, *obj_id, 0, fuel - 1) {
                    Ok(fields) => Ok(
                        crate::types::TypeVariant::Type(NalaType::Struct(fields, None)),
                    ),
                    Err(e) => Err(e),
                }
            }
        },
        Value::Variant(ev) => match scopes.get_type(ev.enum_ident.as_str(), current_scope) {
            Ok(TypeBinding::Enum(variants, type_param)) => match type_param {
                Some(param) => {
                    let result_type = NalaType::Enum(
                        ev.enum_ident.clone(),
                        variants.clone(),
                        Some(param.clone()),
                    );
                    match &ev.data {
                        Some(data) => {
                            let takes_param = match find_variant(
                                &variants,
                                ev.variant_ident.as_str(),
                            ) {
                                Ok(EnumVariant::Data(_ident, data_type)) => match *data_type {
                                    crate::types::TypeVariant::Type(NalaType::Generic(g)) => {
                                        str_eq(g.as_str(), param.as_str())
                                    },
                                    _ => false,
                                },
                                _ => false,
                            };
                            if takes_param {
                                match infer_type_fueled(data, scopes, current_scope, fuel) {
                                    Ok(data_type) => Ok(
                                        crate::types::TypeVariant::Composite(
                                            result_type,
                                            Box::new(Types::Type(data_type)),
                                        ),
                                    ),
                                    Err(e) => Err(e),
                                }
                            } else {
                                Ok(
                                    crate::types::TypeVariant::Composite(
                                        result_type,
                                        Box::new(
                                            Types::Type(
                                                crate::types::TypeVariant::Type(
                                                    NalaType::PrimitiveType(PrimitiveType::Any),
                                                ),
                                            ),
                                        ),
                                    ),
                                )
                            }
                        },
                        None => Ok(
                            crate::types::TypeVariant::Composite(
                                result_type,
                                Box::new(
                                    Types::Type(
                                        crate::types::TypeVariant::Type(
                                            NalaType::PrimitiveType(PrimitiveType::Any),
                                        ),
                                    ),
                                ),
                            ),
                        ),
                    }
                },
                None => Ok(
                    crate::types::TypeVariant::Type(
                        NalaType::Enum(ev.enum_ident.clone(), variants, None),
                    ),
                ),
            },
            Ok(_other) => Err(
                RuntimeError::new(RuntimeErrorKind::NotAnEnum, "Expected an enum type."),
            ),
            Err(e) => Err(e),
        },
    }
}

/// The inferred type of a value under the bindings visible from the current
/// scope.
pub fn infer_type(value: &Value, scopes: &Scopes, current_scope: usize) -> (r: Result<
    crate::types::TypeVariant,
    RuntimeError,
>)
    requires
        scopes.wf(),
        current_scope < scopes.scopes@.len(),
    ensures
        match spec_infer_type(*scopes, current_scope as int, *value, INFER_FUEL as nat) {
            Ok(t) => r matches Ok(rt) && rt == t,
            Err(k) => r matches Err(e) && e.kind == k,
        },
{
    infer_type_fueled(value, scopes, current_scope, INFER_FUEL)
}

} // verus!
