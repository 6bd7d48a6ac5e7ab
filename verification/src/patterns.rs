use vstd::prelude::*;

use crate::ast::Pattern;
use crate::values::EnumVariantValue;
use crate::values::Value;

verus! {

/// The result of testing a pattern against a value: no match, or a match
/// together with the bindings the pattern introduces for its arm.
pub open spec fn spec_match_pattern(p: Pattern, v: Value) -> Option<Seq<(String, Value)>> {
    match p {
        Pattern::Wildcard => Some(Seq::<(String, Value)>::empty()),
        Pattern::BindIdent(ident) => Some(seq![(ident, v)]),
        Pattern::EnumEmpty(enum_ident, variant_ident) => match v {
            Value::Variant(ev) => {
                if ev.enum_ident@ == enum_ident@ && ev.variant_ident@ == variant_ident@
                    && ev.data is None {
                    Some(Seq::<(String, Value)>::empty())
                } else {
                    None
                }
            },
            _ => None,
        },
        Pattern::EnumData(enum_ident, variant_ident, bind_ident) => match v {
            Value::Variant(ev) => match ev.data {
                Some(data) => {
                    if ev.enum_ident@ == enum_ident@ && ev.variant_ident@ == variant_ident@ {
                        Some(seq![(bind_ident, *data)])
                    } else {
                        None
                    }
                },
                None => None,
            },
            _ => None,
        },
    }
}

/// Tests a pattern against a value.  On success the returned bindings are
/// installed in the arm's fresh scope.
pub fn match_pattern(pattern: &Pattern, value: &Value) -> (r: Option<Vec<(String, Value)>>)
    ensures
        match spec_match_pattern(*pattern, *value) {
            Some(bindings) => r matches Some(found) && found@ == bindings,
            None => r is None,
        },
{
    match pattern {
        Pattern::Wildcard => Some(Vec::new()),
        Pattern::BindIdent(ident) => {
            let mut bindings: Vec<(String, Value)> = Vec::new();
            let entry = (ident.clone(), value.clone());
            bindings.push(entry);
            proof {
                assert(bindings@ =~= seq![bindings@[0]]);
            }
            Some(bindings)
        },
        Pattern::EnumEmpty(enum_ident, variant_ident) => match value {
            Value::Variant(ev) => {
                if ev.enum_ident == *enum_ident && ev.variant_ident == *variant_ident
                    && ev.data.is_none() {
                    Some(Vec::new())
                } else {
                    None
                }
            },
            _ => None,
        },
        Pattern::EnumData(enum_ident, variant_ident, bind_ident) => match value {
            Value::Variant(ev) => match &ev.data {
                Some(data) => {
                    if ev.enum_ident == *enum_ident && ev.variant_ident == *variant_ident {
                        let mut bindings: Vec<(String, Value)> = Vec::new();
                        let entry = (bind_ident.clone(), (**data).clone());
                        bindings.push(entry);
                        proof {
                            assert(bindings@ =~= seq![bindings@[0]]);
                        }
                        Some(bindings)
                    } else {
                        None
                    }
                },
                None => None,
            },
            _ => None,
        },
    }
}

/// Variant round-trip: a data pattern naming a variant's own tag always
/// accepts a value of that variant and binds exactly the carried payload,
/// so `match E::V(x) { E::V(y) => y }` yields `x` back.
pub proof fn lemma_variant_round_trip(
    enum_ident: String,
    variant_ident: String,
    bind_ident: String,
    payload: Value,
)
    ensures
        spec_match_pattern(
            Pattern::EnumData(enum_ident, variant_ident, bind_ident),
            Value::Variant(
                EnumVariantValue { enum_ident, variant_ident, data: Some(Box::new(payload)) },
            ),
        ) == Some(seq![(bind_ident, payload)]),
{
}

/// A pattern for one enum variant never accepts a value of another variant
/// of the same enum, so distinct variants stay distinguishable under match.
pub proof fn lemma_variant_patterns_disjoint(
    enum_ident: String,
    variant_a: String,
    variant_b: String,
    bind_ident: String,
    value: EnumVariantValue,
)
    requires
        variant_a@ != variant_b@,
        value.variant_ident@ == variant_b@,
    ensures
        spec_match_pattern(
            Pattern::EnumData(enum_ident, variant_a, bind_ident),
            Value::Variant(value),
        ) is None,
        spec_match_pattern(
            Pattern::EnumEmpty(enum_ident, variant_a),
            Value::Variant(value),
        ) is None,
{
}

} // verus!
