use vstd::prelude::*;

verus! {

// ---------------------------------------------------------------------------
// Primitive types
// ---------------------------------------------------------------------------

/// The built-in primitive types of the language.
#[derive(Debug, Clone, Copy, PartialEq, Eq, Structural)]
pub enum PrimitiveType {
    Array,
    Bool,
    Break,
    Func,
    Number,
    String,
    Void,
    Any,
}

/// Whether a value of primitive type `a` may inhabit a slot of primitive
/// type `b`: the types are identical, or the expected side is `Any`.
pub open spec fn spec_prim_assignable(a: PrimitiveType, b: PrimitiveType) -> bool {
    b == PrimitiveType::Any || a == b
}

impl PrimitiveType {
    pub fn is_assignable_to(&self, other: &Self) -> (r: bool)
        ensures
            r == spec_prim_assignable(*self, *other),
    {
        match other {
            PrimitiveType::Any => true,
            _ => *self == *other,
        }
    }
}

// ---------------------------------------------------------------------------
// Interfaces of primitive types
// ---------------------------------------------------------------------------

/// The capabilities a primitive type offers to the operators of the language.
#[derive(Debug, Clone, Copy, PartialEq, Eq, Structural)]
pub enum PrimitiveInterface {
    IPrint,
    ICompare,
}

/// The interfaces offered by each primitive type: every printable type
/// carries `IPrint`, and numbers additionally order under `ICompare`.
pub fn get_interfaces_for_primitive_type(primitive: PrimitiveType) -> (r: Vec<PrimitiveInterface>)
    ensures
        primitive == PrimitiveType::Number ==> r@ == seq![
            PrimitiveInterface::IPrint,
            PrimitiveInterface::ICompare,
        ],
        primitive == PrimitiveType::Void || primitive == PrimitiveType::Break
            || primitive == PrimitiveType::Any ==> r@ == Seq::<PrimitiveInterface>::empty(),
        !(primitive == PrimitiveType::Void || primitive == PrimitiveType::Break
            || primitive == PrimitiveType::Any || primitive == PrimitiveType::Number) ==> r@
            == seq![PrimitiveInterface::IPrint],
{
    let mut r: Vec<PrimitiveInterface> = Vec::new();
    match primitive {
        PrimitiveType::Void => {},
        PrimitiveType::Break => {},
        PrimitiveType::Any => {},
        PrimitiveType::Number => {
            r.push(PrimitiveInterface::IPrint);
            r.push(PrimitiveInterface::ICompare);
            assert(r@ =~= seq![PrimitiveInterface::IPrint, PrimitiveInterface::ICompare]);
        },
        _ => {
            r.push(PrimitiveInterface::IPrint);
            assert(r@ =~= seq![PrimitiveInterface::IPrint]);
        },
    }
    r
}

// ---------------------------------------------------------------------------
// Syntactic type literals
// ---------------------------------------------------------------------------

/// A type name as written in source: a primitive keyword or a user-defined
/// identifier, not yet resolved against any scope.
#[derive(Debug)]
pub enum TypeLiteral {
    PrimitiveType(PrimitiveType),
    UserDefined(String),
}

/// A full syntactic type: a bare literal, or a literal applied to type
/// arguments, as in `Array<Number>` or `Func<Number, Void>`.
#[derive(Debug)]
pub enum TypeLiteralVariant {
    Composite(TypeLiteral, Box<TypeLiterals>),
    Type(TypeLiteral),
}

/// A non-empty right-recursive list of syntactic types, as the grammar
/// produces for type-argument lists.
#[derive(Debug)]
pub enum TypeLiterals {
    Literals(Box<TypeLiterals>, TypeLiteralVariant),
    Literal(TypeLiteralVariant),
}

impl Clone for TypeLiteral {
    fn clone(&self) -> (r: Self)
        ensures
            r == *self,
    {
        match self {
            TypeLiteral::PrimitiveType(p) => TypeLiteral::PrimitiveType(*p),
            TypeLiteral::UserDefined(ident) => TypeLiteral::UserDefined(ident.clone()),
        }
    }
}

impl Clone for TypeLiteralVariant {
    fn clone(&self) -> (r: Self)
        ensures
            r == *self,
        decreases self,
    {
        match self {
            TypeLiteralVariant::Composite(base, args) => TypeLiteralVariant::Composite(
                base.clone(),
                Box::new((**args).clone()),
            ),
            TypeLiteralVariant::Type(base) => TypeLiteralVariant::Type(base.clone()),
        }
    }
}

impl Clone for TypeLiterals {
    fn clone(&self) -> (r: Self)
        ensures
            r == *self,
        decreases self,
    {
        match self {
            TypeLiterals::Literals(rest, last) => TypeLiterals::Literals(
                Box::new((**rest).clone()),
                last.clone(),
            ),
            TypeLiterals::Literal(single) => TypeLiterals::Literal(single.clone()),
        }
    }
}

// ---------------------------------------------------------------------------
// Resolved types
// ---------------------------------------------------------------------------

/// A resolved enum variant: an empty tag, or a tag carrying data of a
/// resolved type.
#[derive(Debug)]
pub enum EnumVariant {
    Empty(String),
    Data(String, Box<TypeVariant>),
}

/// A non-empty list of resolved enum variants.
#[derive(Debug)]
pub enum EnumVariants {
    Variants(Box<EnumVariants>, EnumVariant),
    Variant(EnumVariant),
}

/// A resolved struct field: an identifier and the type its values carry.
#[derive(Debug)]
pub struct StructField {
    pub ident: String,
    pub value_type: Box<TypeVariant>,
}

/// A non-empty list of resolved struct fields.
#[derive(Debug)]
pub enum StructFields {
    Fields(Box<StructFields>, StructField),
    Field(StructField),
}

/// A resolved type constructor: a user-defined enum or struct, a bound type
/// variable, or a primitive.
#[derive(Debug)]
pub enum NalaType {
    Enum(String, EnumVariants, Option<String>),
    Struct(StructFields, Option<String>),
    Generic(String),
    PrimitiveType(PrimitiveType),
}

/// A resolved type: a constructor applied to type arguments, or a bare
/// constructor.
#[derive(Debug)]
pub enum TypeVariant {
    Composite(NalaType, Box<Types>),
    Type(NalaType),
}

/// A non-empty list of resolved types, as carried by a composite type.
#[derive(Debug)]
pub enum Types {
    Types(Box<Types>, TypeVariant),
    Type(TypeVariant),
}

// ---------------------------------------------------------------------------
// Heights, for termination of the mutually recursive relations below
// ---------------------------------------------------------------------------

pub open spec fn ty_height(t: TypeVariant) -> nat
    decreases t,
{
    match t {
        TypeVariant::Composite(base, args) => 1 + nt_height(base) + tys_height(*args),
        TypeVariant::Type(base) => 1 + nt_height(base),
    }
}

pub open spec fn tys_height(ts: Types) -> nat
    decreases ts,
{
    match ts {
        Types::Types(rest, last) => 1 + tys_height(*rest) + ty_height(last),
        Types::Type(single) => 1 + ty_height(single),
    }
}

pub open spec fn nt_height(t: NalaType) -> nat
    decreases t,
{
    match t {
        NalaType::Enum(_ident, variants, _param) => 1 + evs_height(variants),
        NalaType::Struct(fields, _param) => 1 + sfs_height(fields),
        NalaType::Generic(_ident) => 1,
        NalaType::PrimitiveType(_p) => 1,
    }
}

pub open spec fn evs_height(vs: EnumVariants) -> nat
    decreases vs,
{
    match vs {
        EnumVariants::Variants(rest, last) => 1 + evs_height(*rest) + ev_height(last),
        EnumVariants::Variant(single) => 1 + ev_height(single),
    }
}

pub open spec fn ev_height(v: EnumVariant) -> nat
    decreases v,
{
    match v {
        EnumVariant::Empty(_ident) => 1,
        EnumVariant::Data(_ident, data) => 1 + ty_height(*data),
    }
}

pub open spec fn sfs_height(fs: StructFields) -> nat
    decreases fs,
{
    match fs {
        StructFields::Fields(rest, last) => 1 + sfs_height(*rest) + sf_height(last),
        StructFields::Field(single) => 1 + sf_height(single),
    }
}

pub open spec fn sf_height(f: StructField) -> nat
    decreases f,
{
    1 + ty_height(*f.value_type)
}

// ---------------------------------------------------------------------------
// Assignability
// ---------------------------------------------------------------------------

/// Whether a value of type `a` may inhabit a slot expecting type `b`.
/// `Any` on the expected side absorbs every type; enums must agree in name
/// and variant structure; structs are width-subtyped: the supplier may carry
/// more fields than the slot demands.
pub open spec fn spec_assignable(a: TypeVariant, b: TypeVariant) -> bool
    decreases ty_height(a) + ty_height(b),
{
    if b == TypeVariant::Type(NalaType::PrimitiveType(PrimitiveType::Any)) {
        true
    } else {
        match (a, b) {
            (TypeVariant::Type(na), TypeVariant::Type(nb)) => spec_nt_assignable(na, nb),
            (TypeVariant::Composite(na, args_a), TypeVariant::Composite(nb, args_b)) => {
                spec_nt_assignable(na, nb) && spec_tys_assignable(*args_a, *args_b)
            },
            _ => false,
        }
    }
}

pub open spec fn spec_tys_assignable(a: Types, b: Types) -> bool
    decreases tys_height(a) + tys_height(b),
{
    match (a, b) {
        (Types::Types(rest_a, last_a), Types::Types(rest_b, last_b)) => {
            spec_tys_assignable(*rest_a, *rest_b) && spec_assignable(last_a, last_b)
        },
        (Types::Type(single_a), Types::Type(single_b)) => spec_assignable(single_a, single_b),
        _ => false,
    }
}

pub open spec fn spec_nt_assignable(a: NalaType, b: NalaType) -> bool
    decreases nt_height(a) + nt_height(b),
{
    match (a, b) {
        (NalaType::PrimitiveType(pa), NalaType::PrimitiveType(pb)) => spec_prim_assignable(pa, pb),
        (NalaType::Enum(ident_a, vs_a, _pa), NalaType::Enum(ident_b, vs_b, _pb)) => {
            ident_a@ == ident_b@ && spec_evs_assignable(vs_a, vs_b)
        },
        (NalaType::Struct(fs_a, _pa), NalaType::Struct(fs_b, _pb)) => {
            spec_sfs_assignable(fs_a, fs_b)
        },
        (NalaType::Generic(ga), NalaType::Generic(gb)) => ga@ == gb@,
        _ => false,
    }
}

pub open spec fn spec_evs_assignable(a: EnumVariants, b: EnumVariants) -> bool
    decreases evs_height(a) + evs_height(b),
{
    match (a, b) {
        (EnumVariants::Variants(rest_a, last_a), EnumVariants::Variants(rest_b, last_b)) => {
            spec_evs_assignable(*rest_a, *rest_b) && spec_ev_assignable(last_a, last_b)
        },
        (EnumVariants::Variant(single_a), EnumVariants::Variant(single_b)) => {
            spec_ev_assignable(single_a, single_b)
        },
        _ => false,
    }
}

pub open spec fn spec_ev_assignable(a: EnumVariant, b: EnumVariant) -> bool
    decreases ev_height(a) + ev_height(b),
{
    match (a, b) {
        (EnumVariant::Empty(ident_a), EnumVariant::Empty(ident_b)) => ident_a@ == ident_b@,
        (EnumVariant::Data(ident_a, data_a), EnumVariant::Data(ident_b, data_b)) => {
            ident_a@ == ident_b@ && spec_assignable(*data_a, *data_b)
        },
        _ => false,
    }
}

/// Width subtyping on struct fields: every field the slot demands is
/// supplied under the same name with an assignable type.
pub open spec fn spec_sfs_assignable(supplied: StructFields, expected: StructFields) -> bool
    decreases sfs_height(supplied) + sfs_height(expected),
{
    match expected {
        StructFields::Fields(rest, last) => {
            spec_field_matched(supplied, last) && spec_sfs_assignable(supplied, *rest)
        },
        StructFields::Field(single) => spec_field_matched(supplied, single),
    }
}

pub open spec fn spec_field_matched(supplied: StructFields, want: StructField) -> bool
    decreases sfs_height(supplied) + sf_height(want),
        via check_field_matched_decreases
{
    match supplied {
        StructFields::Fields(rest, last) => {
            if last.ident@ == want.ident@ {
                spec_assignable(*last.value_type, *want.value_type)
            } else {
                spec_field_matched(*rest, want)
            }
        },
        StructFields::Field(single) => {
            single.ident@ == want.ident@ && spec_assignable(*single.value_type, *want.value_type)
        },
    }
}

#[via_fn]
proof fn check_field_matched_decreases(supplied: StructFields, want: StructField) {
    match supplied {
        StructFields::Fields(rest, last) => {
            assert(sfs_height(supplied) == 1 + sfs_height(*rest) + sf_height(last));
            assert(sf_height(last) == 1 + ty_height(*last.value_type));
            assert(sf_height(want) == 1 + ty_height(*want.value_type));
        },
        StructFields::Field(single) => {
            assert(sfs_height(supplied) == 1 + sf_height(single));
            assert(sf_height(single) == 1 + ty_height(*single.value_type));
            assert(sf_height(want) == 1 + ty_height(*want.value_type));
        },
    }
}

// ---------------------------------------------------------------------------
// Sequence views of the cons lists
// ---------------------------------------------------------------------------

pub open spec fn tys_to_seq(ts: Types) -> Seq<TypeVariant>
    decreases ts,
{
    match ts {
        Types::Types(rest, last) => tys_to_seq(*rest).push(last),
        Types::Type(single) => seq![single],
    }
}

// ---------------------------------------------------------------------------
// Clones of the resolved types
// ---------------------------------------------------------------------------

impl Clone for EnumVariant {
    fn clone(&self) -> (r: Self)
        ensures
            r == *self,
        decreases self,
    {
        match self {
            EnumVariant::Empty(ident) => EnumVariant::Empty(ident.clone()),
            EnumVariant::Data(ident, data) => EnumVariant::Data(
                ident.clone(),
                Box::new((**data).clone()),
            ),
        }
    }
}

impl Clone for EnumVariants {
    fn clone(&self) -> (r: Self)
        ensures
            r == *self,
        decreases self,
    {
        match self {
            EnumVariants::Variants(rest, last) => EnumVariants::Variants(
                Box::new((**rest).clone()),
                last.clone(),
            ),
            EnumVariants::Variant(single) => EnumVariants::Variant(single.clone()),
        }
    }
}

impl Clone for StructField {
    fn clone(&self) -> (r: Self)
        ensures
            r == *self,
        decreases self,
    {
        StructField { ident: self.ident.clone(), value_type: Box::new((*self.value_type).clone()) }
    }
}

impl Clone for StructFields {
    fn clone(&self) -> (r: Self)
        ensures
            r == *self,
        decreases self,
    {
        match self {
            StructFields::Fields(rest, last) => StructFields::Fields(
                Box::new((**rest).clone()),
                last.clone(),
            ),
            StructFields::Field(single) => StructFields::Field(single.clone()),
        }
    }
}

impl Clone for NalaType {
    fn clone(&self) -> (r: Self)
        ensures
            r == *self,
        decreases self,
    {
        match self {
            NalaType::Enum(ident, variants, type_param) => NalaType::Enum(
                ident.clone(),
                variants.clone(),
                clone_opt_string(type_param),
            ),
            NalaType::Struct(fields, type_param) => NalaType::Struct(
                fields.clone(),
                clone_opt_string(type_param),
            ),
            NalaType::Generic(ident) => NalaType::Generic(ident.clone()),
            NalaType::PrimitiveType(p) => NalaType::PrimitiveType(*p),
        }
    }
}

impl Clone for TypeVariant {
    fn clone(&self) -> (r: Self)
        ensures
            r == *self,
        decreases self,
    {
        match self {
            TypeVariant::Composite(base, args) => TypeVariant::Composite(
                base.clone(),
                Box::new((**args).clone()),
            ),
            TypeVariant::Type(base) => TypeVariant::Type(base.clone()),
        }
    }
}

impl Clone for Types {
    fn clone(&self) -> (r: Self)
        ensures
            r == *self,
        decreases self,
    {
        match self {
            Types::Types(rest, last) => Types::Types(Box::new((**rest).clone()), last.clone()),
            Types::Type(single) => Types::Type(single.clone()),
        }
    }
}

/// Duplicates an optional identifier.
pub fn clone_opt_string(s: &Option<String>) -> (r: Option<String>)
    ensures
        r == *s,
{
    match s {
        Some(inner) => Some(inner.clone()),
        None => None,
    }
}

/// Compares two string slices by their characters.
pub fn str_eq(a: &str, b: &str) -> (r: bool)
    ensures
        r == (a@ == b@),
{
    let owned_a = a.to_owned();
    let owned_b = b.to_owned();
    owned_a == owned_b
}

// ---------------------------------------------------------------------------
// Executable assignability
// ---------------------------------------------------------------------------

impl TypeVariant {
    /// Whether a value of this type may inhabit a slot expecting `other`.
    pub fn is_assignable_to(&self, other: &Self) -> (r: bool)
        ensures
            r == spec_assignable(*self, *other),
        decreases ty_height(*self) + ty_height(*other),
    {
        if let TypeVariant::Type(NalaType::PrimitiveType(PrimitiveType::Any)) = other {
            return true;
        }
        match (self, other) {
            (TypeVariant::Type(na), TypeVariant::Type(nb)) => na.is_assignable_to(nb),
            (TypeVariant::Composite(na, args_a), TypeVariant::Composite(nb, args_b)) => {
                na.is_assignable_to(nb) && args_a.are_assignable_to(args_b)
            },
            _ => false,
        }
    }
}

impl Types {
    /// Pairwise assignability of two type-argument lists of equal length.
    pub fn are_assignable_to(&self, other: &Self) -> (r: bool)
        ensures
            r == spec_tys_assignable(*self, *other),
        decreases tys_height(*self) + tys_height(*other),
    {
        match (self, other) {
            (Types::Types(rest_a, last_a), Types::Types(rest_b, last_b)) => {
                rest_a.are_assignable_to(rest_b) && last_a.is_assignable_to(last_b)
            },
            (Types::Type(single_a), Types::Type(single_b)) => single_a.is_assignable_to(single_b),
            _ => false,
        }
    }

    /// Rebuilds the grammar's list shape from an ordered vector of types.
    pub fn from_vec(types: &Vec<TypeVariant>) -> (r: Types)
        requires
            types@.len() > 0,
        ensures
            tys_to_seq(r) == types@,
    {
        let mut acc = Types::Type(types[0].clone());
        let mut i: usize = 1;
        while i < types.len()
            invariant
                1 <= i <= types@.len(),
                tys_to_seq(acc) =~= types@.subrange(0, i as int),
            decreases types@.len() - i,
        {
            acc = Types::Types(Box::new(acc), types[i].clone());
            i = i + 1;
        }
        proof {
            assert(tys_to_seq(acc) =~= types@);
        }
        acc
    }
}

impl NalaType {
    pub fn is_assignable_to(&self, other: &Self) -> (r: bool)
        ensures
            r == spec_nt_assignable(*self, *other),
        decreases nt_height(*self) + nt_height(*other),
    {
        match (self, other) {
            (NalaType::PrimitiveType(pa), NalaType::PrimitiveType(pb)) => pa.is_assignable_to(pb),
            (NalaType::Enum(ident_a, vs_a, _pa), NalaType::Enum(ident_b, vs_b, _pb)) => {
                *ident_a == *ident_b && vs_a.are_assignable_to(vs_b)
            },
            (NalaType::Struct(fs_a, _pa), NalaType::Struct(fs_b, _pb)) => {
                fs_a.are_assignable_to(fs_b)
            },
            (NalaType::Generic(ga), NalaType::Generic(gb)) => *ga == *gb,
            _ => false,
        }
    }
}

impl EnumVariants {
    pub fn are_assignable_to(&self, other: &Self) -> (r: bool)
        ensures
            r == spec_evs_assignable(*self, *other),
        decreases evs_height(*self) + evs_height(*other),
    {
        match (self, other) {
            (EnumVariants::Variants(rest_a, last_a), EnumVariants::Variants(rest_b, last_b)) => {
                rest_a.are_assignable_to(rest_b) && last_a.is_assignable_to(last_b)
            },
            (EnumVariants::Variant(single_a), EnumVariants::Variant(single_b)) => {
                single_a.is_assignable_to(single_b)
            },
            _ => false,
        }
    }
}

impl EnumVariant {
    pub fn is_assignable_to(&self, other: &Self) -> (r: bool)
        ensures
            r == spec_ev_assignable(*self, *other),
        decreases ev_height(*self) + ev_height(*other),
    {
        match (self, other) {
            (EnumVariant::Empty(ident_a), EnumVariant::Empty(ident_b)) => *ident_a == *ident_b,
            (EnumVariant::Data(ident_a, data_a), EnumVariant::Data(ident_b, data_b)) => {
                *ident_a == *ident_b && data_a.is_assignable_to(data_b)
            },
            _ => false,
        }
    }
}

impl StructFields {
    pub fn are_assignable_to(&self, other: &Self) -> (r: bool)
        ensures
            r == spec_sfs_assignable(*self, *other),
        decreases sfs_height(*self) + sfs_height(*other),
    {
        match other {
            StructFields::Fields(rest, last) => {
                self.matches_field(last) && self.are_assignable_to(rest)
            },
            StructFields::Field(single) => self.matches_field(single),
        }
    }

    /// Whether this field list supplies the wanted field under the same name
    /// with an assignable type.
    pub fn matches_field(&self, want: &StructField) -> (r: bool)
        ensures
            r == spec_field_matched(*self, *want),
        decreases sfs_height(*self) + sf_height(*want),
    {
        proof {
            assert(sf_height(*want) == 1 + ty_height(*want.value_type));
        }
        match self {
            StructFields::Fields(rest, last) => {
                proof {
                    assert(sf_height(*last) == 1 + ty_height(*last.value_type));
                }
                if last.ident == want.ident {
                    last.value_type.is_assignable_to(&want.value_type)
                } else {
                    rest.matches_field(want)
                }
            },
            StructFields::Field(single) => {
                proof {
                    assert(sf_height(*single) == 1 + ty_height(*single.value_type));
                }
                single.ident == want.ident && single.value_type.is_assignable_to(
                    &want.value_type,
                )
            },
        }
    }
}

// ---------------------------------------------------------------------------
// Type equality and instantiation of the type variable
// ---------------------------------------------------------------------------

/// Two resolved types are equal when each is assignable to the other; the
/// asymmetry of `Any` makes `Any` equal only to itself.
pub open spec fn spec_type_equals(a: TypeVariant, b: TypeVariant) -> bool {
    spec_assignable(a, b) && spec_assignable(b, a)
}

impl TypeVariant {
    /// Mutual assignability, the equality used by the comparison operators.
    pub fn is_equal_to(&self, other: &Self) -> (r: bool)
        ensures
            r == spec_type_equals(*self, *other),
    {
        self.is_assignable_to(other) && other.is_assignable_to(self)
    }
}

/// The type inferred for an empty array: its element type is unknown, so a
/// slot demanding a concrete element type must report the deferred
/// unknown-type failure rather than an ordinary mismatch.
pub open spec fn spec_is_empty_array_type(t: TypeVariant) -> bool {
    t == TypeVariant::Composite(
        NalaType::PrimitiveType(PrimitiveType::Array),
        Box::new(Types::Type(TypeVariant::Type(NalaType::PrimitiveType(PrimitiveType::Any)))),
    )
}

impl TypeVariant {
    /// Whether this is the type of an empty array, `Array<Any>`.
    pub fn is_empty_array_type(&self) -> (r: bool)
        ensures
            r == spec_is_empty_array_type(*self),
    {
        match self {
            TypeVariant::Composite(NalaType::PrimitiveType(PrimitiveType::Array), args) => {
                match &**args {
                    Types::Type(TypeVariant::Type(NalaType::PrimitiveType(PrimitiveType::Any))) => {
                        true
                    },
                    _ => false,
                }
            },
            _ => false,
        }
    }
}

/// Substitution of the named type variable by a concrete type, applied to
/// every occurrence inside the type.
pub open spec fn spec_make_concrete(t: TypeVariant, g: Seq<char>, c: TypeVariant) -> TypeVariant
    decreases ty_height(t),
{
    match t {
        TypeVariant::Type(NalaType::Generic(ident)) => {
            if ident@ == g {
                c
            } else {
                t
            }
        },
        TypeVariant::Type(base) => TypeVariant::Type(spec_nt_make_concrete(base, g, c)),
        TypeVariant::Composite(base, args) => TypeVariant::Composite(
            spec_nt_make_concrete(base, g, c),
            Box::new(spec_tys_make_concrete(*args, g, c)),
        ),
    }
}

pub open spec fn spec_tys_make_concrete(ts: Types, g: Seq<char>, c: TypeVariant) -> Types
    decreases tys_height(ts),
{
    match ts {
        Types::Types(rest, last) => Types::Types(
            Box::new(spec_tys_make_concrete(*rest, g, c)),
            spec_make_concrete(last, g, c),
        ),
        Types::Type(single) => Types::Type(spec_make_concrete(single, g, c)),
    }
}

pub open spec fn spec_nt_make_concrete(t: NalaType, g: Seq<char>, c: TypeVariant) -> NalaType
    decreases nt_height(t),
{
    match t {
        NalaType::Enum(ident, variants, type_param) => NalaType::Enum(
            ident,
            spec_evs_make_concrete(variants, g, c),
            type_param,
        ),
        NalaType::Struct(fields, type_param) => NalaType::Struct(
            spec_sfs_make_concrete(fields, g, c),
            type_param,
        ),
        _ => t,
    }
}

pub open spec fn spec_evs_make_concrete(vs: EnumVariants, g: Seq<char>, c: TypeVariant) -> EnumVariants
    decreases evs_height(vs),
{
    match vs {
        EnumVariants::Variants(rest, last) => EnumVariants::Variants(
            Box::new(spec_evs_make_concrete(*rest, g, c)),
            spec_ev_make_concrete(last, g, c),
        ),
        EnumVariants::Variant(single) => EnumVariants::Variant(spec_ev_make_concrete(single, g, c)),
    }
}

pub open spec fn spec_ev_make_concrete(v: EnumVariant, g: Seq<char>, c: TypeVariant) -> EnumVariant
    decreases ev_height(v),
{
    match v {
        EnumVariant::Empty(ident) => EnumVariant::Empty(ident),
        EnumVariant::Data(ident, data) => EnumVariant::Data(
            ident,
            Box::new(spec_make_concrete(*data, g, c)),
        ),
    }
}

pub open spec fn spec_sfs_make_concrete(fs: StructFields, g: Seq<char>, c: TypeVariant) -> StructFields
    decreases sfs_height(fs),
{
    match fs {
        StructFields::Fields(rest, last) => StructFields::Fields(
            Box::new(spec_sfs_make_concrete(*rest, g, c)),
            spec_sf_make_concrete(last, g, c),
        ),
        StructFields::Field(single) => StructFields::Field(spec_sf_make_concrete(single, g, c)),
    }
}

pub open spec fn spec_sf_make_concrete(f: StructField, g: Seq<char>, c: TypeVariant) -> StructField
    decreases sf_height(f),
{
    StructField { ident: f.ident, value_type: Box::new(spec_make_concrete(*f.value_type, g, c)) }
}

impl TypeVariant {
    /// Replaces the type variable named `generic_ident` by `concrete_type`.
    pub fn make_concrete(self, generic_ident: &str, concrete_type: &TypeVariant) -> (r: Self)
        ensures
            r == spec_make_concrete(self, generic_ident@, *concrete_type),
        decreases ty_height(self),
    {
        match self {
            TypeVariant::Type(NalaType::Generic(ident)) => {
                if str_eq(ident.as_str(), generic_ident) {
                    concrete_type.clone()
                } else {
                    TypeVariant::Type(NalaType::Generic(ident))
                }
            },
            TypeVariant::Type(base) => TypeVariant::Type(
                base.make_concrete(generic_ident, concrete_type),
            ),
            TypeVariant::Composite(base, args) => TypeVariant::Composite(
                base.make_concrete(generic_ident, concrete_type),
                Box::new(args.make_concrete(generic_ident, concrete_type)),
            ),
        }
    }
}

impl Types {
    pub fn make_concrete(self, generic_ident: &str, concrete_type: &TypeVariant) -> (r: Self)
        ensures
            r == spec_tys_make_concrete(self, generic_ident@, *concrete_type),
        decreases tys_height(self),
    {
        match self {
            Types::Types(rest, last) => Types::Types(
                Box::new(rest.make_concrete(generic_ident, concrete_type)),
                last.make_concrete(generic_ident, concrete_type),
            ),
            Types::Type(single) => Types::Type(single.make_concrete(generic_ident, concrete_type)),
        }
    }
}

impl NalaType {
    /// Replaces the type variable named `generic_ident` inside enum data
    /// types and struct field types.
    pub fn make_concrete(self, generic_ident: &str, concrete_type: &TypeVariant) -> (r: Self)
        ensures
            r == spec_nt_make_concrete(self, generic_ident@, *concrete_type),
        decreases nt_height(self),
    {
        match self {
            NalaType::Enum(ident, variants, type_param) => NalaType::Enum(
                ident,
                variants.make_concrete(generic_ident, concrete_type),
                type_param,
            ),
            NalaType::Struct(fields, type_param) => NalaType::Struct(
                fields.make_concrete(generic_ident, concrete_type),
                type_param,
            ),
            other => other,
        }
    }

    /// Whether the constructor can take a type argument: parameterised
    /// user-defined types, and the container primitives.
    pub fn supports_type_params(&self) -> (r: bool)
        ensures
            r == spec_supports_type_params(*self),
    {
        match self {
            NalaType::Enum(_ident, _variants, type_param) => type_param.is_some(),
            NalaType::PrimitiveType(primitive) => match primitive {
                PrimitiveType::Array => true,
                PrimitiveType::Break => true,
                PrimitiveType::Func => true,
                _ => false,
            },
            NalaType::Struct(_fields, type_param) => type_param.is_some(),
            NalaType::Generic(_ident) => false,
        }
    }

    /// The name of the type variable the constructor was declared with.
    pub fn get_type_param(&self) -> (r: Option<String>)
        ensures
            r == spec_nt_type_param(*self),
    {
        match self {
            NalaType::Enum(_ident, _variants, type_param) => clone_opt_string(type_param),
            NalaType::PrimitiveType(_p) => None,
            NalaType::Struct(_fields, type_param) => clone_opt_string(type_param),
            NalaType::Generic(ident) => Some(ident.clone()),
        }
    }
}

pub open spec fn spec_supports_type_params(t: NalaType) -> bool {
    match t {
        NalaType::Enum(_ident, _variants, type_param) => type_param is Some,
        NalaType::PrimitiveType(primitive) => primitive == PrimitiveType::Array || primitive
            == PrimitiveType::Break || primitive == PrimitiveType::Func,
        NalaType::Struct(_fields, type_param) => type_param is Some,
        NalaType::Generic(_ident) => false,
    }
}

pub open spec fn spec_nt_type_param(t: NalaType) -> Option<String> {
    match t {
        NalaType::Enum(_ident, _variants, type_param) => type_param,
        NalaType::PrimitiveType(_p) => None,
        NalaType::Struct(_fields, type_param) => type_param,
        NalaType::Generic(ident) => Some(ident),
    }
}

impl EnumVariants {
    pub fn make_concrete(self, generic_ident: &str, concrete_type: &TypeVariant) -> (r: Self)
        ensures
            r == spec_evs_make_concrete(self, generic_ident@, *concrete_type),
        decreases evs_height(self),
    {
        match self {
            EnumVariants::Variants(rest, last) => EnumVariants::Variants(
                Box::new(rest.make_concrete(generic_ident, concrete_type)),
                last.make_concrete(generic_ident, concrete_type),
            ),
            EnumVariants::Variant(single) => EnumVariants::Variant(
                single.make_concrete(generic_ident, concrete_type),
            ),
        }
    }
}

impl EnumVariant {
    pub fn make_concrete(self, generic_ident: &str, concrete_type: &TypeVariant) -> (r: Self)
        ensures
            r == spec_ev_make_concrete(self, generic_ident@, *concrete_type),
        decreases ev_height(self),
    {
        match self {
            EnumVariant::Empty(ident) => EnumVariant::Empty(ident),
            EnumVariant::Data(ident, data) => EnumVariant::Data(
                ident,
                Box::new(data.make_concrete(generic_ident, concrete_type)),
            ),
        }
    }
}

impl StructFields {
    pub fn make_concrete(self, generic_ident: &str, concrete_type: &TypeVariant) -> (r: Self)
        ensures
            r == spec_sfs_make_concrete(self, generic_ident@, *concrete_type),
        decreases sfs_height(self),
    {
        match self {
            StructFields::Fields(rest, last) => {
                proof {
                    assert(sf_height(last) == 1 + ty_height(*last.value_type));
                    assert(spec_sf_make_concrete(last, generic_ident@, *concrete_type)
                        == (StructField {
                        ident: last.ident,
                        value_type: Box::new(
                            spec_make_concrete(*last.value_type, generic_ident@, *concrete_type),
                        ),
                    }));
                }
                StructFields::Fields(
                    Box::new(rest.make_concrete(generic_ident, concrete_type)),
                    StructField {
                        ident: last.ident,
                        value_type: Box::new(
                            (*last.value_type).make_concrete(generic_ident, concrete_type),
                        ),
                    },
                )
            },
            StructFields::Field(single) => {
                proof {
                    assert(sf_height(single) == 1 + ty_height(*single.value_type));
                    assert(spec_sf_make_concrete(single, generic_ident@, *concrete_type)
                        == (StructField {
                        ident: single.ident,
                        value_type: Box::new(
                            spec_make_concrete(*single.value_type, generic_ident@, *concrete_type),
                        ),
                    }));
                }
                StructFields::Field(
                    StructField {
                        ident: single.ident,
                        value_type: Box::new(
                            (*single.value_type).make_concrete(generic_ident, concrete_type),
                        ),
                    },
                )
            },
        }
    }
}

// ---------------------------------------------------------------------------
// Well-formedness of resolved types
// ---------------------------------------------------------------------------

/// Structural membership of a field in a field list.
pub open spec fn sfs_mem(fs: StructFields, f: StructField) -> bool
    decreases fs,
{
    match fs {
        StructFields::Fields(rest, last) => f == last || sfs_mem(*rest, f),
        StructFields::Field(single) => f == single,
    }
}

/// How many fields of the list carry the given name.
pub open spec fn sfs_name_count(fs: StructFields, name: Seq<char>) -> nat
    decreases fs,
{
    match fs {
        StructFields::Fields(rest, last) => sfs_name_count(*rest, name) + (
        if last.ident@ == name {
            1nat
        } else {
            0nat
        }),
        StructFields::Field(single) => if single.ident@ == name {
            1nat
        } else {
            0nat
        },
    }
}

/// A well-formed type names each struct field once, recursively.
pub open spec fn ty_wf(t: TypeVariant) -> bool
    decreases ty_height(t),
{
    match t {
        TypeVariant::Composite(base, args) => nt_wf(base) && tys_wf(*args),
        TypeVariant::Type(base) => nt_wf(base),
    }
}

pub open spec fn tys_wf(ts: Types) -> bool
    decreases tys_height(ts),
{
    match ts {
        Types::Types(rest, last) => tys_wf(*rest) && ty_wf(last),
        Types::Type(single) => ty_wf(single),
    }
}

pub open spec fn nt_wf(t: NalaType) -> bool
    decreases nt_height(t),
{
    match t {
        NalaType::Enum(_ident, variants, _param) => evs_wf(variants),
        NalaType::Struct(fields, _param) => sfs_wf(fields),
        NalaType::Generic(_ident) => true,
        NalaType::PrimitiveType(_p) => true,
    }
}

pub open spec fn evs_wf(vs: EnumVariants) -> bool
    decreases evs_height(vs),
{
    match vs {
        EnumVariants::Variants(rest, last) => evs_wf(*rest) && ev_wf(last),
        EnumVariants::Variant(single) => ev_wf(single),
    }
}

pub open spec fn ev_wf(v: EnumVariant) -> bool
    decreases ev_height(v),
{
    match v {
        EnumVariant::Empty(_ident) => true,
        EnumVariant::Data(_ident, data) => ty_wf(*data),
    }
}

pub open spec fn sfs_wf(fs: StructFields) -> bool
    decreases sfs_height(fs),
    via check_sfs_wf_decreases
{
    match fs {
        StructFields::Fields(rest, last) => sfs_name_count(*rest, last.ident@) == 0 && sfs_wf(*rest)
            && ty_wf(*last.value_type),
        StructFields::Field(single) => ty_wf(*single.value_type),
    }
}

#[via_fn]
proof fn check_sfs_wf_decreases(fs: StructFields) {
    match fs {
        StructFields::Fields(rest, last) => {
            assert(sf_height(last) == 1 + ty_height(*last.value_type));
        },
        StructFields::Field(single) => {
            assert(sf_height(single) == 1 + ty_height(*single.value_type));
        },
    }
}

// ---------------------------------------------------------------------------
// Laws of assignability: reflexivity
// ---------------------------------------------------------------------------

/// A member of a field list counts towards its own name.
proof fn lemma_sfs_mem_name_count(fs: StructFields, f: StructField)
    requires
        sfs_mem(fs, f),
    ensures
        sfs_name_count(fs, f.ident@) >= 1,
    decreases fs,
{
    match fs {
        StructFields::Fields(rest, last) => {
            if f != last {
                lemma_sfs_mem_name_count(*rest, f);
            }
        },
        StructFields::Field(_single) => {},
    }
}

/// Every well-formed type is assignable to itself.
pub proof fn lemma_assignable_reflexive(t: TypeVariant)
    requires
        ty_wf(t),
    ensures
        spec_assignable(t, t),
    decreases ty_height(t), 0nat,
{
    match t {
        TypeVariant::Composite(base, args) => {
            lemma_nt_assignable_reflexive(base);
            lemma_tys_assignable_reflexive(*args);
        },
        TypeVariant::Type(base) => {
            lemma_nt_assignable_reflexive(base);
        },
    }
}

proof fn lemma_tys_assignable_reflexive(ts: Types)
    requires
        tys_wf(ts),
    ensures
        spec_tys_assignable(ts, ts),
    decreases tys_height(ts), 0nat,
{
    match ts {
        Types::Types(rest, last) => {
            lemma_tys_assignable_reflexive(*rest);
            lemma_assignable_reflexive(last);
        },
        Types::Type(single) => {
            lemma_assignable_reflexive(single);
        },
    }
}

proof fn lemma_nt_assignable_reflexive(t: NalaType)
    requires
        nt_wf(t),
    ensures
        spec_nt_assignable(t, t),
    decreases nt_height(t), 0nat,
{
    match t {
        NalaType::Enum(_ident, variants, _param) => {
            lemma_evs_assignable_reflexive(variants);
        },
        NalaType::Struct(fields, _param) => {
            lemma_sfs_assignable_part(fields, fields);
        },
        NalaType::Generic(_ident) => {},
        NalaType::PrimitiveType(_p) => {},
    }
}

proof fn lemma_evs_assignable_reflexive(vs: EnumVariants)
    requires
        evs_wf(vs),
    ensures
        spec_evs_assignable(vs, vs),
    decreases evs_height(vs), 0nat,
{
    match vs {
        EnumVariants::Variants(rest, last) => {
            lemma_evs_assignable_reflexive(*rest);
            lemma_ev_assignable_reflexive(last);
        },
        EnumVariants::Variant(single) => {
            lemma_ev_assignable_reflexive(single);
        },
    }
}

proof fn lemma_ev_assignable_reflexive(v: EnumVariant)
    requires
        ev_wf(v),
    ensures
        spec_ev_assignable(v, v),
    decreases ev_height(v), 0nat,
{
    match v {
        EnumVariant::Empty(_ident) => {},
        EnumVariant::Data(_ident, data) => {
            lemma_assignable_reflexive(*data);
        },
    }
}

/// Any sub-list of a well-formed field list is width-satisfied by the whole.
proof fn lemma_sfs_assignable_part(whole: StructFields, part: StructFields)
    requires
        sfs_wf(whole),
        forall|f: StructField| sfs_mem(part, f) ==> sfs_mem(whole, f),
    ensures
        spec_sfs_assignable(whole, part),
    decreases sfs_height(whole), sfs_height(part),
{
    match part {
        StructFields::Fields(rest, last) => {
            assert(sfs_mem(part, last));
            lemma_field_matched_self(whole, last);
            assert(forall|f: StructField| sfs_mem(*rest, f) ==> sfs_mem(part, f));
            lemma_sfs_assignable_part(whole, *rest);
        },
        StructFields::Field(single) => {
            assert(sfs_mem(part, single));
            lemma_field_matched_self(whole, single);
        },
    }
}

/// A field of a well-formed list is matched by the list itself.
proof fn lemma_field_matched_self(whole: StructFields, f: StructField)
    requires
        sfs_wf(whole),
        sfs_mem(whole, f),
    ensures
        spec_field_matched(whole, f),
    decreases sfs_height(whole), sf_height(f),
{
    match whole {
        StructFields::Fields(rest, last) => {
            if last.ident@ == f.ident@ {
                if f != last {
                    lemma_sfs_mem_name_count(*rest, f);
                    assert(false);
                }
                assert(sf_height(last) == 1 + ty_height(*last.value_type));
                lemma_assignable_reflexive(*f.value_type);
            } else {
                if f == last {
                    assert(false);
                }
                lemma_field_matched_self(*rest, f);
            }
        },
        StructFields::Field(single) => {
            assert(f == single);
            assert(sf_height(single) == 1 + ty_height(*single.value_type));
            lemma_assignable_reflexive(*f.value_type);
        },
    }
}

// ---------------------------------------------------------------------------
// Laws of assignability: transitivity
// ---------------------------------------------------------------------------

/// The type `Any`, which absorbs every type on the expected side.
pub open spec fn any_type() -> TypeVariant {
    TypeVariant::Type(NalaType::PrimitiveType(PrimitiveType::Any))
}

/// Assignability composes: a type assignable to `b` inhabits every slot that
/// `b` inhabits.  `Any` needs no side condition here because `Any` itself is
/// assignable only to `Any`.
pub proof fn lemma_assignable_transitive(a: TypeVariant, b: TypeVariant, c: TypeVariant)
    requires
        spec_assignable(a, b),
        spec_assignable(b, c),
    ensures
        spec_assignable(a, c),
    decreases ty_height(a) + ty_height(b) + ty_height(c),
{
    if c != any_type() {
        assert(b != any_type()) by {
            if b == any_type() {
                match c {
                    TypeVariant::Type(nc) => {
                        assert(spec_nt_assignable(NalaType::PrimitiveType(PrimitiveType::Any), nc));
                        assert(false);
                    },
                    TypeVariant::Composite(_nc, _args) => {
                        assert(false);
                    },
                }
            }
        }
        match (a, b, c) {
            (TypeVariant::Type(na), TypeVariant::Type(nb), TypeVariant::Type(nc)) => {
                lemma_nt_assignable_transitive(na, nb, nc);
            },
            (
                TypeVariant::Composite(na, args_a),
                TypeVariant::Composite(nb, args_b),
                TypeVariant::Composite(nc, args_c),
            ) => {
                lemma_nt_assignable_transitive(na, nb, nc);
                lemma_tys_assignable_transitive(*args_a, *args_b, *args_c);
            },
            _ => {},
        }
    }
}

proof fn lemma_tys_assignable_transitive(a: Types, b: Types, c: Types)
    requires
        spec_tys_assignable(a, b),
        spec_tys_assignable(b, c),
    ensures
        spec_tys_assignable(a, c),
    decreases tys_height(a) + tys_height(b) + tys_height(c),
{
    match (a, b, c) {
        (Types::Types(rest_a, last_a), Types::Types(rest_b, last_b), Types::Types(rest_c, last_c)) => {
            lemma_tys_assignable_transitive(*rest_a, *rest_b, *rest_c);
            lemma_assignable_transitive(last_a, last_b, last_c);
        },
        (Types::Type(single_a), Types::Type(single_b), Types::Type(single_c)) => {
            lemma_assignable_transitive(single_a, single_b, single_c);
        },
        _ => {},
    }
}

proof fn lemma_nt_assignable_transitive(a: NalaType, b: NalaType, c: NalaType)
    requires
        spec_nt_assignable(a, b),
        spec_nt_assignable(b, c),
    ensures
        spec_nt_assignable(a, c),
    decreases nt_height(a) + nt_height(b) + nt_height(c),
{
    match (a, b, c) {
        (NalaType::Enum(_ia, vs_a, _pa), NalaType::Enum(_ib, vs_b, _pb), NalaType::Enum(_ic, vs_c, _pc)) => {
            lemma_evs_assignable_transitive(vs_a, vs_b, vs_c);
        },
        (NalaType::Struct(fs_a, _pa), NalaType::Struct(fs_b, _pb), NalaType::Struct(fs_c, _pc)) => {
            lemma_sfs_assignable_transitive(fs_a, fs_b, fs_c);
        },
        _ => {},
    }
}

proof fn lemma_evs_assignable_transitive(a: EnumVariants, b: EnumVariants, c: EnumVariants)
    requires
        spec_evs_assignable(a, b),
        spec_evs_assignable(b, c),
    ensures
        spec_evs_assignable(a, c),
    decreases evs_height(a) + evs_height(b) + evs_height(c),
{
    match (a, b, c) {
        (
            EnumVariants::Variants(rest_a, last_a),
            EnumVariants::Variants(rest_b, last_b),
            EnumVariants::Variants(rest_c, last_c),
        ) => {
            lemma_evs_assignable_transitive(*rest_a, *rest_b, *rest_c);
            lemma_ev_assignable_transitive(last_a, last_b, last_c);
        },
        (
            EnumVariants::Variant(single_a),
            EnumVariants::Variant(single_b),
            EnumVariants::Variant(single_c),
        ) => {
            lemma_ev_assignable_transitive(single_a, single_b, single_c);
        },
        _ => {},
    }
}

proof fn lemma_ev_assignable_transitive(a: EnumVariant, b: EnumVariant, c: EnumVariant)
    requires
        spec_ev_assignable(a, b),
        spec_ev_assignable(b, c),
    ensures
        spec_ev_assignable(a, c),
    decreases ev_height(a) + ev_height(b) + ev_height(c),
{
    match (a, b, c) {
        (
            EnumVariant::Data(_ia, data_a),
            EnumVariant::Data(_ib, data_b),
            EnumVariant::Data(_ic, data_c),
        ) => {
            lemma_assignable_transitive(*data_a, *data_b, *data_c);
        },
        _ => {},
    }
}

proof fn lemma_sfs_assignable_transitive(fs_a: StructFields, fs_b: StructFields, fs_c: StructFields)
    requires
        spec_sfs_assignable(fs_a, fs_b),
        spec_sfs_assignable(fs_b, fs_c),
    ensures
        spec_sfs_assignable(fs_a, fs_c),
    decreases sfs_height(fs_a) + sfs_height(fs_b) + sfs_height(fs_c),
{
    match fs_c {
        StructFields::Fields(rest_c, last_c) => {
            proof_field_matched_transitive(fs_a, fs_b, last_c);
            lemma_sfs_assignable_transitive(fs_a, fs_b, *rest_c);
        },
        StructFields::Field(single_c) => {
            proof_field_matched_transitive(fs_a, fs_b, single_c);
        },
    }
}

/// A field matched by `fs_b` is matched by any list that width-satisfies `fs_b`.
proof fn proof_field_matched_transitive(fs_a: StructFields, fs_b: StructFields, want: StructField)
    requires
        spec_sfs_assignable(fs_a, fs_b),
        spec_field_matched(fs_b, want),
    ensures
        spec_field_matched(fs_a, want),
    decreases sfs_height(fs_a) + sfs_height(fs_b) + sf_height(want),
{
    match fs_b {
        StructFields::Fields(rest_b, last_b) => {
            if last_b.ident@ == want.ident@ {
                proof_field_matched_compose(fs_a, last_b, want);
            } else {
                proof_field_matched_transitive(fs_a, *rest_b, want);
            }
        },
        StructFields::Field(single_b) => {
            proof_field_matched_compose(fs_a, single_b, want);
        },
    }
}

/// Strengthening the matched field: a list matching `mid` also matches any
/// same-named field whose type `mid`'s type is assignable to.
proof fn proof_field_matched_compose(fs_a: StructFields, mid: StructField, want: StructField)
    requires
        spec_field_matched(fs_a, mid),
        mid.ident@ == want.ident@,
        spec_assignable(*mid.value_type, *want.value_type),
    ensures
        spec_field_matched(fs_a, want),
    decreases sfs_height(fs_a) + sf_height(mid) + sf_height(want),
{
    assert(sf_height(mid) == 1 + ty_height(*mid.value_type));
    assert(sf_height(want) == 1 + ty_height(*want.value_type));
    match fs_a {
        StructFields::Fields(rest_a, last_a) => {
            if last_a.ident@ == mid.ident@ {
                assert(sf_height(last_a) == 1 + ty_height(*last_a.value_type));
                lemma_assignable_transitive(*last_a.value_type, *mid.value_type, *want.value_type);
            } else {
                proof_field_matched_compose(*rest_a, mid, want);
            }
        },
        StructFields::Field(single_a) => {
            assert(sf_height(single_a) == 1 + ty_height(*single_a.value_type));
            lemma_assignable_transitive(*single_a.value_type, *mid.value_type, *want.value_type);
        },
    }
}

} // verus!
