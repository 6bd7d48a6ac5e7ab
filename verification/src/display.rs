use vstd::prelude::*;

use crate::scopes::Scopes;
use crate::types::PrimitiveInterface;
use crate::types::PrimitiveType;
use crate::types::TypeLiteral;
use crate::types::TypeLiteralVariant;
use crate::types::TypeLiterals;
use crate::types::NalaType;
use crate::types::StructFields;
use crate::types::TypeVariant;
use crate::types::Types;
use crate::values::EnumVariantValue;
use crate::values::FuncValue;
use crate::values::Value;
use crate::ast::Params;

verus! {

// ---------------------------------------------------------------------------
// Decimal rendering of numbers
// ---------------------------------------------------------------------------

pub open spec fn digit_char(d: nat) -> char {
    if d == 0 {
        '0'
    } else if d == 1 {
        '1'
    } else if d == 2 {
        '2'
    } else if d == 3 {
        '3'
    } else if d == 4 {
        '4'
    } else if d == 5 {
        '5'
    } else if d == 6 {
        '6'
    } else if d == 7 {
        '7'
    } else if d == 8 {
        '8'
    } else {
        '9'
    }
}

/// The decimal digits of a natural number, most significant first.
pub open spec fn dec_digits(n: nat) -> Seq<char>
    decreases n,
{
    if n < 10 {
        seq![digit_char(n)]
    } else {
        dec_digits(n / 10).push(digit_char(n % 10))
    }
}

/// The canonical decimal form of an integer.
pub open spec fn num_display(n: int) -> Seq<char> {
    if n >= 0 {
        dec_digits(n as nat)
    } else {
        seq!['-'] + dec_digits((-n) as nat)
    }
}

fn digit_str(d: u64) -> (r: &'static str)
    requires
        d < 10,
    ensures
        r@ == seq![digit_char(d as nat)],
{
    proof {
        reveal_strlit("0");
        reveal_strlit("1");
        reveal_strlit("2");
        reveal_strlit("3");
        reveal_strlit("4");
        reveal_strlit("5");
        reveal_strlit("6");
        reveal_strlit("7");
        reveal_strlit("8");
        reveal_strlit("9");
    }
    let r = if d == 0 {
        "0"
    } else if d == 1 {
        "1"
    } else if d == 2 {
        "2"
    } else if d == 3 {
        "3"
    } else if d == 4 {
        "4"
    } else if d == 5 {
        "5"
    } else if d == 6 {
        "6"
    } else if d == 7 {
        "7"
    } else if d == 8 {
        "8"
    } else {
        "9"
    };
    proof {
        assert(r@ =~= seq![digit_char(d as nat)]);
    }
    r
}

fn u64_to_string(n: u64) -> (s: String)
    ensures
        s@ == dec_digits(n as nat),
    decreases n,
{
    if n < 10 {
        digit_str(n).to_owned()
    } else {
        let mut s = u64_to_string(n / 10);
        s.append(digit_str(n % 10));
        proof {
            assert(s@ =~= dec_digits((n / 10) as nat).push(digit_char((n % 10) as nat)));
        }
        s
    }
}

/// Renders a number in its shortest decimal form.
pub fn num_to_string(n: i64) -> (s: String)
    ensures
        s@ == num_display(n as int),
{
    if n >= 0 {
        u64_to_string(n as u64)
    } else {
        let magnitude: u64 = ((-(n + 1)) as u64) + 1;
        proof {
            assert(magnitude == -(n as int));
            reveal_strlit("-");
        }
        let mut s = "-".to_owned();
        let digits = u64_to_string(magnitude);
        s.append(digits.as_str());
        proof {
            assert(s@ =~= seq!['-'] + dec_digits((-(n as int)) as nat));
        }
        s
    }
}

pub open spec fn bool_display(b: bool) -> Seq<char> {
    if b {
        "true"@
    } else {
        "false"@
    }
}

/// Renders a boolean as `true` or `false`.
pub fn bool_to_string(b: bool) -> (s: String)
    ensures
        s@ == bool_display(b),
{
    if b {
        "true".to_owned()
    } else {
        "false".to_owned()
    }
}

// ---------------------------------------------------------------------------
// Display of type literals
// ---------------------------------------------------------------------------

pub open spec fn prim_display(p: PrimitiveType) -> Seq<char> {
    match p {
        PrimitiveType::Array => "Array"@,
        PrimitiveType::Bool => "Bool"@,
        PrimitiveType::Break => "Break"@,
        PrimitiveType::Func => "Func"@,
        PrimitiveType::Number => "Number"@,
        PrimitiveType::String => "String"@,
        PrimitiveType::Void => "Void"@,
        PrimitiveType::Any => "Any"@,
    }
}

impl PrimitiveType {
    /// The name of the primitive type as written in source.
    pub fn to_string(&self) -> (s: String)
        ensures
            s@ == prim_display(*self),
    {
        let r = match self {
            PrimitiveType::Array => "Array",
            PrimitiveType::Bool => "Bool",
            PrimitiveType::Break => "Break",
            PrimitiveType::Func => "Func",
            PrimitiveType::Number => "Number",
            PrimitiveType::String => "String",
            PrimitiveType::Void => "Void",
            PrimitiveType::Any => "Any",
        };
        r.to_owned()
    }
}

pub open spec fn interface_display(i: PrimitiveInterface) -> Seq<char> {
    match i {
        PrimitiveInterface::IPrint => "IPrint"@,
        PrimitiveInterface::ICompare => "ICompare"@,
    }
}

impl PrimitiveInterface {
    /// The name of the interface.
    pub fn to_string(&self) -> (s: String)
        ensures
            s@ == interface_display(*self),
    {
        match self {
            PrimitiveInterface::IPrint => "IPrint".to_owned(),
            PrimitiveInterface::ICompare => "ICompare".to_owned(),
        }
    }
}

pub open spec fn tl_display(t: TypeLiteral) -> Seq<char> {
    match t {
        TypeLiteral::PrimitiveType(p) => prim_display(p),
        TypeLiteral::UserDefined(ident) => ident@,
    }
}

pub open spec fn tlv_display(t: TypeLiteralVariant) -> Seq<char>
    decreases t,
{
    match t {
        TypeLiteralVariant::Composite(base, args) => tl_display(base) + "<"@ + tls_display(*args)
            + ">"@,
        TypeLiteralVariant::Type(base) => tl_display(base),
    }
}

pub open spec fn tls_display(ts: TypeLiterals) -> Seq<char>
    decreases ts,
{
    match ts {
        TypeLiterals::Literals(rest, last) => tls_display(*rest) + ", "@ + tlv_display(last),
        TypeLiterals::Literal(single) => tlv_display(single),
    }
}

impl TypeLiteral {
    /// The literal as written in source.
    pub fn to_string(&self) -> (s: String)
        ensures
            s@ == tl_display(*self),
    {
        match self {
            TypeLiteral::PrimitiveType(p) => p.to_string(),
            TypeLiteral::UserDefined(ident) => ident.clone(),
        }
    }
}

impl TypeLiteralVariant {
    /// The written type, type arguments included.
    pub fn to_string(&self) -> (s: String)
        ensures
            s@ == tlv_display(*self),
        decreases self,
    {
        match self {
            TypeLiteralVariant::Composite(base, args) => {
                let mut s = base.to_string();
                proof {
                    reveal_strlit("<");
                    reveal_strlit(">");
                }
                s.append("<");
                let args_str = args.to_string();
                s.append(args_str.as_str());
                s.append(">");
                proof {
                    assert(s@ =~= tlv_display(*self));
                }
                s
            },
            TypeLiteralVariant::Type(base) => base.to_string(),
        }
    }
}

impl TypeLiterals {
    /// The comma-separated list of written types.
    pub fn to_string(&self) -> (s: String)
        ensures
            s@ == tls_display(*self),
        decreases self,
    {
        match self {
            TypeLiterals::Literals(rest, last) => {
                let mut s = rest.to_string();
                proof {
                    reveal_strlit(", ");
                }
                s.append(", ");
                let last_str = last.to_string();
                s.append(last_str.as_str());
                proof {
                    assert(s@ =~= tls_display(*self));
                }
                s
            },
            TypeLiterals::Literal(single) => single.to_string(),
        }
    }
}

// ---------------------------------------------------------------------------
// Display of resolved types
// ---------------------------------------------------------------------------

pub open spec fn nt_display(t: NalaType) -> Seq<char>
    decreases t,
{
    match t {
        NalaType::Enum(ident, _variants, _param) => ident@,
        NalaType::Struct(fields, _param) => "{ "@ + sfs_display(fields) + "}"@,
        NalaType::Generic(ident) => ident@,
        NalaType::PrimitiveType(p) => prim_display(p),
    }
}

pub open spec fn sfs_display(fields: StructFields) -> Seq<char>
    decreases fields,
{
    match fields {
        StructFields::Fields(rest, last) => sfs_display(*rest) + last.ident@ + ": "@ + ty_display(
            *last.value_type,
        ) + ", "@,
        StructFields::Field(single) => single.ident@ + ": "@ + ty_display(*single.value_type)
            + ", "@,
    }
}

pub open spec fn ty_display(t: TypeVariant) -> Seq<char>
    decreases t,
{
    match t {
        TypeVariant::Composite(base, args) => nt_display(base) + "<"@ + tys_display(*args) + ">"@,
        TypeVariant::Type(base) => nt_display(base),
    }
}

pub open spec fn tys_display(ts: Types) -> Seq<char>
    decreases ts,
{
    match ts {
        Types::Types(rest, last) => tys_display(*rest) + ", "@ + ty_display(last),
        Types::Type(single) => ty_display(single),
    }
}

impl NalaType {
    /// The constructor's name: an enum by its identifier, a struct by its
    /// fields, a primitive or type variable by its name.
    pub fn to_string(&self) -> (s: String)
        ensures
            s@ == nt_display(*self),
        decreases self,
    {
        match self {
            NalaType::Enum(ident, _variants, _param) => ident.clone(),
            NalaType::Struct(fields, _param) => {
                let mut s = "{ ".to_owned();
                let inner = fields.to_string();
                s.append(inner.as_str());
                s.append("}");
                proof {
                    assert(s@ =~= nt_display(*self));
                }
                s
            },
            NalaType::Generic(ident) => ident.clone(),
            NalaType::PrimitiveType(p) => p.to_string(),
        }
    }
}

impl StructFields {
    /// Each field rendered as `name: type, `.
    pub fn to_string(&self) -> (s: String)
        ensures
            s@ == sfs_display(*self),
        decreases self,
    {
        proof {
            reveal_strlit(": ");
            reveal_strlit(", ");
        }
        match self {
            StructFields::Fields(rest, last) => {
                let mut s = rest.to_string();
                s.append(last.ident.as_str());
                s.append(": ");
                let t = last.value_type.to_string();
                s.append(t.as_str());
                s.append(", ");
                proof {
                    assert(s@ =~= sfs_display(*self));
                }
                s
            },
            StructFields::Field(single) => {
                let mut s = single.ident.clone();
                s.append(": ");
                let t = single.value_type.to_string();
                s.append(t.as_str());
                s.append(", ");
                proof {
                    assert(s@ =~= sfs_display(*self));
                }
                s
            },
        }
    }
}

impl TypeVariant {
    /// The resolved type, type arguments included.
    pub fn to_string(&self) -> (s: String)
        ensures
            s@ == ty_display(*self),
        decreases self,
    {
        match self {
            TypeVariant::Composite(base, args) => {
                let mut s = base.to_string();
                proof {
                    reveal_strlit("<");
                    reveal_strlit(">");
                }
                s.append("<");
                let inner = args.to_string();
                s.append(inner.as_str());
                s.append(">");
                proof {
                    assert(s@ =~= ty_display(*self));
                }
                s
            },
            TypeVariant::Type(base) => base.to_string(),
        }
    }
}

impl Types {
    /// The comma-separated list of resolved types.
    pub fn to_string(&self) -> (s: String)
        ensures
            s@ == tys_display(*self),
        decreases self,
    {
        match self {
            Types::Types(rest, last) => {
                let mut s = rest.to_string();
                proof {
                    reveal_strlit(", ");
                }
                s.append(", ");
                let inner = last.to_string();
                s.append(inner.as_str());
                proof {
                    assert(s@ =~= tys_display(*self));
                }
                s
            },
            Types::Type(single) => single.to_string(),
        }
    }
}

// ---------------------------------------------------------------------------
// Display of values
// ---------------------------------------------------------------------------

/// The display form of a closure: its parameter types followed by its
/// return type.
pub open spec fn func_display(f: FuncValue) -> Seq<char> {
    "Func<"@ + params_types_display(*f.params) + tlv_display(f.return_type) + ">"@
}

/// Each parameter's written type followed by a comma separator.
pub open spec fn params_types_display(params: Params) -> Seq<char>
    decreases params,
{
    match params {
        Params::Params(rest, last) => params_types_display(*rest) + tlv_display(last.param_type)
            + ", "@,
        Params::Param(single) => tlv_display(single.param_type) + ", "@,
        Params::Empty => Seq::<char>::empty(),
    }
}

/// The nesting height of a value itself, not following container ids.
pub open spec fn val_height(v: Value) -> nat
    decreases v,
{
    match v {
        Value::Break(inner) => 1 + val_height(*inner),
        Value::Variant(ev) => match ev.data {
            Some(data) => 1 + val_height(*data),
            None => 1,
        },
        _ => 1,
    }
}

/// The combined height of the values of an entry list.
pub open spec fn entries_heights(entries: Seq<(String, Value)>) -> nat
    decreases entries.len(),
{
    if entries.len() == 0 {
        0
    } else {
        1 + val_height(entries[0].1) + entries_heights(entries.drop_first())
    }
}

/// The display form of a value.  Shared containers are read through the
/// environment; the recursion into object members is bounded by `fuel`, and
/// an object too deep to render is cut short with an ellipsis.
pub open spec fn value_display(sc: Scopes, v: Value, fuel: nat) -> Seq<char>
    decreases fuel, val_height(v),
{
    match v {
        Value::Num(n) => num_display(n as int),
        Value::Bool(b) => bool_display(b),
        Value::String(s) => s@,
        Value::Void => "Void"@,
        Value::Break(_inner) => "<Break>"@,
        Value::Func(f) => func_display(f),
        Value::Array(id) => {
            if id < sc.arrays@.len() {
                "<Array["@ + dec_digits(sc.arrays@[id as int]@.len()) + "]>"@
            } else {
                "<Array[?]>"@
            }
        },
        Value::Variant(ev) => {
            match ev.data {
                Some(data) => ev.enum_ident@ + "::"@ + ev.variant_ident@ + "("@ + value_display(
                    sc,
                    *data,
                    fuel,
                ) + ")"@,
                None => ev.enum_ident@ + "::"@ + ev.variant_ident@,
            }
        },
        Value::Object(id) => {
            if id < sc.objects@.len() && fuel > 0 {
                "{ "@ + object_entries_display(sc, sc.objects@[id as int]@, (fuel - 1) as nat)
                    + "}"@
            } else {
                "{ ... }"@
            }
        },
    }
}

/// Each object member rendered as `name: value, `.
pub open spec fn object_entries_display(
    sc: Scopes,
    entries: Seq<(String, Value)>,
    fuel: nat,
) -> Seq<char>
    decreases fuel, entries_heights(entries),
{
    if entries.len() == 0 {
        Seq::<char>::empty()
    } else {
        entries[0].0@ + ": "@ + value_display(sc, entries[0].1, fuel) + ", "@
            + object_entries_display(sc, entries.drop_first(), fuel)
    }
}

// ---------------------------------------------------------------------------
// Executable rendering
// ---------------------------------------------------------------------------

/// The depth to which nested objects are rendered.
pub const DISPLAY_FUEL: u64 = 32;

impl Params {
    /// Renders each parameter's type followed by a comma separator.
    pub fn types_to_string(&self) -> (s: String)
        ensures
            s@ == params_types_display(*self),
        decreases self,
    {
        proof {
            reveal_strlit(", ");
        }
        match self {
            Params::Params(rest, last) => {
                let mut s = rest.types_to_string();
                let t = last.param_type.to_string();
                s.append(t.as_str());
                s.append(", ");
                proof {
                    assert(s@ =~= params_types_display(*self));
                }
                s
            },
            Params::Param(single) => {
                let mut s = single.param_type.to_string();
                s.append(", ");
                proof {
                    assert(s@ =~= params_types_display(*self));
                }
                s
            },
            Params::Empty => String::new(),
        }
    }
}

fn usize_to_string(n: usize) -> (s: String)
    ensures
        s@ == dec_digits(n as nat),
    decreases n,
{
    if n < 10 {
        digit_str((n % 10) as u64).to_owned()
    } else {
        let mut s = usize_to_string(n / 10);
        s.append(digit_str((n % 10) as u64));
        proof {
            assert(s@ =~= dec_digits((n / 10) as nat).push(digit_char((n % 10) as nat)));
        }
        s
    }
}

fn value_to_string_fueled(sc: &Scopes, v: &Value, fuel: u64) -> (s: String)
    ensures
        s@ == value_display(*sc, *v, fuel as nat),
    decreases fuel as nat, val_height(*v),
{
    match v {
        Value::Num(n) => num_to_string(*n),
        Value::Bool(b) => bool_to_string(*b),
        Value::String(inner) => inner.clone(),
        Value::Void => "Void".to_owned(),
        Value::Break(_inner) => "<Break>".to_owned(),
        Value::Func(f) => {
            let mut s = "Func<".to_owned();
            let params = f.params.types_to_string();
            s.append(params.as_str());
            let ret = f.return_type.to_string();
            s.append(ret.as_str());
            s.append(">");
            proof {
                assert(s@ =~= func_display(*f));
            }
            s
        },
        Value::Array(id) => {
            if *id < sc.arrays.len() {
                let mut s = "<Array[".to_owned();
                let len = usize_to_string(sc.arrays[*id].len());
                s.append(len.as_str());
                s.append("]>");
                proof {
                    assert(s@ =~= value_display(*sc, *v, fuel as nat));
                }
                s
            } else {
                "<Array[?]>".to_owned()
            }
        },
        Value::Variant(ev) => {
            let mut s = ev.enum_ident.clone();
            s.append("::");
            s.append(ev.variant_ident.as_str());
            match &ev.data {
                Some(data) => {
                    s.append("(");
                    let inner = value_to_string_fueled(sc, data, fuel);
                    s.append(inner.as_str());
                    s.append(")");
                    proof {
                        assert(s@ =~= value_display(*sc, *v, fuel as nat));
                    }
                    s
                },
                None => {
                    proof {
                        assert(s@ =~= value_display(*sc, *v, fuel as nat));
                    }
                    s
                },
            }
        },
        Value::Object(id) => {
            if *id < sc.objects.len() && fuel > 0 {
                let mut s = "{ ".to_owned();
                let entries = object_entries_to_string(sc, *id, 0, fuel - 1);
                s.append(entries.as_str());
                s.append("}");
                proof {
                    assert(sc.objects@[*id as int]@.skip(0) =~= sc.objects@[*id as int]@);
                    assert(s@ =~= value_display(*sc, *v, fuel as nat));
                }
                s
            } else {
                "{ ... }".to_owned()
            }
        },
    }
}

fn object_entries_to_string(sc: &Scopes, id: usize, idx: usize, fuel: u64) -> (s: String)
    requires
        id < sc.objects@.len(),
        idx <= sc.objects@[id as int]@.len(),
    ensures
        s@ == object_entries_display(*sc, sc.objects@[id as int]@.skip(idx as int), fuel as nat),
    decreases fuel as nat, entries_heights(sc.objects@[id as int]@.skip(idx as int)), 0nat,
{
    let ghost entries = sc.objects@[id as int]@.skip(idx as int);
    let fields = &sc.objects[id];
    if idx < fields.len() {
        proof {
            assert(entries[0] == sc.objects@[id as int]@[idx as int]);
            assert(entries.drop_first() =~= sc.objects@[id as int]@.skip(idx as int + 1));
        }
        let mut s = fields[idx].0.clone();
        s.append(": ");
        let inner = value_to_string_fueled(sc, &fields[idx].1, fuel);
        s.append(inner.as_str());
        s.append(", ");
        let rest = object_entries_to_string(sc, id, idx + 1, fuel);
        s.append(rest.as_str());
        proof {
            assert(s@ =~= object_entries_display(*sc, entries, fuel as nat));
        }
        s
    } else {
        proof {
            assert(entries.len() == 0);
        }
        String::new()
    }
}

/// Renders a value canonically, reading shared containers through the
/// environment.
pub fn to_display_string(sc: &Scopes, v: &Value) -> (s: String)
    ensures
        s@ == value_display(*sc, *v, DISPLAY_FUEL as nat),
{
    value_to_string_fueled(sc, v, DISPLAY_FUEL)
}

} // verus!
