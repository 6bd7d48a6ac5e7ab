use vstd::prelude::*;
use vstd::pervasive::VecAdditionalExecFns;

use crate::errors::RuntimeError;
use crate::errors::RuntimeErrorKind;
use crate::types::clone_opt_string;
use crate::types::EnumVariants;
use crate::types::PrimitiveType;
use crate::types::StructFields;
use crate::types::NalaType;
use crate::types::TypeVariant;
use crate::values::Value;
use crate::inference::spec_infer_type;
use crate::inference::infer_type;
use crate::inference::INFER_FUEL;
use crate::types::spec_assignable;

verus! {

// ---------------------------------------------------------------------------
// Bindings
// ---------------------------------------------------------------------------

/// A value binding: the stored value, the type the binding was declared
/// with, and whether later assignment is allowed.
#[derive(Debug)]
pub struct Binding {
    pub value: Value,
    pub declared: TypeVariant,
    pub is_mutable: bool,
}

impl Clone for Binding {
    fn clone(&self) -> (r: Self)
        ensures
            r == *self,
    {
        Binding {
            value: self.value.clone(),
            declared: self.declared.clone(),
            is_mutable: self.is_mutable,
        }
    }
}

/// A type bound in the type namespace of a scope.
#[derive(Debug)]
pub enum TypeBinding {
    Enum(EnumVariants, Option<String>),
    Struct(StructFields, Option<String>),
    Generic(String),
    PrimitiveType(PrimitiveType),
}

impl Clone for TypeBinding {
    fn clone(&self) -> (r: Self)
        ensures
            r == *self,
    {
        match self {
            TypeBinding::Enum(variants, type_param) => TypeBinding::Enum(
                variants.clone(),
                clone_opt_string(type_param),
            ),
            TypeBinding::Struct(fields, type_param) => TypeBinding::Struct(
                fields.clone(),
                clone_opt_string(type_param),
            ),
            TypeBinding::Generic(ident) => TypeBinding::Generic(ident.clone()),
            TypeBinding::PrimitiveType(p) => TypeBinding::PrimitiveType(*p),
        }
    }
}

impl TypeBinding {
    /// Re-binds a resolved type into the scope-resident form, attaching the
    /// declaration's type parameter.
    pub fn from_type(type_variant: TypeVariant, generic_type_param: Option<String>) -> (r: Self)
        ensures
            match type_variant {
                TypeVariant::Type(NalaType::Enum(_ident, variants, _p)) => r == TypeBinding::Enum(
                    variants,
                    generic_type_param,
                ),
                TypeVariant::Type(NalaType::Struct(fields, _p)) => r == TypeBinding::Struct(
                    fields,
                    generic_type_param,
                ),
                TypeVariant::Type(NalaType::Generic(ident)) => r == TypeBinding::Generic(ident),
                TypeVariant::Type(NalaType::PrimitiveType(p)) => r == TypeBinding::PrimitiveType(p),
                TypeVariant::Composite(base, _args) => r == TypeBinding::from_composite_base(
                    base,
                    generic_type_param,
                ),
            },
    {
        let base = match type_variant {
            TypeVariant::Type(t) => t,
            TypeVariant::Composite(t, _args) => t,
        };
        match base {
            NalaType::Enum(_ident, variants, _p) => TypeBinding::Enum(variants, generic_type_param),
            NalaType::Struct(fields, _p) => TypeBinding::Struct(fields, generic_type_param),
            NalaType::Generic(ident) => TypeBinding::Generic(ident),
            NalaType::PrimitiveType(p) => TypeBinding::PrimitiveType(p),
        }
    }

    /// The scope-resident form of a composite type's base constructor.
    pub open spec fn from_composite_base(base: NalaType, param: Option<String>) -> TypeBinding {
        match base {
            NalaType::Enum(_ident, variants, _p) => TypeBinding::Enum(variants, param),
            NalaType::Struct(fields, _p) => TypeBinding::Struct(fields, param),
            NalaType::Generic(ident) => TypeBinding::Generic(ident),
            NalaType::PrimitiveType(p) => TypeBinding::PrimitiveType(p),
        }
    }

    /// The variants and type parameter of an enum binding; an error on any
    /// other binding.
    pub fn as_enum(&self) -> (r: Result<(EnumVariants, Option<String>), RuntimeError>)
        ensures
            match *self {
                TypeBinding::Enum(variants, type_param) => r == Ok::<_, RuntimeError>(
                    (variants, type_param),
                ),
                _ => r matches Err(e) && e.kind == RuntimeErrorKind::NotAnEnum,
            },
    {
        match self {
            TypeBinding::Enum(variants, type_param) => Ok(
                (variants.clone(), clone_opt_string(type_param)),
            ),
            _ => Err(RuntimeError::new(RuntimeErrorKind::NotAnEnum, "Expected an enum type.")),
        }
    }

    /// The fields and type parameter of a struct binding; an error on any
    /// other binding.
    pub fn as_struct(&self) -> (r: Result<(StructFields, Option<String>), RuntimeError>)
        ensures
            match *self {
                TypeBinding::Struct(fields, type_param) => r == Ok::<_, RuntimeError>(
                    (fields, type_param),
                ),
                _ => r matches Err(e) && e.kind == RuntimeErrorKind::TypeMismatch,
            },
    {
        match self {
            TypeBinding::Struct(fields, type_param) => Ok(
                (fields.clone(), clone_opt_string(type_param)),
            ),
            _ => Err(RuntimeError::new(RuntimeErrorKind::TypeMismatch, "Expected a struct type.")),
        }
    }

    /// The type parameter the binding was declared with, if any.
    pub fn get_type_param(&self) -> (r: Option<String>)
        ensures
            match *self {
                TypeBinding::Enum(_variants, type_param) => r == type_param,
                TypeBinding::Struct(_fields, type_param) => r == type_param,
                _ => r is None,
            },
    {
        match self {
            TypeBinding::Enum(_variants, type_param) => clone_opt_string(type_param),
            TypeBinding::Struct(_fields, type_param) => clone_opt_string(type_param),
            TypeBinding::Generic(_ident) => None,
            TypeBinding::PrimitiveType(_p) => None,
        }
    }
}

// ---------------------------------------------------------------------------
// Scopes
// ---------------------------------------------------------------------------

/// One scope: a parent link and the two disjoint namespaces.
#[derive(Debug)]
pub struct Scope {
    pub parent: Option<usize>,
    pub values: Vec<(String, Binding)>,
    pub types: Vec<(String, TypeBinding)>,
}

/// The environment: a forest of scopes addressed by id, and the shared
/// mutable containers that array and object values refer to.  Containers
/// live here so that every copy of an `Array` or `Object` value observes
/// the same contents.
#[derive(Debug)]
pub struct Scopes {
    pub scopes: Vec<Scope>,
    pub arrays: Vec<Vec<Value>>,
    pub objects: Vec<Vec<(String, Value)>>,
}

/// First entry under the given name, walking the list front to back.
pub open spec fn find_entry<T>(entries: Seq<(String, T)>, name: Seq<char>) -> Option<T>
    decreases entries.len(),
{
    if entries.len() == 0 {
        None
    } else if entries[0].0@ == name {
        Some(entries[0].1)
    } else {
        find_entry(entries.drop_first(), name)
    }
}

/// Every scope's parent was allocated before it, so parent chains descend.
pub open spec fn scope_parent_ok(s: Scope, i: int) -> bool {
    match s.parent {
        Some(p) => p < i,
        None => true,
    }
}

pub open spec fn scopes_wf(s: Seq<Scope>) -> bool {
    forall|i: int| 0 <= i < s.len() ==> scope_parent_ok(#[trigger] s[i], i)
}

/// The id of the scope on the parent chain of `id` where `name` is bound in
/// the value namespace, or -1 when no scope on the chain binds it.
pub open spec fn defining_scope(s: Seq<Scope>, id: int, name: Seq<char>) -> int
    decreases id,
{
    if 0 <= id < s.len() {
        if find_entry(s[id].values@, name) is Some {
            id
        } else {
            match s[id].parent {
                Some(p) => if p < id {
                    defining_scope(s, p as int, name)
                } else {
                    -1
                },
                None => -1,
            }
        }
    } else {
        -1
    }
}

/// The binding that a lookup from scope `id` observes.
pub open spec fn lookup_binding(s: Seq<Scope>, id: int, name: Seq<char>) -> Option<Binding> {
    let d = defining_scope(s, id, name);
    if d == -1 {
        None
    } else {
        find_entry(s[d].values@, name)
    }
}

/// The id of the scope on the parent chain where `name` is bound in the
/// type namespace, or -1.
pub open spec fn defining_type_scope(s: Seq<Scope>, id: int, name: Seq<char>) -> int
    decreases id,
{
    if 0 <= id < s.len() {
        if find_entry(s[id].types@, name) is Some {
            id
        } else {
            match s[id].parent {
                Some(p) => if p < id {
                    defining_type_scope(s, p as int, name)
                } else {
                    -1
                },
                None => -1,
            }
        }
    } else {
        -1
    }
}

pub open spec fn lookup_type_binding(s: Seq<Scope>, id: int, name: Seq<char>) -> Option<
    TypeBinding,
> {
    let d = defining_type_scope(s, id, name);
    if d == -1 {
        None
    } else {
        find_entry(s[d].types@, name)
    }
}

/// Finds the index of the first entry under `name`, scanning front to back.
fn find_entry_index<T>(entries: &Vec<(String, T)>, name: &str) -> (r: Option<usize>)
    ensures
        match r {
            Some(i) => i < entries@.len() && entries@[i as int].0@ == name@ && find_entry(
                entries@,
                name@,
            ) == Some(entries@[i as int].1) && (forall|j: int|
                0 <= j < i ==> (#[trigger] entries@[j]).0@ != name@),
            None => find_entry(entries@, name@) is None,
        },
{
    let owned_name = name.to_owned();
    let mut i: usize = 0;
    proof {
        assert(entries@.skip(0) =~= entries@);
    }
    while i < entries.len()
        invariant
            i <= entries@.len(),
            owned_name@ == name@,
            find_entry(entries@.skip(i as int), name@) == find_entry(entries@, name@),
            forall|j: int| 0 <= j < i ==> (#[trigger] entries@[j]).0@ != name@,
        decreases entries@.len() - i,
    {
        proof {
            assert(entries@.skip(i as int)[0] == entries@[i as int]);
            assert(entries@.skip(i as int).drop_first() =~= entries@.skip(i as int + 1));
        }
        if entries[i].0 == owned_name {
            return Some(i);
        }
        i = i + 1;
    }
    proof {
        assert(entries@.skip(i as int).len() == 0);
    }
    None
}

impl Scopes {
    /// A fresh environment with no scopes and no containers.
    pub fn new() -> (r: Scopes)
        ensures
            r.scopes@.len() == 0,
            r.arrays@.len() == 0,
            r.objects@.len() == 0,
    {
        Scopes { scopes: Vec::new(), arrays: Vec::new(), objects: Vec::new() }
    }

    pub open spec fn wf(self) -> bool {
        scopes_wf(self.scopes@)
    }

    /// Allocates a fresh scope under the given parent and returns its id.
    pub fn new_scope(&mut self, parent: Option<usize>) -> (r: usize)
        requires
            old(self).wf(),
            parent matches Some(p) ==> p < old(self).scopes@.len(),
        ensures
            final(self).wf(),
            r == old(self).scopes@.len(),
            final(self).scopes@.len() == old(self).scopes@.len() + 1,
            final(self).scopes@[r as int].parent == parent,
            final(self).scopes@[r as int].values@.len() == 0,
            final(self).scopes@[r as int].types@.len() == 0,
            final(self).scopes@.subrange(0, r as int) == old(self).scopes@,
            final(self).arrays == old(self).arrays,
            final(self).objects == old(self).objects,
    {
        let id = self.scopes.len();
        self.scopes.push(Scope { parent, values: Vec::new(), types: Vec::new() });
        proof {
            assert(self.scopes@.subrange(0, id as int) =~= old(self).scopes@);
            assert forall|i: int| 0 <= i < self.scopes@.len() implies scope_parent_ok(
                #[trigger] self.scopes@[i],
                i,
            ) by {
                if i < id {
                    assert(self.scopes@[i] == old(self).scopes@[i]);
                }
            }
        }
        id
    }

    /// Whether `ident` is bound in the value namespace of scope
    /// `current_scope` itself, ignoring the parent chain.
    pub fn binding_exists_local(&self, ident: &str, current_scope: usize) -> (r: bool)
        requires
            current_scope < self.scopes@.len(),
        ensures
            r == (find_entry(self.scopes@[current_scope as int].values@, ident@) is Some),
    {
        let scope = &self.scopes[current_scope];
        find_entry_index(&scope.values, ident).is_some()
    }

    /// Whether `ident` is bound in the value namespace of any scope on the
    /// parent chain of `current_scope`.
    pub fn binding_exists(&self, ident: &str, current_scope: usize) -> (r: bool)
        requires
            self.wf(),
            current_scope < self.scopes@.len(),
        ensures
            r == (defining_scope(self.scopes@, current_scope as int, ident@) != -1),
        decreases current_scope,
    {
        let scope = &self.scopes[current_scope];
        if find_entry_index(&scope.values, ident).is_some() {
            true
        } else {
            proof {
                assert(scope_parent_ok(self.scopes@[current_scope as int], current_scope as int));
            }
            match scope.parent {
                Some(p) => self.binding_exists(ident, p),
                None => false,
            }
        }
    }

    /// Adds a binding to the value namespace of the given scope.  The scope
    /// must not already bind the identifier locally; shadowing an outer
    /// binding is allowed.
    pub fn add_binding(
        &mut self,
        ident: &str,
        current_scope: usize,
        declared: TypeVariant,
        value: Value,
        is_mutable: bool,
    ) -> (r: Result<Value, RuntimeError>)
        requires
            old(self).wf(),
            current_scope < old(self).scopes@.len(),
        ensures
            final(self).wf(),
            final(self).scopes@.len() == old(self).scopes@.len(),
            final(self).arrays == old(self).arrays,
            final(self).objects == old(self).objects,
            forall|j: int|
                0 <= j < final(self).scopes@.len() && j != current_scope ==> final(self).scopes@[j] == old(self).scopes@[j],
            final(self).scopes@[current_scope as int].parent == old(self).scopes@[current_scope as int].parent,
            final(self).scopes@[current_scope as int].types == old(self).scopes@[current_scope as int].types,
            match r {
                Ok(v) => {
                    &&& find_entry(old(self).scopes@[current_scope as int].values@, ident@) is None
                    &&& v == Value::Void
                    &&& final(self).scopes@[current_scope as int].values@.len() == old(self).scopes@[current_scope as int].values@.len() + 1
                    &&& final(self).scopes@[current_scope as int].values@.drop_last() == old(self).scopes@[current_scope as int].values@
                    &&& final(self).scopes@[current_scope as int].values@.last().0@ == ident@
                    &&& final(self).scopes@[current_scope as int].values@.last().1 == (Binding {
                        value,
                        declared,
                        is_mutable,
                    })
                },
                Err(e) => {
                    &&& find_entry(old(self).scopes@[current_scope as int].values@, ident@) is Some
                    &&& e.kind == RuntimeErrorKind::AlreadyBound
                    &&& final(self).scopes@ == old(self).scopes@
                },
            },
    {
        let mut scope = Scope { parent: None, values: Vec::new(), types: Vec::new() };
        self.scopes.set_and_swap(current_scope, &mut scope);
        let already = find_entry_index(&scope.values, ident).is_some();
        let r = if already {
            Err(
                RuntimeError::new(
                    RuntimeErrorKind::AlreadyBound,
                    "Binding already exists in local scope.",
                ),
            )
        } else {
            scope.values.push((ident.to_owned(), Binding { value, declared, is_mutable }));
            Ok(Value::Void)
        };
        self.scopes.set_and_swap(current_scope, &mut scope);
        proof {
            assert(self.scopes@ =~= old(self).scopes@.update(
                current_scope as int,
                self.scopes@[current_scope as int],
            ));
            if r is Err {
                assert(self.scopes@ =~= old(self).scopes@);
            }
        }
        r
    }

    /// Adds a binding to the type namespace of the given scope.
    pub fn add_type_binding(
        &mut self,
        ident: &str,
        current_scope: usize,
        binding: TypeBinding,
    ) -> (r: Result<Value, RuntimeError>)
        requires
            old(self).wf(),
            current_scope < old(self).scopes@.len(),
        ensures
            final(self).wf(),
            final(self).scopes@.len() == old(self).scopes@.len(),
            final(self).arrays == old(self).arrays,
            final(self).objects == old(self).objects,
            forall|j: int|
                0 <= j < final(self).scopes@.len() && j != current_scope ==> final(self).scopes@[j] == old(self).scopes@[j],
            final(self).scopes@[current_scope as int].parent == old(self).scopes@[current_scope as int].parent,
            final(self).scopes@[current_scope as int].values == old(self).scopes@[current_scope as int].values,
            match r {
                Ok(v) => {
                    &&& find_entry(old(self).scopes@[current_scope as int].types@, ident@) is None
                    &&& v == Value::Void
                    &&& final(self).scopes@[current_scope as int].types@.len() == old(self).scopes@[current_scope as int].types@.len() + 1
                    &&& final(self).scopes@[current_scope as int].types@.drop_last() == old(self).scopes@[current_scope as int].types@
                    &&& final(self).scopes@[current_scope as int].types@.last().0@ == ident@
                    &&& final(self).scopes@[current_scope as int].types@.last().1 == binding
                },
                Err(e) => {
                    &&& find_entry(old(self).scopes@[current_scope as int].types@, ident@) is Some
                    &&& e.kind == RuntimeErrorKind::AlreadyBound
                    &&& final(self).scopes@ == old(self).scopes@
                },
            },
    {
        let mut scope = Scope { parent: None, values: Vec::new(), types: Vec::new() };
        self.scopes.set_and_swap(current_scope, &mut scope);
        let already = find_entry_index(&scope.types, ident).is_some();
        let r = if already {
            Err(
                RuntimeError::new(
                    RuntimeErrorKind::AlreadyBound,
                    "Type binding already exists in local scope.",
                ),
            )
        } else {
            scope.types.push((ident.to_owned(), binding));
            Ok(Value::Void)
        };
        self.scopes.set_and_swap(current_scope, &mut scope);
        proof {
            assert(self.scopes@ =~= old(self).scopes@.update(
                current_scope as int,
                self.scopes@[current_scope as int],
            ));
            if r is Err {
                assert(self.scopes@ =~= old(self).scopes@);
            }
        }
        r
    }

    /// Resolves `ident` in the value namespace, walking the parent chain.
    pub fn get_value(&self, ident: &str, current_scope: usize) -> (r: Result<Value, RuntimeError>)
        requires
            self.wf(),
            current_scope < self.scopes@.len(),
        ensures
            match lookup_binding(self.scopes@, current_scope as int, ident@) {
                Some(b) => r matches Ok(v) && v == b.value,
                None => r matches Err(e) && e.kind == RuntimeErrorKind::UnknownIdent,
            },
        decreases current_scope,
    {
        let scope = &self.scopes[current_scope];
        match find_entry_index(&scope.values, ident) {
            Some(i) => Ok(scope.values[i].1.value.clone()),
            None => {
                proof {
                    assert(scope_parent_ok(
                        self.scopes@[current_scope as int],
                        current_scope as int,
                    ));
                }
                match scope.parent {
                    Some(p) => self.get_value(ident, p),
                    None => Err(
                        RuntimeError::new(RuntimeErrorKind::UnknownIdent, "Unknown identifier."),
                    ),
                }
            },
        }
    }

    /// Resolves `ident` in the type namespace, walking the parent chain.
    pub fn get_type(&self, ident: &str, current_scope: usize) -> (r: Result<
        TypeBinding,
        RuntimeError,
    >)
        requires
            self.wf(),
            current_scope < self.scopes@.len(),
        ensures
            match lookup_type_binding(self.scopes@, current_scope as int, ident@) {
                Some(b) => r == Ok::<_, RuntimeError>(b),
                None => r matches Err(e) && e.kind == RuntimeErrorKind::UnknownIdent,
            },
        decreases current_scope,
    {
        let scope = &self.scopes[current_scope];
        match find_entry_index(&scope.types, ident) {
            Some(i) => Ok(scope.types[i].1.clone()),
            None => {
                proof {
                    assert(scope_parent_ok(
                        self.scopes@[current_scope as int],
                        current_scope as int,
                    ));
                }
                match scope.parent {
                    Some(p) => self.get_type(ident, p),
                    None => Err(
                        RuntimeError::new(RuntimeErrorKind::UnknownIdent, "Unknown type."),
                    ),
                }
            },
        }
    }
}

// ---------------------------------------------------------------------------
// Shared containers
// ---------------------------------------------------------------------------

impl Scopes {
    /// Installs a fresh shared array and returns its id.
    pub fn new_array(&mut self, items: Vec<Value>) -> (r: usize)
        ensures
            final(self).wf() == old(self).wf(),
            r == old(self).arrays@.len(),
            final(self).arrays@ == old(self).arrays@.push(items),
            final(self).scopes == old(self).scopes,
            final(self).objects == old(self).objects,
    {
        let id = self.arrays.len();
        self.arrays.push(items);
        id
    }

    /// Installs a fresh shared object and returns its id.
    pub fn new_object(&mut self, entries: Vec<(String, Value)>) -> (r: usize)
        ensures
            final(self).wf() == old(self).wf(),
            r == old(self).objects@.len(),
            final(self).objects@ == old(self).objects@.push(entries),
            final(self).scopes == old(self).scopes,
            final(self).arrays == old(self).arrays,
    {
        let id = self.objects.len();
        self.objects.push(entries);
        id
    }

    /// The number of elements the array with the given id holds.
    pub fn array_len(&self, id: usize) -> (r: Result<usize, RuntimeError>)
        ensures
            match r {
                Ok(n) => id < self.arrays@.len() && n == self.arrays@[id as int]@.len(),
                Err(e) => id >= self.arrays@.len() && e.kind == RuntimeErrorKind::NotIndexable,
            },
    {
        if id < self.arrays.len() {
            Ok(self.arrays[id].len())
        } else {
            Err(RuntimeError::new(RuntimeErrorKind::NotIndexable, "Unknown array reference."))
        }
    }

    /// Reads one element of a shared array.
    pub fn array_get(&self, id: usize, index: usize) -> (r: Result<Value, RuntimeError>)
        ensures
            match r {
                Ok(v) => id < self.arrays@.len() && index < self.arrays@[id as int]@.len() && v
                    == self.arrays@[id as int]@[index as int],
                Err(e) => {
                    ||| id >= self.arrays@.len() && e.kind == RuntimeErrorKind::NotIndexable
                    ||| id < self.arrays@.len() && index >= self.arrays@[id as int]@.len()
                        && e.kind == RuntimeErrorKind::IndexOutOfRange
                },
            },
    {
        if id < self.arrays.len() {
            let arr = &self.arrays[id];
            if index < arr.len() {
                Ok(arr[index].clone())
            } else {
                Err(RuntimeError::new(RuntimeErrorKind::IndexOutOfRange, "Index out of range."))
            }
        } else {
            Err(RuntimeError::new(RuntimeErrorKind::NotIndexable, "Unknown array reference."))
        }
    }

    /// Stores one element of a shared array.  Every value holding the same
    /// array id observes the update.
    pub fn array_set(&mut self, id: usize, index: usize, value: Value) -> (r: Result<
        Value,
        RuntimeError,
    >)
        ensures
            final(self).wf() == old(self).wf(),
            final(self).scopes == old(self).scopes,
            final(self).objects == old(self).objects,
            final(self).arrays@.len() == old(self).arrays@.len(),
            match r {
                Ok(v) => {
                    &&& id < old(self).arrays@.len()
                    &&& index < old(self).arrays@[id as int]@.len()
                    &&& v == Value::Void
                    &&& final(self).arrays@[id as int]@ == old(self).arrays@[id as int]@.update(
                        index as int,
                        value,
                    )
                    &&& forall|j: int|
                        0 <= j < old(self).arrays@.len() && j != id ==> final(self).arrays@[j]
                            == old(self).arrays@[j]
                },
                Err(e) => {
                    &&& final(self).arrays@ == old(self).arrays@
                    &&& {
                        ||| id >= old(self).arrays@.len() && e.kind
                            == RuntimeErrorKind::NotIndexable
                        ||| id < old(self).arrays@.len() && index >= old(self).arrays@[id as int]@.len() && e.kind == RuntimeErrorKind::IndexOutOfRange
                    }
                },
            },
    {
        if id < self.arrays.len() {
            let mut arr: Vec<Value> = Vec::new();
            self.arrays.set_and_swap(id, &mut arr);
            let was_in_range = index < arr.len();
            let r = if was_in_range {
                arr.set(index, value);
                Ok(Value::Void)
            } else {
                Err(RuntimeError::new(RuntimeErrorKind::IndexOutOfRange, "Index out of range."))
            };
            self.arrays.set_and_swap(id, &mut arr);
            proof {
                if was_in_range {
                    assert(self.arrays@[id as int]@ =~= old(self).arrays@[id as int]@.update(
                        index as int,
                        value,
                    ));
                    assert(forall|j: int|
                        0 <= j < old(self).arrays@.len() && j != id ==> self.arrays@[j] == old(self).arrays@[j]);
                } else {
                    assert(self.arrays@ =~= old(self).arrays@);
                }
            }
            r
        } else {
            Err(RuntimeError::new(RuntimeErrorKind::NotIndexable, "Unknown array reference."))
        }
    }

    /// Reads one member of a shared object.
    pub fn object_get(&self, id: usize, member: &str) -> (r: Result<Value, RuntimeError>)
        ensures
            match r {
                Ok(v) => id < self.objects@.len() && find_entry(
                    self.objects@[id as int]@,
                    member@,
                ) == Some(v),
                Err(e) => {
                    ||| id >= self.objects@.len() && e.kind == RuntimeErrorKind::NotIndexable
                    ||| id < self.objects@.len() && find_entry(self.objects@[id as int]@, member@)
                        is None && e.kind == RuntimeErrorKind::UnknownMember
                },
            },
    {
        if id < self.objects.len() {
            let fields = &self.objects[id];
            match find_entry_index(fields, member) {
                Some(i) => Ok(fields[i].1.clone()),
                None => Err(RuntimeError::new(RuntimeErrorKind::UnknownMember, "Unknown member.")),
            }
        } else {
            Err(RuntimeError::new(RuntimeErrorKind::NotIndexable, "Unknown object reference."))
        }
    }

    /// Stores one member of a shared object: replaces the member if present,
    /// otherwise appends it.
    pub fn object_set(&mut self, id: usize, member: &str, value: Value) -> (r: Result<
        Value,
        RuntimeError,
    >)
        ensures
            final(self).wf() == old(self).wf(),
            final(self).scopes == old(self).scopes,
            final(self).arrays == old(self).arrays,
            final(self).objects@.len() == old(self).objects@.len(),
            match r {
                Ok(v) => {
                    &&& id < old(self).objects@.len()
                    &&& v == Value::Void
                    &&& forall|j: int|
                        0 <= j < old(self).objects@.len() && j != id ==> final(self).objects@[j]
                            == old(self).objects@[j]
                    &&& find_entry(final(self).objects@[id as int]@, member@) == Some(value)
                    &&& match find_entry(old(self).objects@[id as int]@, member@) {
                        Some(_prev) => final(self).objects@[id as int]@.len() == old(self).objects@[id as int]@.len(),
                        None => {
                            &&& final(self).objects@[id as int]@.len() == old(self).objects@[id as int]@.len() + 1
                            &&& final(self).objects@[id as int]@.drop_last() == old(self).objects@[id as int]@
                        },
                    }
                    &&& forall|k: int|
                        0 <= k < old(self).objects@[id as int]@.len() && (#[trigger] old(self).objects@[id as int]@[k]).0@ != member@ ==> final(self).objects@[id as int]@[k] == old(self).objects@[id as int]@[k]
                },
                Err(e) => {
                    &&& final(self).objects@ == old(self).objects@
                    &&& id >= old(self).objects@.len()
                    &&& e.kind == RuntimeErrorKind::NotIndexable
                },
            },
    {
        if id < self.objects.len() {
            let mut fields: Vec<(String, Value)> = Vec::new();
            self.objects.set_and_swap(id, &mut fields);
            match find_entry_index(&fields, member) {
                Some(i) => {
                    let mut entry: (String, Value) = (String::new(), Value::Void);
                    fields.set_and_swap(i, &mut entry);
                    let key = entry.0;
                    fields.set(i, (key, value));
                    proof {
                        let orig = old(self).objects@[id as int]@;
                        assert(fields@ =~= orig.update(i as int, (orig[i as int].0, value)));
                        lemma_find_entry_update(orig, i as int, member@, value);
                    }
                },
                None => {
                    fields.push((member.to_owned(), value));
                    proof {
                        lemma_find_entry_push(old(self).objects@[id as int]@, fields@.last(), member@);
                        assert(fields@.drop_last() =~= old(self).objects@[id as int]@);
                    }
                },
            }
            self.objects.set_and_swap(id, &mut fields);
            proof {
                assert(forall|j: int|
                    0 <= j < old(self).objects@.len() && j != id ==> self.objects@[j] == old(self).objects@[j]);
            }
            Ok(Value::Void)
        } else {
            Err(RuntimeError::new(RuntimeErrorKind::NotIndexable, "Unknown object reference."))
        }
    }
}

/// Updating the first entry under a name leaves that name mapped to the new
/// value.
proof fn lemma_find_entry_update(entries: Seq<(String, Value)>, i: int, name: Seq<char>, v: Value)
    requires
        0 <= i < entries.len(),
        entries[i].0@ == name,
        forall|j: int| 0 <= j < i ==> (#[trigger] entries[j]).0@ != name,
    ensures
        find_entry(entries.update(i, (entries[i].0, v)), name) == Some(v),
    decreases i,
{
    let updated = entries.update(i, (entries[i].0, v));
    if i == 0 {
        assert(updated[0].0@ == name);
    } else {
        assert(updated[0] == entries[0]);
        assert(updated.drop_first() =~= entries.drop_first().update(i - 1, (entries[i].0, v)));
        assert(entries.drop_first()[i - 1] == entries[i]);
        lemma_find_entry_update(entries.drop_first(), i - 1, name, v);
    }
}

/// Appending an entry binds its name when no earlier entry carries it.
proof fn lemma_find_entry_push(entries: Seq<(String, Value)>, entry: (String, Value), name: Seq<char>)
    requires
        find_entry(entries, name) is None,
        entry.0@ == name,
    ensures
        find_entry(entries.push(entry), name) == Some(entry.1),
    decreases entries.len(),
{
    if entries.len() == 0 {
        assert(entries.push(entry)[0] == entry);
    } else {
        assert(entries.push(entry)[0] == entries[0]);
        assert(entries.push(entry).drop_first() =~= entries.drop_first().push(entry));
        lemma_find_entry_push(entries.drop_first(), entry, name);
    }
}

/// Appending an entry binds its name when no earlier entry carries it.
pub proof fn lemma_find_entry_appended<T>(
    entries: Seq<(String, T)>,
    entry: (String, T),
    name: Seq<char>,
)
    requires
        find_entry(entries, name) is None,
        entry.0@ == name,
    ensures
        find_entry(entries.push(entry), name) == Some(entry.1),
    decreases entries.len(),
{
    if entries.len() == 0 {
        assert(entries.push(entry)[0] == entry);
    } else {
        assert(entries.push(entry)[0] == entries[0]);
        assert(entries.push(entry).drop_first() =~= entries.drop_first().push(entry));
        lemma_find_entry_appended(entries.drop_first(), entry, name);
    }
}

/// Appending an entry under a different name leaves a lookup unchanged.
pub proof fn lemma_find_entry_push_other<T>(
    entries: Seq<(String, T)>,
    entry: (String, T),
    name: Seq<char>,
)
    requires
        entry.0@ != name,
    ensures
        find_entry(entries.push(entry), name) == find_entry(entries, name),
    decreases entries.len(),
{
    if entries.len() == 0 {
        assert(entries.push(entry)[0] == entry);
        assert(entries.push(entry).drop_first() =~= entries);
    } else {
        assert(entries.push(entry)[0] == entries[0]);
        assert(entries.push(entry).drop_first() =~= entries.drop_first().push(entry));
        lemma_find_entry_push_other(entries.drop_first(), entry, name);
    }
}

// ---------------------------------------------------------------------------
// Array aliasing
// ---------------------------------------------------------------------------

/// What a read of element `i` through an array value observes: arrays are
/// ids into the shared containers of the environment, not copies.
pub open spec fn spec_array_read(s: Scopes, value: Value, i: int) -> Option<Value> {
    match value {
        Value::Array(id) => {
            if id < s.arrays@.len() && 0 <= i < s.arrays@[id as int]@.len() {
                Some(s.arrays@[id as int]@[i])
            } else {
                None
            }
        },
        _ => None,
    }
}

/// Array aliasing: two array values naming the same container are aliases,
/// so after a write of element `i` through one of them, a read through the
/// other observes the written value.
pub proof fn lemma_array_aliasing(
    before: Scopes,
    after: Scopes,
    a: Value,
    b: Value,
    id: usize,
    i: int,
    v: Value,
)
    requires
        a == Value::Array(id),
        b == Value::Array(id),
        id < before.arrays@.len(),
        after.arrays@.len() == before.arrays@.len(),
        0 <= i < before.arrays@[id as int]@.len(),
        after.arrays@[id as int]@ == before.arrays@[id as int]@.update(i, v),
    ensures
        spec_array_read(after, b, i) == Some(v),
{
}

// ---------------------------------------------------------------------------
// The shape of a scope across evaluation
// ---------------------------------------------------------------------------

/// A scope whose shape is kept: same parent, same type namespace, and the
/// same bindings under the same names with their declared types and
/// mutability — only the stored values may have changed.
pub open spec fn scope_shape_kept(before: Scope, after: Scope) -> bool {
    &&& after.parent == before.parent
    &&& after.types == before.types
    &&& after.values@.len() == before.values@.len()
    &&& forall|k: int|
        0 <= k < before.values@.len() ==> ((#[trigger] after.values@[k]).0
            == before.values@[k].0 && after.values@[k].1.declared == before.values@[k].1.declared
            && after.values@[k].1.is_mutable == before.values@[k].1.is_mutable)
}

/// A scope that has only been extended: the old bindings keep their names,
/// declared types and mutability (values may change), the old type bindings
/// are kept verbatim, and new entries stand only behind them.
pub open spec fn scope_shape_extended(before: Scope, after: Scope) -> bool {
    &&& after.parent == before.parent
    &&& after.types@.len() >= before.types@.len()
    &&& forall|k: int|
        0 <= k < before.types@.len() ==> (#[trigger] after.types@[k]) == before.types@[k]
    &&& after.values@.len() >= before.values@.len()
    &&& forall|k: int|
        0 <= k < before.values@.len() ==> ((#[trigger] after.values@[k]).0
            == before.values@[k].0 && after.values@[k].1.declared == before.values@[k].1.declared
            && after.values@[k].1.is_mutable == before.values@[k].1.is_mutable)
}

/// What every evaluation step does to the scopes that existed before it:
/// new bindings land only in the step's own scope or in scopes the step
/// created, so every other pre-existing scope keeps its shape, and the
/// step's own scope is at most extended.  Together with the lookup rules
/// this is scope isolation at the statement level: a binding declared
/// inside a block lives in a scope created for the block, and no scope
/// visible before the statement gains it.
pub open spec fn scope_keys_frame(before: Scopes, after: Scopes, cur: int) -> bool {
    &&& forall|j: int|
        0 <= j < before.scopes@.len() && j != cur ==> scope_shape_kept(
            before.scopes@[j],
            #[trigger] after.scopes@[j],
        )
    &&& (0 <= cur < before.scopes@.len() ==> scope_shape_extended(
        before.scopes@[cur],
        after.scopes@[cur],
    ))
}

/// A shape kept verbatim is in particular a shape only extended.
pub proof fn lemma_kept_implies_extended(before: Scope, after: Scope)
    requires
        scope_shape_kept(before, after),
    ensures
        scope_shape_extended(before, after),
{
}

/// Identical scope lists frame trivially.
pub proof fn lemma_frame_identical(a: Scopes, b: Scopes, cur: int)
    requires
        b.scopes@ == a.scopes@,
    ensures
        scope_keys_frame(a, b, cur),
        scopes_shape_kept(a, b),
{
    if 0 <= cur < a.scopes@.len() {
        lemma_kept_implies_extended(a.scopes@[cur], b.scopes@[cur]);
    }
}

/// Appending a fresh scope keeps every existing scope's shape.
pub proof fn lemma_frame_append_scope(a: Scopes, b: Scopes, cur: int)
    requires
        b.scopes@.len() == a.scopes@.len() + 1,
        b.scopes@.subrange(0, a.scopes@.len() as int) == a.scopes@,
    ensures
        scope_keys_frame(a, b, cur),
        scopes_shape_kept(a, b),
{
    assert forall|j: int| 0 <= j < a.scopes@.len() implies b.scopes@[j] == a.scopes@[j] by {
        assert(b.scopes@.subrange(0, a.scopes@.len() as int)[j] == b.scopes@[j]);
    }
    if 0 <= cur < a.scopes@.len() {
        lemma_kept_implies_extended(a.scopes@[cur], b.scopes@[cur]);
    }
}

/// Appending a value binding to scope `t` frames at `t`.
pub proof fn lemma_frame_value_pushed(a: Scopes, b: Scopes, t: int)
    requires
        0 <= t < a.scopes@.len(),
        b.scopes@.len() == a.scopes@.len(),
        forall|j: int| 0 <= j < a.scopes@.len() && j != t ==> b.scopes@[j] == a.scopes@[j],
        b.scopes@[t].parent == a.scopes@[t].parent,
        b.scopes@[t].types == a.scopes@[t].types,
        b.scopes@[t].values@.len() == a.scopes@[t].values@.len() + 1,
        b.scopes@[t].values@.drop_last() == a.scopes@[t].values@,
    ensures
        scope_keys_frame(a, b, t),
{
    assert forall|k: int|
        0 <= k < a.scopes@[t].values@.len() implies (#[trigger] b.scopes@[t].values@[k]).0
        == a.scopes@[t].values@[k].0 && b.scopes@[t].values@[k].1.declared == a.scopes@[
        t
    ].values@[k].1.declared && b.scopes@[t].values@[k].1.is_mutable == a.scopes@[
        t
    ].values@[k].1.is_mutable by {
        assert(b.scopes@[t].values@.drop_last()[k] == b.scopes@[t].values@[k]);
    }
}

/// Appending a type binding to scope `t` frames at `t`.
pub proof fn lemma_frame_type_pushed(a: Scopes, b: Scopes, t: int)
    requires
        0 <= t < a.scopes@.len(),
        b.scopes@.len() == a.scopes@.len(),
        forall|j: int| 0 <= j < a.scopes@.len() && j != t ==> b.scopes@[j] == a.scopes@[j],
        b.scopes@[t].parent == a.scopes@[t].parent,
        b.scopes@[t].values == a.scopes@[t].values,
        b.scopes@[t].types@.len() == a.scopes@[t].types@.len() + 1,
        b.scopes@[t].types@.drop_last() == a.scopes@[t].types@,
    ensures
        scope_keys_frame(a, b, t),
{
    assert forall|k: int|
        0 <= k < a.scopes@[t].types@.len() implies (#[trigger] b.scopes@[t].types@[k])
        == a.scopes@[t].types@[k] by {
        assert(b.scopes@[t].types@.drop_last()[k] == b.scopes@[t].types@[k]);
    }
}

/// Mutating one stored value in place keeps every scope's shape, so it
/// frames at any scope.
pub proof fn lemma_frame_mutated(a: Scopes, b: Scopes, d: int, cur: int)
    requires
        0 <= d < a.scopes@.len(),
        b.scopes@.len() == a.scopes@.len(),
        forall|j: int| 0 <= j < a.scopes@.len() && j != d ==> b.scopes@[j] == a.scopes@[j],
        b.scopes@[d].parent == a.scopes@[d].parent,
        b.scopes@[d].types == a.scopes@[d].types,
        b.scopes@[d].values@.len() == a.scopes@[d].values@.len(),
        forall|k: int|
            0 <= k < b.scopes@[d].values@.len() ==> (#[trigger] b.scopes@[d].values@[k]).0
                == a.scopes@[d].values@[k].0,
        forall|k: int|
            0 <= k < b.scopes@[d].values@.len() ==> b.scopes@[d].values@[k].1.declared == a.scopes@[
                d
            ].values@[k].1.declared && b.scopes@[d].values@[k].1.is_mutable == a.scopes@[
                d
            ].values@[k].1.is_mutable,
    ensures
        scope_keys_frame(a, b, cur),
        scopes_shape_kept(a, b),
{
    assert(scope_shape_kept(a.scopes@[d], b.scopes@[d]));
    if 0 <= cur < a.scopes@.len() {
        lemma_kept_implies_extended(a.scopes@[cur], b.scopes@[cur]);
    }
}

/// What expressions and non-declaring statements do to the scopes that
/// existed before them: every one keeps its shape — no binding is added to
/// any of them, only stored values may change.  New bindings land solely in
/// scopes created by the step itself, so a block's bindings are unreachable
/// from every scope that was visible before it, the current one included.
pub open spec fn scopes_shape_kept(before: Scopes, after: Scopes) -> bool {
    &&& after.scopes@.len() >= before.scopes@.len()
    &&& forall|j: int|
        0 <= j < before.scopes@.len() ==> scope_shape_kept(
            before.scopes@[j],
            #[trigger] after.scopes@[j],
        )
}

/// Kept shapes compose.
pub proof fn lemma_kept_trans(a: Scopes, b: Scopes, c: Scopes)
    requires
        scopes_shape_kept(a, b),
        scopes_shape_kept(b, c),
    ensures
        scopes_shape_kept(a, c),
{
    assert forall|j: int| 0 <= j < a.scopes@.len() implies scope_shape_kept(
        a.scopes@[j],
        #[trigger] c.scopes@[j],
    ) by {
        assert(scope_shape_kept(a.scopes@[j], b.scopes@[j]));
        assert(scope_shape_kept(b.scopes@[j], c.scopes@[j]));
    }
}

/// A step that frames at a scope created after `a` keeps every scope of `a`.
pub proof fn lemma_kept_after_frame(a: Scopes, b: Scopes, c: Scopes, next: int)
    requires
        scopes_shape_kept(a, b),
        scope_keys_frame(b, c, next),
        c.scopes@.len() >= b.scopes@.len(),
        next >= a.scopes@.len(),
    ensures
        scopes_shape_kept(a, c),
{
    assert forall|j: int| 0 <= j < a.scopes@.len() implies scope_shape_kept(
        a.scopes@[j],
        #[trigger] c.scopes@[j],
    ) by {
        assert(scope_shape_kept(a.scopes@[j], b.scopes@[j]));
        assert(scope_shape_kept(b.scopes@[j], c.scopes@[j]));
    }
}

/// Scope isolation at the statement level: across any step that keeps the
/// shapes of the pre-existing scopes — every expression and every
/// non-declaring statement, by their contracts — a name that was unbound on
/// the lookup chain of a scope stays unbound there.  A binding introduced
/// inside a block therefore stays unreachable from the enclosing scope and
/// its ancestors once the statement returns.
pub proof fn lemma_statement_scope_isolation(
    before: Scopes,
    after: Scopes,
    cur: int,
    name: Seq<char>,
)
    requires
        scopes_wf(before.scopes@),
        scopes_shape_kept(before, after),
        0 <= cur < before.scopes@.len(),
        lookup_binding(before.scopes@, cur, name) is None,
    ensures
        lookup_binding(after.scopes@, cur, name) is None,
{
    if defining_scope(before.scopes@, cur, name) != -1 {
        lemma_defining_scope_found(before.scopes@, cur, name);
        assert(false);
    }
    lemma_unbound_stays_unbound(before, after, cur, name);
    if defining_scope(after.scopes@, cur, name) != -1 {
        assert(false);
    }
}

proof fn lemma_unbound_stays_unbound(before: Scopes, after: Scopes, cur: int, name: Seq<char>)
    requires
        scopes_wf(before.scopes@),
        scopes_shape_kept(before, after),
        0 <= cur < before.scopes@.len(),
        defining_scope(before.scopes@, cur, name) == -1,
    ensures
        defining_scope(after.scopes@, cur, name) == -1,
    decreases cur,
{
    assert(scope_shape_kept(before.scopes@[cur], after.scopes@[cur]));
    lemma_find_entry_none_by_keys(
        before.scopes@[cur].values@,
        after.scopes@[cur].values@,
        name,
    );
    assert(scope_parent_ok(before.scopes@[cur], cur));
    match before.scopes@[cur].parent {
        Some(p) => {
            lemma_unbound_stays_unbound(before, after, p as int, name);
        },
        None => {},
    }
}

/// Frames compose: a step at `cur` followed by a step at a scope that did
/// not exist before the first step (or at `cur` again) is one step at `cur`.
pub proof fn lemma_keys_frame_compose(a: Scopes, b: Scopes, c: Scopes, cur: int, next: int)
    requires
        scope_keys_frame(a, b, cur),
        b.scopes@.len() >= a.scopes@.len(),
        scope_keys_frame(b, c, next),
        next >= a.scopes@.len() || next == cur,
    ensures
        scope_keys_frame(a, c, cur),
{
    assert forall|j: int| 0 <= j < a.scopes@.len() && j != cur implies scope_shape_kept(
        a.scopes@[j],
        #[trigger] c.scopes@[j],
    ) by {
        assert(scope_shape_kept(a.scopes@[j], b.scopes@[j]));
        assert(scope_shape_kept(b.scopes@[j], c.scopes@[j]));
    }
    if 0 <= cur < a.scopes@.len() {
        assert(scope_shape_extended(a.scopes@[cur], b.scopes@[cur]));
        if next == cur {
            assert(scope_shape_extended(b.scopes@[cur], c.scopes@[cur]));
        } else {
            assert(scope_shape_kept(b.scopes@[cur], c.scopes@[cur]));
        }
    }
}

/// A name absent from a scope whose shape is kept or extended without it
/// stays absent; lookups only read names.
pub proof fn lemma_find_entry_none_by_keys(before: Seq<(String, Binding)>, after: Seq<(String, Binding)>, name: Seq<char>)
    requires
        after.len() == before.len(),
        forall|k: int| 0 <= k < before.len() ==> (#[trigger] after[k]).0 == before[k].0,
        find_entry(before, name) is None,
    ensures
        find_entry(after, name) is None,
    decreases before.len(),
{
    if before.len() > 0 {
        assert(after[0].0 == before[0].0);
        assert(after.drop_first().len() == before.drop_first().len());
        assert forall|k: int|
            0 <= k < before.drop_first().len() implies (#[trigger] after.drop_first()[k]).0
            == before.drop_first()[k].0 by {
            assert(after.drop_first()[k] == after[k + 1]);
            assert(before.drop_first()[k] == before[k + 1]);
        }
        lemma_find_entry_none_by_keys(before.drop_first(), after.drop_first(), name);
    }
}

// ---------------------------------------------------------------------------
// Scope isolation
// ---------------------------------------------------------------------------

/// Whether `target` lies on the parent chain of `from` (including `from`
/// itself).
pub open spec fn in_chain(s: Seq<Scope>, from: int, target: int) -> bool
    decreases from,
{
    if 0 <= from < s.len() {
        from == target || match s[from].parent {
            Some(p) => p < from && in_chain(s, p as int, target),
            None => false,
        }
    } else {
        false
    }
}

/// Scope isolation: a change confined to one scope is invisible to every
/// lookup that starts outside that scope's descendants.  In particular a
/// binding introduced inside a block scope is unreachable from any sibling
/// or ancestor scope.
pub proof fn lemma_scope_isolation(
    s1: Seq<Scope>,
    s2: Seq<Scope>,
    block_scope: int,
    start: int,
    name: Seq<char>,
)
    requires
        scopes_wf(s1),
        s2.len() == s1.len(),
        forall|j: int| 0 <= j < s1.len() && j != block_scope ==> s2[j] == s1[j],
        0 <= start < s1.len(),
        !in_chain(s1, start, block_scope),
    ensures
        lookup_binding(s2, start, name) == lookup_binding(s1, start, name),
    decreases start,
{
    assert(start != block_scope);
    assert(s2[start] == s1[start]);
    assert(scope_parent_ok(s1[start], start));
    if find_entry(s1[start].values@, name) is Some {
    } else {
        match s1[start].parent {
            Some(p) => {
                assert(!in_chain(s1, p as int, block_scope));
                lemma_scope_isolation(s1, s2, block_scope, p as int, name);
            },
            None => {},
        }
    }
}

// ---------------------------------------------------------------------------
// Mutation of existing bindings
// ---------------------------------------------------------------------------

/// The failure, if any, that assigning `v` to the binding of `name` visible
/// from scope `cur` meets: the binding must exist, must be mutable, and the
/// inferred type of `v` must be assignable to the binding's declared type.
pub open spec fn spec_mutate_check(s: Scopes, cur: int, name: Seq<char>, v: Value) -> Option<
    RuntimeErrorKind,
> {
    match lookup_binding(s.scopes@, cur, name) {
        None => Some(RuntimeErrorKind::UnknownIdent),
        Some(b) => {
            if !b.is_mutable {
                Some(RuntimeErrorKind::Immutable)
            } else {
                match spec_infer_type(s, cur, v, INFER_FUEL as nat) {
                    Err(k) => Some(k),
                    Ok(t) => if spec_assignable(t, b.declared) {
                        None
                    } else if crate::types::spec_is_empty_array_type(t) {
                        Some(RuntimeErrorKind::TypeUnknown)
                    } else {
                        Some(RuntimeErrorKind::TypeMismatch)
                    },
                }
            }
        },
    }
}

/// Two environments that are indistinguishable: same scopes, same shared
/// containers.
pub open spec fn unchanged_env(before: Scopes, after: Scopes) -> bool {
    &&& after.scopes@ == before.scopes@
    &&& after.arrays@ == before.arrays@
    &&& after.objects@ == before.objects@
}

/// What a successful assignment to a bound symbol does to the environment:
/// the write lands at the defining scope, the stored value becomes the
/// assigned value while the declared type and mutability are kept, and
/// every other binding, scope and container is untouched.
pub open spec fn spec_symbol_write_ok(
    before: Scopes,
    after: Scopes,
    cur: int,
    name: Seq<char>,
    value: Value,
) -> bool {
    let d = defining_scope(before.scopes@, cur, name);
    let b = find_entry(before.scopes@[d].values@, name).unwrap();
    let updated = Binding { value, declared: b.declared, is_mutable: b.is_mutable };
    &&& after.arrays@ == before.arrays@
    &&& after.objects@ == before.objects@
    &&& after.scopes@.len() == before.scopes@.len()
    &&& forall|j: int|
        0 <= j < before.scopes@.len() && j != d ==> after.scopes@[j] == before.scopes@[j]
    &&& after.scopes@[d].parent == before.scopes@[d].parent
    &&& after.scopes@[d].types == before.scopes@[d].types
    &&& after.scopes@[d].values@.len() == before.scopes@[d].values@.len()
    &&& find_entry(after.scopes@[d].values@, name) == Some(updated)
    &&& forall|k: int|
        0 <= k < before.scopes@[d].values@.len() && (#[trigger] before.scopes@[d].values@[k]).0@
            != name ==> after.scopes@[d].values@[k] == before.scopes@[d].values@[k]
    &&& forall|k: int|
        0 <= k < after.scopes@[d].values@.len() ==> (#[trigger] after.scopes@[d].values@[k]).0
            == before.scopes@[d].values@[k].0
    &&& forall|k: int|
        0 <= k < after.scopes@[d].values@.len() ==> ((#[trigger] after.scopes@[d].values@[k]).1.declared
            == before.scopes@[d].values@[k].1.declared && after.scopes@[d].values@[k].1.is_mutable
            == before.scopes@[d].values@[k].1.is_mutable)
}

impl Scopes {
    /// The scope on the parent chain where `ident` is bound, if any.
    pub fn find_defining_scope(&self, ident: &str, current_scope: usize) -> (r: Option<usize>)
        requires
            self.wf(),
            current_scope < self.scopes@.len(),
        ensures
            match r {
                Some(d) => d == defining_scope(self.scopes@, current_scope as int, ident@) && d
                    < self.scopes@.len(),
                None => defining_scope(self.scopes@, current_scope as int, ident@) == -1,
            },
        decreases current_scope,
    {
        let scope = &self.scopes[current_scope];
        if find_entry_index(&scope.values, ident).is_some() {
            Some(current_scope)
        } else {
            proof {
                assert(scope_parent_ok(self.scopes@[current_scope as int], current_scope as int));
            }
            match scope.parent {
                Some(p) => self.find_defining_scope(ident, p),
                None => None,
            }
        }
    }

    /// Assigns a new value to an existing binding.  The write lands in the
    /// scope where the binding was declared, so every scope observing the
    /// binding observes the new value.  A binding declared without `let`
    /// refuses the write, and the new value's inferred type must be
    /// assignable to the binding's declared type.
    pub fn mutate_value(&mut self, ident: &str, current_scope: usize, new_value: Value) -> (r:
        Result<Value, RuntimeError>)
        requires
            old(self).wf(),
            current_scope < old(self).scopes@.len(),
        ensures
            final(self).wf(),
            final(self).arrays == old(self).arrays,
            final(self).objects == old(self).objects,
            final(self).scopes@.len() == old(self).scopes@.len(),
            match r {
                Err(e) => spec_mutate_check(*old(self), current_scope as int, ident@, new_value)
                    == Some(e.kind) && final(self).scopes@ == old(self).scopes@,
                Ok(v) => spec_symbol_write_ok(
                    *old(self),
                    *final(self),
                    current_scope as int,
                    ident@,
                    new_value,
                ) && {
                    &&& spec_mutate_check(*old(self), current_scope as int, ident@, new_value)
                        is None
                    &&& v == Value::Void
                    &&& {
                        let d = defining_scope(old(self).scopes@, current_scope as int, ident@);
                        let b = find_entry(old(self).scopes@[d].values@, ident@).unwrap();
                        let updated = Binding {
                            value: new_value,
                            declared: b.declared,
                            is_mutable: b.is_mutable,
                        };
                        &&& forall|j: int|
                            0 <= j < old(self).scopes@.len() && j != d ==> final(self).scopes@[j]
                                == old(self).scopes@[j]
                        &&& final(self).scopes@[d].parent == old(self).scopes@[d].parent
                        &&& final(self).scopes@[d].types == old(self).scopes@[d].types
                        &&& final(self).scopes@[d].values@.len() == old(self).scopes@[d].values@.len()
                        &&& find_entry(final(self).scopes@[d].values@, ident@) == Some(updated)
                        &&& forall|k: int|
                            0 <= k < old(self).scopes@[d].values@.len() && (#[trigger] old(self).scopes@[d].values@[k]).0@ != ident@ ==> final(self).scopes@[d].values@[k] == old(self).scopes@[d].values@[k]
                        &&& forall|k: int|
                            0 <= k < final(self).scopes@[d].values@.len() ==> (#[trigger] final(self).scopes@[d].values@[k]).0 == old(self).scopes@[d].values@[k].0
                    }
                },
            },
    {
        let d = match self.find_defining_scope(ident, current_scope) {
            Some(d) => d,
            None => {
                return Err(
                    RuntimeError::new(RuntimeErrorKind::UnknownIdent, "Unknown identifier."),
                );
            },
        };
        proof {
            lemma_defining_scope_found(self.scopes@, current_scope as int, ident@);
        }
        let (index, is_mutable, declared) = {
            let scope = &self.scopes[d];
            let index = match find_entry_index(&scope.values, ident) {
                Some(i) => i,
                None => {
                    proof {
                        assert(false);
                    }
                    return Err(
                        RuntimeError::new(RuntimeErrorKind::UnknownIdent, "Unknown identifier."),
                    );
                },
            };
            let binding = &scope.values[index].1;
            (index, binding.is_mutable, binding.declared.clone())
        };
        if !is_mutable {
            return Err(
                RuntimeError::new(
                    RuntimeErrorKind::Immutable,
                    "Cannot re-assign an immutable binding.",
                ),
            );
        }
        let inferred = match infer_type(&new_value, self, current_scope) {
            Ok(t) => t,
            Err(e) => {
                return Err(e);
            },
        };
        if !inferred.is_assignable_to(&declared) {
            if inferred.is_empty_array_type() {
                return Err(
                    RuntimeError::new(
                        RuntimeErrorKind::TypeUnknown,
                        "The element type of an empty array is not yet known.",
                    ),
                );
            }
            let mut message = "Cannot assign a value of type ".to_owned();
            let found = inferred.to_string();
            message.append(found.as_str());
            message.append(" where ");
            let expected = declared.to_string();
            message.append(expected.as_str());
            message.append(" is expected.");
            return Err(RuntimeError::new(RuntimeErrorKind::TypeMismatch, message.as_str()));
        }
        let mut scope = Scope { parent: None, values: Vec::new(), types: Vec::new() };
        self.scopes.set_and_swap(d, &mut scope);
        let mut entry: (String, Binding) = (
            String::new(),
            Binding {
                value: Value::Void,
                declared: crate::types::TypeVariant::Type(
                    crate::types::NalaType::PrimitiveType(PrimitiveType::Void),
                ),
                is_mutable: false,
            },
        );
        scope.values.set_and_swap(index, &mut entry);
        let key = entry.0;
        let old_binding = entry.1;
        scope.values.set(
            index,
            (key, Binding { value: new_value, declared: old_binding.declared, is_mutable: true }),
        );
        self.scopes.set_and_swap(d, &mut scope);
        proof {
            let orig = old(self).scopes@[d as int].values@;
            let updated_entry = self.scopes@[d as int].values@[index as int];
            assert(self.scopes@[d as int].values@ =~= orig.update(index as int, updated_entry));
            assert(updated_entry.0 == orig[index as int].0);
            lemma_find_entry_binding_update(orig, index as int, ident@, updated_entry.1);
            assert forall|j: int|
                0 <= j < old(self).scopes@.len() && j != d implies self.scopes@[j] == old(self).scopes@[j] by {}
            assert(scopes_wf(self.scopes@)) by {
                assert forall|i: int| 0 <= i < self.scopes@.len() implies scope_parent_ok(
                    #[trigger] self.scopes@[i],
                    i,
                ) by {
                    assert(self.scopes@[i].parent == old(self).scopes@[i].parent);
                    assert(scope_parent_ok(old(self).scopes@[i], i));
                }
            }
        }
        Ok(Value::Void)
    }
}

/// A non-negative defining scope indeed binds the name locally.
pub proof fn lemma_defining_scope_found(s: Seq<Scope>, id: int, name: Seq<char>)
    requires
        0 <= id < s.len(),
        defining_scope(s, id, name) != -1,
    ensures
        0 <= defining_scope(s, id, name) < s.len(),
        find_entry(s[defining_scope(s, id, name)].values@, name) is Some,
    decreases id,
{
    if find_entry(s[id].values@, name) is Some {
    } else {
        match s[id].parent {
            Some(p) => {
                if p < id {
                    lemma_defining_scope_found(s, p as int, name);
                }
            },
            None => {},
        }
    }
}

/// Updating the first entry under a name leaves that name mapped to the new
/// binding.
proof fn lemma_find_entry_binding_update(
    entries: Seq<(String, Binding)>,
    i: int,
    name: Seq<char>,
    b: Binding,
)
    requires
        0 <= i < entries.len(),
        entries[i].0@ == name,
        forall|j: int| 0 <= j < i ==> (#[trigger] entries[j]).0@ != name,
    ensures
        find_entry(entries.update(i, (entries[i].0, b)), name) == Some(b),
    decreases i,
{
    let updated = entries.update(i, (entries[i].0, b));
    if i == 0 {
        assert(updated[0].0@ == name);
    } else {
        assert(updated[0] == entries[0]);
        assert(updated.drop_first() =~= entries.drop_first().update(i - 1, (entries[i].0, b)));
        assert(entries.drop_first()[i - 1] == entries[i]);
        lemma_find_entry_binding_update(entries.drop_first(), i - 1, name, b);
    }
}

// ---------------------------------------------------------------------------
// Laws of binding mutation
// ---------------------------------------------------------------------------

/// Immutability: an assignment to a binding declared immutable always fails
/// with `Immutable`, whatever value is assigned.
pub proof fn lemma_immutable_binding_refuses_assignment(
    s: Scopes,
    cur: int,
    name: Seq<char>,
    b: Binding,
    w: Value,
)
    requires
        lookup_binding(s.scopes@, cur, name) == Some(b),
        !b.is_mutable,
    ensures
        spec_mutate_check(s, cur, name, w) == Some(RuntimeErrorKind::Immutable),
{
}

/// Type preservation on assignment: once a binding is declared mutable with
/// type `T`, a later assignment of a value whose type infers to `t` succeeds
/// exactly when `t` is assignable to `T`.
pub proof fn lemma_assignment_preserves_declared_type(
    s: Scopes,
    cur: int,
    name: Seq<char>,
    b: Binding,
    w: Value,
    t: crate::types::TypeVariant,
)
    requires
        lookup_binding(s.scopes@, cur, name) == Some(b),
        b.is_mutable,
        spec_infer_type(s, cur, w, INFER_FUEL as nat) == Ok::<_, RuntimeErrorKind>(t),
    ensures
        spec_mutate_check(s, cur, name, w) is None <==> spec_assignable(t, b.declared),
{
}

} // verus!
