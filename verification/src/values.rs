use vstd::prelude::*;

use crate::ast::Block;
use crate::ast::Params;
use crate::builtins::BuiltinKind;
use crate::types::clone_opt_string;
use crate::types::TypeLiteralVariant;

verus! {

// ---------------------------------------------------------------------------
// The value domain
// ---------------------------------------------------------------------------

/// A closure: parameters, declared return type, an optional type parameter,
/// a body, and the id of the scope it captured at declaration.
#[derive(Debug)]
pub struct FuncValue {
    pub params: Box<Params>,
    pub return_type: TypeLiteralVariant,
    pub type_param: Option<String>,
    pub block: Box<FuncVariant>,
    pub closure_scope: usize,
}

/// A function body: a block of the language, or one of the built-in bodies
/// supplied by the embedder.
#[derive(Debug)]
pub enum FuncVariant {
    Nala(Block),
    Builtin(BuiltinKind),
}

/// A value of a user-defined enum: the enum's name, the variant's name, and
/// the payload if the variant carries data.
#[derive(Debug)]
pub struct EnumVariantValue {
    pub enum_ident: String,
    pub variant_ident: String,
    pub data: Option<Box<Value>>,
}

/// A runtime value.  Arrays and objects have reference semantics: the value
/// holds the id of a shared container that lives in the environment, so
/// copies of the value observe the same container.
#[derive(Debug)]
pub enum Value {
    Array(usize),
    Bool(bool),
    Func(FuncValue),
    Variant(EnumVariantValue),
    Num(i64),
    Object(usize),
    String(String),
    Break(Box<Value>),
    Void,
}

impl Value {
    pub fn is_number(&self) -> (r: bool)
        ensures
            r == (self is Num),
    {
        if let Value::Num(_) = self {
            true
        } else {
            false
        }
    }

    pub fn is_string(&self) -> (r: bool)
        ensures
            r == (self is String),
    {
        if let Value::String(_) = self {
            true
        } else {
            false
        }
    }

    pub fn is_void(&self) -> (r: bool)
        ensures
            r == (self is Void),
    {
        if let Value::Void = self {
            true
        } else {
            false
        }
    }

    pub fn as_string(&self) -> (r: Option<String>)
        ensures
            match *self {
                Value::String(s) => r == Some(s),
                _ => r is None,
            },
    {
        if let Value::String(s) = self {
            Some(s.clone())
        } else {
            None
        }
    }

    pub fn as_variant(&self) -> (r: Option<EnumVariantValue>)
        ensures
            match *self {
                Value::Variant(v) => r == Some(v),
                _ => r is None,
            },
    {
        if let Value::Variant(v) = self {
            Some(v.clone())
        } else {
            None
        }
    }
}

impl Clone for Value {
    fn clone(&self) -> (r: Self)
        ensures
            r == *self,
        decreases self,
    {
        match self {
            Value::Array(id) => Value::Array(*id),
            Value::Bool(b) => Value::Bool(*b),
            Value::Func(f) => Value::Func(f.clone()),
            Value::Variant(v) => Value::Variant(v.clone()),
            Value::Num(n) => Value::Num(*n),
            Value::Object(id) => Value::Object(*id),
            Value::String(s) => Value::String(s.clone()),
            Value::Break(inner) => Value::Break(Box::new((**inner).clone())),
            Value::Void => Value::Void,
        }
    }
}

impl Clone for EnumVariantValue {
    fn clone(&self) -> (r: Self)
        ensures
            r == *self,
        decreases self,
    {
        let data = match &self.data {
            Some(inner) => Some(Box::new((**inner).clone())),
            None => None,
        };
        EnumVariantValue {
            enum_ident: self.enum_ident.clone(),
            variant_ident: self.variant_ident.clone(),
            data,
        }
    }
}

impl Clone for FuncValue {
    fn clone(&self) -> (r: Self)
        ensures
            r == *self,
        decreases self,
    {
        FuncValue {
            params: Box::new((*self.params).clone()),
            return_type: self.return_type.clone(),
            type_param: clone_opt_string(&self.type_param),
            block: Box::new((*self.block).clone()),
            closure_scope: self.closure_scope,
        }
    }
}

impl Clone for FuncVariant {
    fn clone(&self) -> (r: Self)
        ensures
            r == *self,
        decreases self,
    {
        match self {
            FuncVariant::Nala(block) => FuncVariant::Nala(block.clone()),
            FuncVariant::Builtin(kind) => FuncVariant::Builtin(*kind),
        }
    }
}

} // verus!
