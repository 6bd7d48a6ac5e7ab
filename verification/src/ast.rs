use vstd::prelude::*;

use crate::types::clone_opt_string;
use crate::types::TypeLiteralVariant;
use crate::values::Value;

verus! {

// ---------------------------------------------------------------------------
// Programs and statements
// ---------------------------------------------------------------------------

/// A whole program: a braced block or a bare statement list.
#[derive(Debug)]
pub enum Program {
    Block(Block),
    Stmts(Stmts),
}

/// A braced block of statements.
#[derive(Debug)]
pub struct Block {
    pub stmts: Stmts,
}

/// A non-empty right-recursive statement list, as the grammar produces.
#[derive(Debug)]
pub enum Stmts {
    Stmts(Box<Stmts>, Stmt),
    Stmt(Stmt),
}

/// A single statement.
#[derive(Debug)]
pub enum Stmt {
    Assign(PlaceExpression, Expr),
    Break(Expr),
    Declare(String, Expr, Option<TypeLiteralVariant>, bool),
    Enum(String, Option<String>, VariantsDeclare),
    Expr(Expr),
    For(String, Expr, Box<Block>),
    Func(Func),
    IfElseChain(Box<IfElseChain>),
    Wiles(Expr, Box<Block>),
    Struct(String, Option<String>, StructFieldsDeclare),
    Match(Box<Match>),
}

/// A function declaration.
#[derive(Debug)]
pub struct Func {
    pub ident: String,
    pub type_param: Option<String>,
    pub params: Box<Params>,
    pub return_type: TypeLiteralVariant,
    pub block: Box<Block>,
}

/// A possibly empty parameter list.
#[derive(Debug)]
pub enum Params {
    Params(Box<Params>, Param),
    Param(Param),
    Empty,
}

/// A single parameter: an identifier and its annotated type.
#[derive(Debug)]
pub struct Param {
    pub ident: String,
    pub param_type: TypeLiteralVariant,
}

/// The declared variants of an enum.
#[derive(Debug)]
pub enum VariantsDeclare {
    Variants(Box<VariantsDeclare>, VariantDeclare),
    Variant(VariantDeclare),
}

/// One declared variant: an empty tag or a tag carrying data of a written type.
#[derive(Debug)]
pub enum VariantDeclare {
    Empty(String),
    Data(String, TypeLiteralVariant),
}

/// The declared fields of a struct.
#[derive(Debug)]
pub enum StructFieldsDeclare {
    Fields(Box<StructFieldsDeclare>, StructLiteralField),
    Field(StructLiteralField),
}

/// One declared struct field.
#[derive(Debug)]
pub struct StructLiteralField {
    pub ident: String,
    pub field_type: TypeLiteralVariant,
}

/// An if/else-if chain with an optional final else block.
#[derive(Debug)]
pub struct IfElseChain {
    pub cases: IfCases,
    pub else_block: Option<Box<Block>>,
}

/// The guarded cases of an if/else-if chain, first case first.
#[derive(Debug)]
pub enum IfCases {
    Cases(IfCase, Box<IfCases>),
    Case(IfCase),
}

/// One guarded case.
#[derive(Debug)]
pub struct IfCase {
    pub cond: Expr,
    pub block: Box<Block>,
}

/// A match statement: a scrutinee and its arms, first arm first.
#[derive(Debug)]
pub struct Match {
    pub subject: Expr,
    pub arms: MatchArms,
}

#[derive(Debug)]
pub enum MatchArms {
    Arms(MatchArm, Box<MatchArms>),
    Arm(MatchArm),
}

/// One match arm: a pattern and the expression it guards.
#[derive(Debug)]
pub struct MatchArm {
    pub pattern: Pattern,
    pub body: Box<Expr>,
}

/// A pattern, as allowed on the left of a match arm.
#[derive(Debug)]
pub enum Pattern {
    Wildcard,
    EnumEmpty(String, String),
    EnumData(String, String, String),
    BindIdent(String),
}

// ---------------------------------------------------------------------------
// Expressions
// ---------------------------------------------------------------------------

/// An expression: a comparison, an enum variant or arithmetic tree, an array
/// literal, or an object literal.
#[derive(Debug)]
pub enum Expr {
    Eq(Box<Expr>, EnumVariantOrAddend),
    Gt(Box<Expr>, Addend),
    Lt(Box<Expr>, Addend),
    EnumVariant(EnumVariantOrAddend),
    Array(Array),
    Object(Object),
}

/// Either a variant construction `Enum::Variant(data?)` or an arithmetic tree.
#[derive(Debug)]
pub enum EnumVariantOrAddend {
    Addend(Addend),
    EnumVariant(String, String, Option<Box<Expr>>),
}

/// An array literal.
#[derive(Debug)]
pub struct Array {
    pub elems: Box<Elems>,
}

/// A possibly empty right-recursive expression list: array elements and
/// invocation arguments.
#[derive(Debug)]
pub enum Elems {
    Elems(Box<Elems>, Expr),
    Expr(Expr),
    Empty,
}

/// An object literal.
#[derive(Debug)]
pub struct Object {
    pub entries: Box<KeyValuePairs>,
}

/// The non-empty field list of an object literal.
#[derive(Debug)]
pub enum KeyValuePairs {
    Pairs(Box<KeyValuePairs>, KeyValuePair),
    Pair(KeyValuePair),
}

/// One object literal field.
#[derive(Debug)]
pub struct KeyValuePair {
    pub key: String,
    pub value: Expr,
}

/// The additive level of the arithmetic tree.
#[derive(Debug)]
pub enum Addend {
    Add(Box<Addend>, Factor),
    Sub(Box<Addend>, Factor),
    Factor(Factor),
}

/// The multiplicative level of the arithmetic tree.
#[derive(Debug)]
pub enum Factor {
    Mult(Box<Factor>, Call),
    Div(Box<Factor>, Call),
    Call(Call),
}

/// The call level: an invocation of a place with arguments, a bare place
/// read, or a literal value.
#[derive(Debug)]
pub enum Call {
    Invocation(PlaceExpression, Box<Elems>),
    PlaceExpression(PlaceExpression),
    Value(Value),
}

/// An assignable or readable place: a symbol, an indexed place, or a member
/// of a place.
#[derive(Debug)]
pub enum PlaceExpression {
    Symbol(String),
    Index(Box<PlaceExpression>, Box<Expr>),
    MemberAccess(Box<PlaceExpression>, String),
}

/// The four arithmetic operators.
#[derive(Debug, Clone, Copy, PartialEq, Eq, Structural)]
pub enum OpKind {
    Add,
    Sub,
    Mult,
    Div,
}

impl Expr {
    /// Wraps an already computed value as an expression that evaluates to it.
    pub fn from_value(value: Value) -> (r: Self)
        ensures
            r == Expr::EnumVariant(
                EnumVariantOrAddend::Addend(Addend::Factor(Factor::Call(Call::Value(value)))),
            ),
    {
        Expr::EnumVariant(
            EnumVariantOrAddend::Addend(Addend::Factor(Factor::Call(Call::Value(value)))),
        )
    }
}

/// The parameters in declaration order.
pub open spec fn params_to_seq(params: Params) -> Seq<Param>
    decreases params,
{
    match params {
        Params::Params(rest, last) => params_to_seq(*rest).push(last),
        Params::Param(single) => seq![single],
        Params::Empty => Seq::<Param>::empty(),
    }
}

impl Params {
    /// The parameters as an ordered vector.
    pub fn to_vec(&self) -> (r: Vec<Param>)
        ensures
            r@ == params_to_seq(*self),
        decreases self,
    {
        match self {
            Params::Params(rest, last) => {
                let mut params = rest.to_vec();
                params.push(last.clone());
                params
            },
            Params::Param(single) => {
                let mut params: Vec<Param> = Vec::new();
                params.push(single.clone());
                proof {
                    assert(params@ =~= seq![params@[0]]);
                }
                params
            },
            Params::Empty => Vec::new(),
        }
    }

    /// Rebuilds the grammar's list shape from an ordered vector.
    pub fn from_vec(params: &Vec<Param>) -> (r: Params)
        ensures
            params_to_seq(r) == params@,
    {
        let mut acc = Params::Empty;
        let mut i: usize = 0;
        while i < params.len()
            invariant
                i <= params@.len(),
                params_to_seq(acc) =~= params@.subrange(0, i as int),
            decreases params@.len() - i,
        {
            let next = params[i].clone();
            acc = match acc {
                Params::Empty => Params::Param(next),
                other => Params::Params(Box::new(other), next),
            };
            i = i + 1;
        }
        proof {
            assert(params_to_seq(acc) =~= params@);
        }
        acc
    }
}

// ---------------------------------------------------------------------------
// Clones
// ---------------------------------------------------------------------------

impl Clone for Program {
    fn clone(&self) -> (r: Self)
        ensures
            r == *self,
        decreases self,
    {
        match self {
            Program::Block(block) => Program::Block(block.clone()),
            Program::Stmts(stmts) => Program::Stmts(stmts.clone()),
        }
    }
}

impl Clone for Block {
    fn clone(&self) -> (r: Self)
        ensures
            r == *self,
        decreases self,
    {
        Block { stmts: self.stmts.clone() }
    }
}

impl Clone for Stmts {
    fn clone(&self) -> (r: Self)
        ensures
            r == *self,
        decreases self,
    {
        match self {
            Stmts::Stmts(rest, last) => Stmts::Stmts(Box::new((**rest).clone()), last.clone()),
            Stmts::Stmt(single) => Stmts::Stmt(single.clone()),
        }
    }
}

impl Clone for Stmt {
    fn clone(&self) -> (r: Self)
        ensures
            r == *self,
        decreases self,
    {
        match self {
            Stmt::Assign(place, expr) => Stmt::Assign(place.clone(), expr.clone()),
            Stmt::Break(expr) => Stmt::Break(expr.clone()),
            Stmt::Declare(ident, expr, annotation, is_mutable) => Stmt::Declare(
                ident.clone(),
                expr.clone(),
                match annotation {
                    Some(t) => Some(t.clone()),
                    None => None,
                },
                *is_mutable,
            ),
            Stmt::Enum(ident, type_param, variants) => Stmt::Enum(
                ident.clone(),
                clone_opt_string(type_param),
                variants.clone(),
            ),
            Stmt::Expr(expr) => Stmt::Expr(expr.clone()),
            Stmt::For(ident, expr, block) => Stmt::For(
                ident.clone(),
                expr.clone(),
                Box::new((**block).clone()),
            ),
            Stmt::Func(func) => Stmt::Func(func.clone()),
            Stmt::IfElseChain(chain) => Stmt::IfElseChain(Box::new((**chain).clone())),
            Stmt::Wiles(cond, block) => Stmt::Wiles(cond.clone(), Box::new((**block).clone())),
            Stmt::Struct(ident, type_param, fields) => Stmt::Struct(
                ident.clone(),
                clone_opt_string(type_param),
                fields.clone(),
            ),
            Stmt::Match(m) => Stmt::Match(Box::new((**m).clone())),
        }
    }
}

impl Clone for Func {
    fn clone(&self) -> (r: Self)
        ensures
            r == *self,
        decreases self,
    {
        Func {
            ident: self.ident.clone(),
            type_param: clone_opt_string(&self.type_param),
            params: Box::new((*self.params).clone()),
            return_type: self.return_type.clone(),
            block: Box::new((*self.block).clone()),
        }
    }
}

impl Clone for Params {
    fn clone(&self) -> (r: Self)
        ensures
            r == *self,
        decreases self,
    {
        match self {
            Params::Params(rest, last) => Params::Params(Box::new((**rest).clone()), last.clone()),
            Params::Param(single) => Params::Param(single.clone()),
            Params::Empty => Params::Empty,
        }
    }
}

impl Clone for Param {
    fn clone(&self) -> (r: Self)
        ensures
            r == *self,
        decreases self,
    {
        Param { ident: self.ident.clone(), param_type: self.param_type.clone() }
    }
}

impl Clone for VariantsDeclare {
    fn clone(&self) -> (r: Self)
        ensures
            r == *self,
        decreases self,
    {
        match self {
            VariantsDeclare::Variants(rest, last) => VariantsDeclare::Variants(
                Box::new((**rest).clone()),
                last.clone(),
            ),
            VariantsDeclare::Variant(single) => VariantsDeclare::Variant(single.clone()),
        }
    }
}

impl Clone for VariantDeclare {
    fn clone(&self) -> (r: Self)
        ensures
            r == *self,
        decreases self,
    {
        match self {
            VariantDeclare::Empty(ident) => VariantDeclare::Empty(ident.clone()),
            VariantDeclare::Data(ident, data_type) => VariantDeclare::Data(
                ident.clone(),
                data_type.clone(),
            ),
        }
    }
}

impl Clone for StructFieldsDeclare {
    fn clone(&self) -> (r: Self)
        ensures
            r == *self,
        decreases self,
    {
        match self {
            StructFieldsDeclare::Fields(rest, last) => StructFieldsDeclare::Fields(
                Box::new((**rest).clone()),
                last.clone(),
            ),
            StructFieldsDeclare::Field(single) => StructFieldsDeclare::Field(single.clone()),
        }
    }
}

impl Clone for StructLiteralField {
    fn clone(&self) -> (r: Self)
        ensures
            r == *self,
        decreases self,
    {
        StructLiteralField { ident: self.ident.clone(), field_type: self.field_type.clone() }
    }
}

impl Clone for IfElseChain {
    fn clone(&self) -> (r: Self)
        ensures
            r == *self,
        decreases self,
    {
        IfElseChain {
            cases: self.cases.clone(),
            else_block: match &self.else_block {
                Some(block) => Some(Box::new((**block).clone())),
                None => None,
            },
        }
    }
}

impl Clone for IfCases {
    fn clone(&self) -> (r: Self)
        ensures
            r == *self,
        decreases self,
    {
        match self {
            IfCases::Cases(first, rest) => IfCases::Cases(first.clone(), Box::new((**rest).clone())),
            IfCases::Case(single) => IfCases::Case(single.clone()),
        }
    }
}

impl Clone for IfCase {
    fn clone(&self) -> (r: Self)
        ensures
            r == *self,
        decreases self,
    {
        IfCase { cond: self.cond.clone(), block: Box::new((*self.block).clone()) }
    }
}

impl Clone for Match {
    fn clone(&self) -> (r: Self)
        ensures
            r == *self,
        decreases self,
    {
        Match { subject: self.subject.clone(), arms: self.arms.clone() }
    }
}

impl Clone for MatchArms {
    fn clone(&self) -> (r: Self)
        ensures
            r == *self,
        decreases self,
    {
        match self {
            MatchArms::Arms(first, rest) => MatchArms::Arms(
                first.clone(),
                Box::new((**rest).clone()),
            ),
            MatchArms::Arm(single) => MatchArms::Arm(single.clone()),
        }
    }
}

impl Clone for MatchArm {
    fn clone(&self) -> (r: Self)
        ensures
            r == *self,
        decreases self,
    {
        MatchArm { pattern: self.pattern.clone(), body: Box::new((*self.body).clone()) }
    }
}

impl Clone for Pattern {
    fn clone(&self) -> (r: Self)
        ensures
            r == *self,
    {
        match self {
            Pattern::Wildcard => Pattern::Wildcard,
            Pattern::EnumEmpty(enum_ident, variant_ident) => Pattern::EnumEmpty(
                enum_ident.clone(),
                variant_ident.clone(),
            ),
            Pattern::EnumData(enum_ident, variant_ident, bind_ident) => Pattern::EnumData(
                enum_ident.clone(),
                variant_ident.clone(),
                bind_ident.clone(),
            ),
            Pattern::BindIdent(ident) => Pattern::BindIdent(ident.clone()),
        }
    }
}

impl Clone for Expr {
    fn clone(&self) -> (r: Self)
        ensures
            r == *self,
        decreases self,
    {
        match self {
            Expr::Eq(left, right) => Expr::Eq(Box::new((**left).clone()), right.clone()),
            Expr::Gt(left, right) => Expr::Gt(Box::new((**left).clone()), right.clone()),
            Expr::Lt(left, right) => Expr::Lt(Box::new((**left).clone()), right.clone()),
            Expr::EnumVariant(inner) => Expr::EnumVariant(inner.clone()),
            Expr::Array(array) => Expr::Array(array.clone()),
            Expr::Object(object) => Expr::Object(object.clone()),
        }
    }
}

impl Clone for EnumVariantOrAddend {
    fn clone(&self) -> (r: Self)
        ensures
            r == *self,
        decreases self,
    {
        match self {
            EnumVariantOrAddend::Addend(addend) => EnumVariantOrAddend::Addend(addend.clone()),
            EnumVariantOrAddend::EnumVariant(enum_ident, variant_ident, data) => {
                EnumVariantOrAddend::EnumVariant(
                    enum_ident.clone(),
                    variant_ident.clone(),
                    match data {
                        Some(inner) => Some(Box::new((**inner).clone())),
                        None => None,
                    },
                )
            },
        }
    }
}

impl Clone for Array {
    fn clone(&self) -> (r: Self)
        ensures
            r == *self,
        decreases self,
    {
        Array { elems: Box::new((*self.elems).clone()) }
    }
}

impl Clone for Elems {
    fn clone(&self) -> (r: Self)
        ensures
            r == *self,
        decreases self,
    {
        match self {
            Elems::Elems(rest, last) => Elems::Elems(Box::new((**rest).clone()), last.clone()),
            Elems::Expr(single) => Elems::Expr(single.clone()),
            Elems::Empty => Elems::Empty,
        }
    }
}

impl Clone for Object {
    fn clone(&self) -> (r: Self)
        ensures
            r == *self,
        decreases self,
    {
        Object { entries: Box::new((*self.entries).clone()) }
    }
}

impl Clone for KeyValuePairs {
    fn clone(&self) -> (r: Self)
        ensures
            r == *self,
        decreases self,
    {
        match self {
            KeyValuePairs::Pairs(rest, last) => KeyValuePairs::Pairs(
                Box::new((**rest).clone()),
                last.clone(),
            ),
            KeyValuePairs::Pair(single) => KeyValuePairs::Pair(single.clone()),
        }
    }
}

impl Clone for KeyValuePair {
    fn clone(&self) -> (r: Self)
        ensures
            r == *self,
        decreases self,
    {
        KeyValuePair { key: self.key.clone(), value: self.value.clone() }
    }
}

impl Clone for Addend {
    fn clone(&self) -> (r: Self)
        ensures
            r == *self,
        decreases self,
    {
        match self {
            Addend::Add(left, right) => Addend::Add(Box::new((**left).clone()), right.clone()),
            Addend::Sub(left, right) => Addend::Sub(Box::new((**left).clone()), right.clone()),
            Addend::Factor(factor) => Addend::Factor(factor.clone()),
        }
    }
}

impl Clone for Factor {
    fn clone(&self) -> (r: Self)
        ensures
            r == *self,
        decreases self,
    {
        match self {
            Factor::Mult(left, right) => Factor::Mult(Box::new((**left).clone()), right.clone()),
            Factor::Div(left, right) => Factor::Div(Box::new((**left).clone()), right.clone()),
            Factor::Call(call) => Factor::Call(call.clone()),
        }
    }
}

impl Clone for Call {
    fn clone(&self) -> (r: Self)
        ensures
            r == *self,
        decreases self,
    {
        match self {
            Call::Invocation(place, args) => Call::Invocation(
                place.clone(),
                Box::new((**args).clone()),
            ),
            Call::PlaceExpression(place) => Call::PlaceExpression(place.clone()),
            Call::Value(value) => Call::Value(value.clone()),
        }
    }
}

impl Clone for PlaceExpression {
    fn clone(&self) -> (r: Self)
        ensures
            r == *self,
        decreases self,
    {
        match self {
            PlaceExpression::Symbol(ident) => PlaceExpression::Symbol(ident.clone()),
            PlaceExpression::Index(place, index) => PlaceExpression::Index(
                Box::new((**place).clone()),
                Box::new((**index).clone()),
            ),
            PlaceExpression::MemberAccess(place, member) => PlaceExpression::MemberAccess(
                Box::new((**place).clone()),
                member.clone(),
            ),
        }
    }
}

} // verus!
