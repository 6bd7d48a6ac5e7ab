use vstd::prelude::*;

verus! {

/// The kind of a runtime failure.  Every evaluation primitive reports the
/// first failure it meets; the evaluator aborts the current expression,
/// block, and program as soon as one appears.
#[derive(Debug, Clone, Copy, PartialEq, Eq, Structural)]
pub enum RuntimeErrorKind {
    /// An identifier was looked up and found in no scope on the parent chain.
    UnknownIdent,
    /// A declaration re-used an identifier already bound in the local scope.
    AlreadyBound,
    /// An assignment targeted a binding declared without `let`.
    Immutable,
    /// A value's inferred type is not assignable to the expected type.
    TypeMismatch,
    /// A call supplied a number of arguments different from the parameter count.
    ArityMismatch,
    /// A function body produced a value not assignable to the declared return type.
    ReturnTypeMismatch,
    /// An index read or write fell outside the bounds of the array.
    IndexOutOfRange,
    /// A member access named a field the object does not carry.
    UnknownMember,
    /// The divisor of `/` evaluated to zero.
    DivideByZero,
    /// An operator was applied to operand types it is not defined for.
    OperationUnsupported,
    /// A `match` ran out of arms without any pattern accepting the value.
    MatchNoArm,
    /// A declaration or assignment tried to store a `Void` value.
    VoidAssignment,
    /// An invocation targeted a value that is not a function.
    NotCallable,
    /// An index expression targeted a value that is neither array nor object.
    NotIndexable,
    /// A variant construction named a type that is not an enum.
    NotAnEnum,
    /// A concrete element type was demanded of an empty array.
    TypeUnknown,
    /// An arithmetic result fell outside the range of the number type.
    NumericOverflow,
    /// The evaluation budget ran out before the program finished.
    BudgetExceeded,
}

/// A runtime error: a structured kind plus a single-line human message.
#[derive(Debug)]
pub struct RuntimeError {
    pub kind: RuntimeErrorKind,
    pub message: String,
}

impl RuntimeError {
    /// Builds an error of the given kind carrying the given message.
    pub fn new(kind: RuntimeErrorKind, message: &str) -> (r: RuntimeError)
        ensures
            r.kind == kind,
            r.message@ == message@,
    {
        RuntimeError { kind, message: message.to_owned() }
    }
}

impl Clone for RuntimeError {
    fn clone(&self) -> (r: Self)
        ensures
            r == *self,
    {
        RuntimeError { kind: self.kind, message: self.message.clone() }
    }
}

} // verus!
