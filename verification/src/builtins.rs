use vstd::prelude::*;

use crate::ast::Param;
use crate::ast::Params;
use crate::display::to_display_string;
use crate::display::value_display;
use crate::display::DISPLAY_FUEL;
use crate::errors::RuntimeError;
use crate::errors::RuntimeErrorKind;
use crate::io_context::IoContext;
use crate::scopes::find_entry;
use crate::scopes::Scopes;
use crate::types::PrimitiveType;
use crate::types::TypeLiteral;
use crate::types::TypeLiteralVariant;
use crate::values::FuncValue;
use crate::values::FuncVariant;
use crate::values::Value;

verus! {

/// The bodies available to built-in functions.  Each is dispatched by the
/// evaluator when the corresponding closure is invoked.
#[derive(Debug, Clone, Copy, PartialEq, Eq, Structural)]
pub enum BuiltinKind {
    /// Writes the display form of its argument as one line of output.
    Print,
    /// Reads one line of input and yields it as a string.
    Read,
    /// Reads one line of input and parses it as a number.
    ReadNum,
    /// Discards its argument and yields `Void`.
    Void,
}

/// A closure value for the built-in that swallows a number and yields
/// `Void`, captured at the root scope.
pub fn get_void_block() -> (r: FuncValue)
    ensures
        r.block == Box::new(FuncVariant::Builtin(BuiltinKind::Void)),
        r.closure_scope == 0,
        r.type_param is None,
        crate::ast::params_to_seq(*r.params).len() == 1,
        crate::ast::params_to_seq(*r.params)[0].ident@ == "_"@,
        crate::ast::params_to_seq(*r.params)[0].param_type == TypeLiteralVariant::Type(
            TypeLiteral::PrimitiveType(PrimitiveType::Number),
        ),
        r.return_type == TypeLiteralVariant::Type(TypeLiteral::PrimitiveType(PrimitiveType::Void)),
{
    let param = Param {
        ident: "_".to_owned(),
        param_type: TypeLiteralVariant::Type(TypeLiteral::PrimitiveType(PrimitiveType::Number)),
    };
    let return_type = TypeLiteralVariant::Type(TypeLiteral::PrimitiveType(PrimitiveType::Void));
    FuncValue {
        params: Box::new(Params::Param(param)),
        return_type,
        type_param: None,
        block: Box::new(FuncVariant::Builtin(BuiltinKind::Void)),
        closure_scope: 0,
    }
}

/// Installs one built-in function into the given scope, as an immutable
/// closure binding of the bare function type, unless the name is already
/// taken locally.
pub fn register_builtin(
    scopes: &mut Scopes,
    current_scope: usize,
    ident: &str,
    params: Params,
    return_type: TypeLiteralVariant,
    kind: BuiltinKind,
) -> (r: Result<Value, RuntimeError>)
    requires
        old(scopes).wf(),
        current_scope < old(scopes).scopes@.len(),
    ensures
        final(scopes).wf(),
        final(scopes).scopes@.len() == old(scopes).scopes@.len(),
        if find_entry(old(scopes).scopes@[current_scope as int].values@, ident@) is Some {
            (r matches Err(e) && e.kind == RuntimeErrorKind::AlreadyBound)
                && crate::scopes::unchanged_env(*old(scopes), *final(scopes))
        } else {
            (r matches Ok(v) && v == Value::Void) && crate::interpreter::value_binding_added(
                *old(scopes),
                *final(scopes),
                current_scope as int,
                ident@,
                (crate::scopes::Binding {
                    value: Value::Func(
                        (FuncValue {
                            params: Box::new(params),
                            return_type,
                            type_param: None,
                            block: Box::new(FuncVariant::Builtin(kind)),
                            closure_scope: current_scope,
                        }),
                    ),
                    declared: crate::types::TypeVariant::Type(
                        crate::types::NalaType::PrimitiveType(PrimitiveType::Func),
                    ),
                    is_mutable: false,
                }),
            )
        },
{
    let func = FuncValue {
        params: Box::new(params),
        return_type,
        type_param: None,
        block: Box::new(FuncVariant::Builtin(kind)),
        closure_scope: current_scope,
    };
    let declared = crate::types::TypeVariant::Type(
        crate::types::NalaType::PrimitiveType(PrimitiveType::Func),
    );
    let r = scopes.add_binding(ident, current_scope, declared, Value::Func(func), false);
    proof {
        if r is Ok {
            let before = scopes.scopes@[current_scope as int].values@.drop_last();
            let entry = scopes.scopes@[current_scope as int].values@.last();
            crate::scopes::lemma_find_entry_appended(before, entry, ident@);
            assert(before.push(entry) =~= scopes.scopes@[current_scope as int].values@);
        }
    }
    r
}

/// Whether a scope binds the given name immutably to a closure carrying the
/// given built-in body.
pub open spec fn builtin_bound(sc: Scopes, cur: int, name: Seq<char>, kind: BuiltinKind) -> bool {
    match find_entry(sc.scopes@[cur].values@, name) {
        Some(b) => !b.is_mutable && match b.value {
            Value::Func(f) => f.block == Box::new(FuncVariant::Builtin(kind)) && f.type_param
                is None && f.closure_scope as int == cur,
            _ => false,
        },
        None => false,
    }
}

/// Installs the built-in library into a freshly created scope: afterwards
/// `print`, `read`, `readnum` and `void` are bound there, immutably, to the
/// corresponding built-in bodies, and nothing else is touched.
pub fn register_builtins(scopes: &mut Scopes, current_scope: usize)
    requires
        old(scopes).wf(),
        current_scope < old(scopes).scopes@.len(),
        old(scopes).scopes@[current_scope as int].values@.len() == 0,
    ensures
        final(scopes).wf(),
        final(scopes).scopes@.len() == old(scopes).scopes@.len(),
        final(scopes).arrays@ == old(scopes).arrays@,
        final(scopes).objects@ == old(scopes).objects@,
        forall|j: int|
            0 <= j < old(scopes).scopes@.len() && j != current_scope ==> final(scopes).scopes@[j]
                == old(scopes).scopes@[j],
        final(scopes).scopes@[current_scope as int].parent == old(scopes).scopes@[
            current_scope as int
        ].parent,
        final(scopes).scopes@[current_scope as int].types == old(scopes).scopes@[
            current_scope as int
        ].types,
        final(scopes).scopes@[current_scope as int].values@.len() == 4,
        builtin_bound(*final(scopes), current_scope as int, "print"@, BuiltinKind::Print),
        builtin_bound(*final(scopes), current_scope as int, "read"@, BuiltinKind::Read),
        builtin_bound(*final(scopes), current_scope as int, "readnum"@, BuiltinKind::ReadNum),
        builtin_bound(*final(scopes), current_scope as int, "void"@, BuiltinKind::Void),
{
    proof {
        reveal_strlit("print");
        reveal_strlit("read");
        reveal_strlit("readnum");
        reveal_strlit("void");
        assert("print"@.len() == 5 && "read"@.len() == 4 && "readnum"@.len() == 7 && "void"@.len()
            == 4);
        assert("read"@[0] == 'r' && "void"@[0] == 'v');
    }
    let ghost cur = current_scope as int;
    let ghost s0 = *scopes;
    let any_param = Param {
        ident: "message".to_owned(),
        param_type: TypeLiteralVariant::Type(TypeLiteral::PrimitiveType(PrimitiveType::Any)),
    };
    let _ = register_builtin(
        scopes,
        current_scope,
        "print",
        Params::Param(any_param),
        TypeLiteralVariant::Type(TypeLiteral::PrimitiveType(PrimitiveType::Void)),
        BuiltinKind::Print,
    );
    let ghost s1 = *scopes;
    proof {
        let e1 = s1.scopes@[cur].values@.last();
        crate::scopes::lemma_find_entry_push_other(s0.scopes@[cur].values@, e1, "read"@);
        crate::scopes::lemma_find_entry_push_other(s0.scopes@[cur].values@, e1, "readnum"@);
        crate::scopes::lemma_find_entry_push_other(s0.scopes@[cur].values@, e1, "void"@);
        assert(s0.scopes@[cur].values@.push(e1) =~= s1.scopes@[cur].values@);
    }
    let _ = register_builtin(
        scopes,
        current_scope,
        "read",
        Params::Empty,
        TypeLiteralVariant::Type(TypeLiteral::PrimitiveType(PrimitiveType::String)),
        BuiltinKind::Read,
    );
    let ghost s2 = *scopes;
    proof {
        let e2 = s2.scopes@[cur].values@.last();
        crate::scopes::lemma_find_entry_push_other(s1.scopes@[cur].values@, e2, "readnum"@);
        crate::scopes::lemma_find_entry_push_other(s1.scopes@[cur].values@, e2, "void"@);
        crate::scopes::lemma_find_entry_push_other(s1.scopes@[cur].values@, e2, "print"@);
        assert(s1.scopes@[cur].values@.push(e2) =~= s2.scopes@[cur].values@);
    }
    let _ = register_builtin(
        scopes,
        current_scope,
        "readnum",
        Params::Empty,
        TypeLiteralVariant::Type(TypeLiteral::PrimitiveType(PrimitiveType::Number)),
        BuiltinKind::ReadNum,
    );
    let ghost s3 = *scopes;
    proof {
        let e3 = s3.scopes@[cur].values@.last();
        crate::scopes::lemma_find_entry_push_other(s2.scopes@[cur].values@, e3, "void"@);
        crate::scopes::lemma_find_entry_push_other(s2.scopes@[cur].values@, e3, "print"@);
        crate::scopes::lemma_find_entry_push_other(s2.scopes@[cur].values@, e3, "read"@);
        assert(s2.scopes@[cur].values@.push(e3) =~= s3.scopes@[cur].values@);
    }
    let num_param = Param {
        ident: "_".to_owned(),
        param_type: TypeLiteralVariant::Type(TypeLiteral::PrimitiveType(PrimitiveType::Number)),
    };
    let _ = register_builtin(
        scopes,
        current_scope,
        "void",
        Params::Param(num_param),
        TypeLiteralVariant::Type(TypeLiteral::PrimitiveType(PrimitiveType::Void)),
        BuiltinKind::Void,
    );
    proof {
        let s4 = *scopes;
        let e4 = s4.scopes@[cur].values@.last();
        crate::scopes::lemma_find_entry_push_other(s3.scopes@[cur].values@, e4, "print"@);
        crate::scopes::lemma_find_entry_push_other(s3.scopes@[cur].values@, e4, "read"@);
        crate::scopes::lemma_find_entry_push_other(s3.scopes@[cur].values@, e4, "readnum"@);
        assert(s3.scopes@[cur].values@.push(e4) =~= s4.scopes@[cur].values@);
    }
}

// ---------------------------------------------------------------------------
// Parsing a number from an input line
// ---------------------------------------------------------------------------

pub open spec fn is_digit(c: char) -> bool {
    '0' <= c && c <= '9'
}

pub open spec fn digit_val(c: char) -> int {
    c as int - '0' as int
}

/// The value of a non-empty all-digit sequence, most significant first.
pub open spec fn digits_value(s: Seq<char>) -> int
    decreases s.len(),
{
    if s.len() <= 1 {
        digit_val(s[0])
    } else {
        digits_value(s.drop_last()) * 10 + digit_val(s.last())
    }
}

pub open spec fn all_digits(s: Seq<char>) -> bool {
    forall|i: int| 0 <= i < s.len() ==> is_digit(#[trigger] s[i])
}

/// What a line parses to as a number: an optional minus sign followed by
/// digits, provided the value is representable.
pub open spec fn spec_parse_num(s: Seq<char>) -> Option<i64> {
    if s.len() > 0 && all_digits(s) {
        if digits_value(s) <= i64::MAX {
            Some(digits_value(s) as i64)
        } else {
            None
        }
    } else if s.len() > 1 && s[0] == '-' && all_digits(s.drop_first()) {
        if digits_value(s.drop_first()) <= i64::MAX {
            Some((-digits_value(s.drop_first())) as i64)
        } else {
            None
        }
    } else {
        None
    }
}

/// Parses the digits of `s` from index `from` on, accumulating their value.
fn parse_digits(s: &str, from: usize) -> (r: Option<i64>)
    requires
        from < s@.len(),
    ensures
        ({
            let digits = s@.skip(from as int);
            match r {
                Some(n) => all_digits(digits) && digits_value(digits) <= i64::MAX && n
                    == digits_value(digits) && n >= 0,
                None => !(all_digits(digits) && digits_value(digits) <= i64::MAX),
            }
        }),
{
    let ghost digits = s@.skip(from as int);
    let len = s.unicode_len();
    let mut value: i64 = 0;
    let mut i: usize = from;
    while i < len
        invariant
            from <= i <= len,
            len == s@.len(),
            from < len,
            digits == s@.skip(from as int),
            all_digits(s@.subrange(from as int, i as int)),
            i > from ==> value == digits_value(s@.subrange(from as int, i as int)),
            i == from ==> value == 0,
            value >= 0,
        decreases len - i,
    {
        let c = s.get_char(i);
        proof {
            assert(digits[i - from] == s@[i as int]);
        }
        if !('0' <= c && c <= '9') {
            proof {
                lemma_not_all_digits(digits, i - from);
            }
            return None;
        }
        let d = (c as u32) - ('0' as u32);
        let ghost pre = s@.subrange(from as int, i as int);
        let ghost ext = s@.subrange(from as int, i as int + 1);
        proof {
            assert(ext.drop_last() =~= pre);
            assert(ext.last() == s@[i as int]);
            assert(all_digits(ext)) by {
                assert(forall|j: int| 0 <= j < ext.len() ==> ext[j] == s@[from + j]);
            }
            if i > from {
                assert(digits_value(ext) == value * 10 + d);
            } else {
                assert(ext.len() == 1);
                assert(digits_value(ext) == d);
            }
            assert(ext =~= digits.subrange(0, i - from + 1));
        }
        let next = match value.checked_mul(10) {
            Some(v) => match v.checked_add(d as i64) {
                Some(v2) => v2,
                None => {
                    proof {
                        lemma_digits_value_grows(digits, i - from);
                    }
                    return None;
                },
            },
            None => {
                proof {
                    lemma_digits_value_grows(digits, i - from);
                }
                return None;
            },
        };
        value = next;
        i = i + 1;
    }
    proof {
        assert(s@.subrange(from as int, len as int) =~= digits);
        assert(i > from);
    }
    Some(value)
}

/// A non-digit inside the run refutes `all_digits`.
proof fn lemma_not_all_digits(digits: Seq<char>, at: int)
    requires
        0 <= at < digits.len(),
        !is_digit(digits[at]),
    ensures
        !all_digits(digits),
{
}

/// The value of a longer digit run dominates the value of any prefix, so an
/// unrepresentable prefix makes the whole run unrepresentable.
proof fn lemma_digits_value_grows(digits: Seq<char>, upto: int)
    requires
        0 <= upto < digits.len(),
        all_digits(digits.subrange(0, upto + 1)),
    ensures
        all_digits(digits) ==> digits_value(digits) >= digits_value(digits.subrange(0, upto + 1)),
    decreases digits.len(),
{
    if all_digits(digits) {
        if upto + 1 == digits.len() {
            assert(digits.subrange(0, upto + 1) =~= digits);
        } else {
            assert(digits.drop_last().subrange(0, upto + 1) =~= digits.subrange(0, upto + 1));
            assert(all_digits(digits.drop_last())) by {
                assert(forall|j: int|
                    0 <= j < digits.len() - 1 ==> digits.drop_last()[j] == digits[j]);
            }
            lemma_digits_value_nonneg(digits.drop_last());
            lemma_digits_value_grows(digits.drop_last(), upto);
            assert(digits_value(digits) == digits_value(digits.drop_last()) * 10 + digit_val(
                digits.last(),
            ));
            assert(is_digit(digits.last()));
            assert(digits_value(digits.drop_last()) * 10 >= digits_value(digits.drop_last())) by (nonlinear_arith)
                requires
                    digits_value(digits.drop_last()) >= 0,
            ;
        }
    }
}

proof fn lemma_digits_value_nonneg(digits: Seq<char>)
    requires
        digits.len() > 0,
        all_digits(digits),
    ensures
        digits_value(digits) >= 0,
    decreases digits.len(),
{
    if digits.len() > 1 {
        assert(all_digits(digits.drop_last())) by {
            assert(forall|j: int| 0 <= j < digits.len() - 1 ==> digits.drop_last()[j] == digits[j]);
        }
        lemma_digits_value_nonneg(digits.drop_last());
        assert(digits_value(digits.drop_last()) * 10 >= 0) by (nonlinear_arith)
            requires
                digits_value(digits.drop_last()) >= 0,
        ;
    }
}

/// Parses a line as a number: an optional minus sign followed by decimal
/// digits.
pub fn parse_num(s: &str) -> (r: Option<i64>)
    ensures
        r == spec_parse_num(s@),
{
    let len = s.unicode_len();
    if len == 0 {
        return None;
    }
    let first = s.get_char(0);
    if first == '-' {
        proof {
            assert(!is_digit(s@[0]));
        }
        if len == 1 {
            return None;
        }
        proof {
            assert(s@.drop_first() =~= s@.skip(1));
        }
        match parse_digits(s, 1) {
            Some(n) => Some(-n),
            None => None,
        }
    } else {
        proof {
            assert(s@.skip(0) =~= s@);
            assert(s@[0] != '-');
        }
        parse_digits(s, 0)
    }
}

// ---------------------------------------------------------------------------
// Trimming input lines
// ---------------------------------------------------------------------------

pub open spec fn is_line_ws(c: char) -> bool {
    c == ' ' || c == '\t' || c == '\n' || c == '\r'
}

pub open spec fn trim_front(s: Seq<char>) -> Seq<char>
    decreases s.len(),
{
    if s.len() > 0 && is_line_ws(s[0]) {
        trim_front(s.drop_first())
    } else {
        s
    }
}

pub open spec fn trim_back(s: Seq<char>) -> Seq<char>
    decreases s.len(),
{
    if s.len() > 0 && is_line_ws(s.last()) {
        trim_back(s.drop_last())
    } else {
        s
    }
}

/// A line with its surrounding whitespace removed, as the built-in readers
/// hand input to the program.
pub open spec fn trim_ws(s: Seq<char>) -> Seq<char> {
    trim_back(trim_front(s))
}

/// Removes leading and trailing whitespace from a line.
pub fn trim_line(s: &str) -> (r: String)
    ensures
        r@ == trim_ws(s@),
{
    let n = s.unicode_len();
    let mut lo: usize = 0;
    let mut scanning = true;
    proof {
        assert(s@.skip(0) =~= s@);
    }
    while lo < n && scanning
        invariant
            lo <= n,
            n == s@.len(),
            trim_front(s@) == trim_front(s@.skip(lo as int)),
            !scanning ==> lo < n && !is_line_ws(s@[lo as int]),
        decreases n - lo, if scanning {
            1int
        } else {
            0int
        },
    {
        let c = s.get_char(lo);
        if c == ' ' || c == '\t' || c == '\n' || c == '\r' {
            proof {
                assert(s@.skip(lo as int)[0] == s@[lo as int]);
                assert(s@.skip(lo as int).drop_first() =~= s@.skip(lo as int + 1));
            }
            lo = lo + 1;
        } else {
            scanning = false;
        }
    }
    proof {
        if lo < n {
            assert(s@.skip(lo as int)[0] == s@[lo as int]);
        }
        assert(trim_front(s@) == s@.skip(lo as int));
        assert(s@.subrange(lo as int, n as int) =~= s@.skip(lo as int));
    }
    let mut hi: usize = n;
    let mut scanning_back = true;
    while hi > lo && scanning_back
        invariant
            lo <= hi <= n,
            n == s@.len(),
            trim_back(s@.skip(lo as int)) == trim_back(s@.subrange(lo as int, hi as int)),
            !scanning_back ==> hi > lo && !is_line_ws(s@[hi as int - 1]),
        decreases hi, if scanning_back {
            1int
        } else {
            0int
        },
    {
        let c = s.get_char(hi - 1);
        if c == ' ' || c == '\t' || c == '\n' || c == '\r' {
            proof {
                assert(s@.subrange(lo as int, hi as int).last() == s@[hi as int - 1]);
                assert(s@.subrange(lo as int, hi as int).drop_last() =~= s@.subrange(
                    lo as int,
                    hi as int - 1,
                ));
            }
            hi = hi - 1;
        } else {
            scanning_back = false;
        }
    }
    proof {
        if hi > lo {
            assert(s@.subrange(lo as int, hi as int).last() == s@[hi as int - 1]);
        }
        assert(trim_back(s@.subrange(lo as int, hi as int)) == s@.subrange(lo as int, hi as int));
    }
    s.substring_char(lo, hi).to_owned()
}

// ---------------------------------------------------------------------------
// Dispatching a built-in body
// ---------------------------------------------------------------------------

/// Runs a built-in body on already evaluated arguments.  `print` writes the
/// display form of its argument; `read` yields the next input line;
/// `readnum` additionally parses it as a number; `void` discards.
pub fn call_builtin<C: IoContext>(
    kind: BuiltinKind,
    args: &Vec<Value>,
    scopes: &Scopes,
    ctx: &mut C,
) -> (r: Result<Value, RuntimeError>)
    ensures
        match kind {
            BuiltinKind::Print => {
                &&& args@.len() >= 1 ==> {
                    &&& r matches Ok(v) && v == Value::Void
                    &&& final(ctx).outputs() == old(ctx).outputs().push(
                        value_display(*scopes, args@[0], DISPLAY_FUEL as nat),
                    )
                    &&& final(ctx).inputs() == old(ctx).inputs()
                }
                &&& args@.len() == 0 ==> (r matches Err(e) && e.kind
                    == RuntimeErrorKind::ArityMismatch) && final(ctx).outputs() == old(
                    ctx,
                ).outputs() && final(ctx).inputs() == old(ctx).inputs()
            },
            BuiltinKind::Read => {
                &&& final(ctx).outputs() == old(ctx).outputs()
                &&& r matches Ok(v) && v is String
                &&& old(ctx).inputs().len() > 0 ==> (r matches Ok(Value::String(line)) && line@
                    == trim_ws(old(ctx).inputs()[0])) && final(ctx).inputs() == old(
                    ctx,
                ).inputs().drop_first()
            },
            BuiltinKind::ReadNum => {
                &&& final(ctx).outputs() == old(ctx).outputs()
                &&& r matches Ok(v) ==> v is Num
                &&& r matches Err(e) ==> e.kind == RuntimeErrorKind::TypeMismatch
                &&& old(ctx).inputs().len() > 0 ==> final(ctx).inputs() == old(
                    ctx,
                ).inputs().drop_first() && (match spec_parse_num(trim_ws(old(ctx).inputs()[0])) {
                    Some(n) => r == Ok::<Value, RuntimeError>(Value::Num(n)),
                    None => r is Err,
                })
            },
            BuiltinKind::Void => r matches Ok(v) && v == Value::Void && final(ctx).outputs()
                == old(ctx).outputs() && final(ctx).inputs() == old(ctx).inputs(),
        },
{
    match kind {
        BuiltinKind::Print => {
            if args.len() >= 1 {
                let rendered = to_display_string(scopes, &args[0]);
                ctx.print(rendered.as_str());
                Ok(Value::Void)
            } else {
                Err(
                    RuntimeError::new(
                        RuntimeErrorKind::ArityMismatch,
                        "print takes one argument.",
                    ),
                )
            }
        },
        BuiltinKind::Read => {
            let line = ctx.read_line();
            let trimmed = trim_line(line.as_str());
            Ok(Value::String(trimmed))
        },
        BuiltinKind::ReadNum => {
            let line = ctx.read_line();
            let trimmed = trim_line(line.as_str());
            match parse_num(trimmed.as_str()) {
                Some(n) => Ok(Value::Num(n)),
                None => Err(
                    RuntimeError::new(
                        RuntimeErrorKind::TypeMismatch,
                        "Could not parse input as a number.",
                    ),
                ),
            }
        },
        BuiltinKind::Void => Ok(Value::Void),
    }
}

} // verus!
