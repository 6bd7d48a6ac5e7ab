use vstd::prelude::*;

use crate::ast::Addend;
use crate::ast::Array;
use crate::ast::Block;
use crate::ast::Call;
use crate::ast::Elems;
use crate::ast::EnumVariantOrAddend;
use crate::ast::Expr;
use crate::ast::Factor;
use crate::ast::Func;
use crate::ast::IfCase;
use crate::ast::IfCases;
use crate::ast::IfElseChain;
use crate::ast::KeyValuePair;
use crate::ast::KeyValuePairs;
use crate::ast::Match;
use crate::ast::MatchArm;
use crate::ast::MatchArms;
use crate::ast::Object;
use crate::ast::Param;
use crate::ast::Params;
use crate::ast::Pattern;
use crate::ast::PlaceExpression;
use crate::ast::Program;
use crate::ast::Stmt;
use crate::ast::Stmts;
use crate::ast::StructFieldsDeclare;
use crate::ast::StructLiteralField;
use crate::ast::VariantDeclare;
use crate::ast::VariantsDeclare;
use crate::builtins::parse_num;
use crate::types::str_eq;
use crate::types::PrimitiveType;
use crate::types::TypeLiteral;
use crate::types::TypeLiteralVariant;
use crate::types::TypeLiterals;
use crate::values::Value;

verus! {

/// One lexical token of the surface language.
#[derive(Debug)]
pub enum Token {
    Ident(String),
    NumLiteral(i64),
    StringLiteral(String),
    LBrace,
    RBrace,
    LParen,
    RParen,
    LBracket,
    RBracket,
    LessThan,
    GreaterThan,
    Assign,
    EqEq,
    Plus,
    Minus,
    Star,
    Slash,
    Comma,
    Colon,
    DoubleColon,
    Semi,
    Dot,
    FatArrow,
}

impl Clone for Token {
    fn clone(&self) -> (r: Self)
        ensures
            r == *self,
    {
        match self {
            Token::Ident(s) => Token::Ident(s.clone()),
            Token::NumLiteral(n) => Token::NumLiteral(*n),
            Token::StringLiteral(s) => Token::StringLiteral(s.clone()),
            Token::LBrace => Token::LBrace,
            Token::RBrace => Token::RBrace,
            Token::LParen => Token::LParen,
            Token::RParen => Token::RParen,
            Token::LBracket => Token::LBracket,
            Token::RBracket => Token::RBracket,
            Token::LessThan => Token::LessThan,
            Token::GreaterThan => Token::GreaterThan,
            Token::Assign => Token::Assign,
            Token::EqEq => Token::EqEq,
            Token::Plus => Token::Plus,
            Token::Minus => Token::Minus,
            Token::Star => Token::Star,
            Token::Slash => Token::Slash,
            Token::Comma => Token::Comma,
            Token::Colon => Token::Colon,
            Token::DoubleColon => Token::DoubleColon,
            Token::Semi => Token::Semi,
            Token::Dot => Token::Dot,
            Token::FatArrow => Token::FatArrow,
        }
    }
}

spec fn is_ident_start(c: char) -> bool {
    ('a' <= c && c <= 'z') || ('A' <= c && c <= 'Z') || c == '_'
}

spec fn is_ident_char(c: char) -> bool {
    is_ident_start(c) || ('0' <= c && c <= '9')
}

/// Splits source text into tokens.  Identifiers, number literals, string
/// literals in single quotes, and the punctuation of the grammar are
/// recognised; anything else is reported as an invalid token.
pub fn lex(code: &str) -> (r: Result<Vec<Token>, String>) {
    let n = code.unicode_len();
    let mut tokens: Vec<Token> = Vec::new();
    let mut i: usize = 0;
    while i < n
        invariant
            i <= n,
            n == code@.len(),
        decreases n - i,
    {
        let c = code.get_char(i);
        if c == ' ' || c == '\t' || c == '\n' || c == '\r' {
            i = i + 1;
        } else if ('a' <= c && c <= 'z') || ('A' <= c && c <= 'Z') || c == '_' {
            let start = i;
            i = i + 1;
            while i < n
                invariant
                    start < i <= n,
                    n == code@.len(),
                decreases n - i,
            {
                let k = code.get_char(i);
                if (('a' <= k && k <= 'z') || ('A' <= k && k <= 'Z') || k == '_') || ('0' <= k
                    && k <= '9') {
                    i = i + 1;
                } else {
                    break ;
                }
            }
            let word = code.substring_char(start, i).to_owned();
            tokens.push(Token::Ident(word));
        } else if '0' <= c && c <= '9' {
            let start = i;
            i = i + 1;
            while i < n
                invariant
                    start < i <= n,
                    n == code@.len(),
                decreases n - i,
            {
                let k = code.get_char(i);
                if '0' <= k && k <= '9' {
                    i = i + 1;
                } else {
                    break ;
                }
            }
            let digits = code.substring_char(start, i);
            match parse_num(digits) {
                Some(value) => {
                    tokens.push(Token::NumLiteral(value));
                },
                None => {
                    return Err("Number literal is not representable.".to_owned());
                },
            }
        } else if c == '\'' {
            let start = i + 1;
            i = i + 1;
            let mut closed = false;
            while i < n && !closed
                invariant
                    start <= i <= n,
                    n == code@.len(),
                    closed ==> i < n,
                decreases n - i, if closed { 0int } else { 1int },
            {
                let k = code.get_char(i);
                if k == '\'' {
                    closed = true;
                } else {
                    i = i + 1;
                }
            }
            if !closed {
                return Err("Unterminated string literal.".to_owned());
            }
            let content = code.substring_char(start, i).to_owned();
            tokens.push(Token::StringLiteral(content));
            i = i + 1;
        } else if c == '{' {
            tokens.push(Token::LBrace);
            i = i + 1;
        } else if c == '}' {
            tokens.push(Token::RBrace);
            i = i + 1;
        } else if c == '(' {
            tokens.push(Token::LParen);
            i = i + 1;
        } else if c == ')' {
            tokens.push(Token::RParen);
            i = i + 1;
        } else if c == '[' {
            tokens.push(Token::LBracket);
            i = i + 1;
        } else if c == ']' {
            tokens.push(Token::RBracket);
            i = i + 1;
        } else if c == '<' {
            tokens.push(Token::LessThan);
            i = i + 1;
        } else if c == '>' {
            tokens.push(Token::GreaterThan);
            i = i + 1;
        } else if c == '=' {
            if i + 1 < n {
                let k = code.get_char(i + 1);
                if k == '=' {
                    tokens.push(Token::EqEq);
                    i = i + 2;
                } else if k == '>' {
                    tokens.push(Token::FatArrow);
                    i = i + 2;
                } else {
                    tokens.push(Token::Assign);
                    i = i + 1;
                }
            } else {
                tokens.push(Token::Assign);
                i = i + 1;
            }
        } else if c == '+' {
            tokens.push(Token::Plus);
            i = i + 1;
        } else if c == '-' {
            tokens.push(Token::Minus);
            i = i + 1;
        } else if c == '*' {
            tokens.push(Token::Star);
            i = i + 1;
        } else if c == '/' {
            tokens.push(Token::Slash);
            i = i + 1;
        } else if c == ',' {
            tokens.push(Token::Comma);
            i = i + 1;
        } else if c == ':' {
            if i + 1 < n {
                let k = code.get_char(i + 1);
                if k == ':' {
                    tokens.push(Token::DoubleColon);
                    i = i + 2;
                } else {
                    tokens.push(Token::Colon);
                    i = i + 1;
                }
            } else {
                tokens.push(Token::Colon);
                i = i + 1;
            }
        } else if c == ';' {
            tokens.push(Token::Semi);
            i = i + 1;
        } else if c == '.' {
            tokens.push(Token::Dot);
            i = i + 1;
        } else {
            return Err("Invalid token.".to_owned());
        }
    }
    Ok(tokens)
}

// ---------------------------------------------------------------------------
// Recursive descent over the token stream
// ---------------------------------------------------------------------------

/// Whether the token at `pos` is the given identifier word.
fn at_word(tokens: &Vec<Token>, pos: usize, word: &str) -> (r: bool)
    ensures
        r ==> pos < tokens@.len(),
{
    if pos < tokens.len() {
        match &tokens[pos] {
            Token::Ident(s) => str_eq(s.as_str(), word),
            _ => false,
        }
    } else {
        false
    }
}

fn parse_error<T>(message: &str) -> (r: Result<T, String>)
    ensures
        r is Err,
{
    Err(message.to_owned())
}

/// The primitive type a written name denotes, if any.
fn keyword_primitive(name: &str) -> (r: Option<PrimitiveType>) {
    if str_eq(name, "Number") {
        Some(PrimitiveType::Number)
    } else if str_eq(name, "Bool") {
        Some(PrimitiveType::Bool)
    } else if str_eq(name, "String") {
        Some(PrimitiveType::String)
    } else if str_eq(name, "Void") {
        Some(PrimitiveType::Void)
    } else if str_eq(name, "Break") {
        Some(PrimitiveType::Break)
    } else if str_eq(name, "Array") {
        Some(PrimitiveType::Array)
    } else if str_eq(name, "Func") {
        Some(PrimitiveType::Func)
    } else if str_eq(name, "Any") {
        Some(PrimitiveType::Any)
    } else {
        None
    }
}

/// Whether the identifier is one of the statement keywords, which never
/// name a binding.
fn is_keyword(name: &str) -> (r: bool) {
    str_eq(name, "const") || str_eq(name, "let") || str_eq(name, "func") || str_eq(name, "enum")
        || str_eq(name, "struct") || str_eq(name, "match") || str_eq(name, "for") || str_eq(
        name,
        "in",
    ) || str_eq(name, "wiles") || str_eq(name, "break") || str_eq(name, "if") || str_eq(
        name,
        "else",
    ) || str_eq(name, "true") || str_eq(name, "false")
}

/// Parses a written type: a type name, optionally applied to angle-bracket
/// type arguments.
fn parse_type(tokens: &Vec<Token>, pos: usize) -> (r: Result<(TypeLiteralVariant, usize), String>)
    requires
        pos <= tokens@.len(),
    ensures
        r matches Ok(p) ==> pos < p.1 <= tokens@.len(),
    decreases tokens@.len() - pos, 6nat,
{
    if pos >= tokens.len() {
        return parse_error("Expected a type.");
    }
    let name = match &tokens[pos] {
        Token::Ident(s) => s.clone(),
        _ => {
            return parse_error("Expected a type name.");
        },
    };
    let base = match keyword_primitive(name.as_str()) {
        Some(p) => TypeLiteral::PrimitiveType(p),
        None => TypeLiteral::UserDefined(name),
    };
    let mut at = pos + 1;
    if at < tokens.len() {
        let open = match &tokens[at] {
            Token::LessThan => true,
            _ => false,
        };
        if open {
            let (args, after) = match parse_type_args(tokens, at + 1) {
                Ok(p) => p,
                Err(e) => {
                    return Err(e);
                },
            };
            if after < tokens.len() {
                match &tokens[after] {
                    Token::GreaterThan => {
                        return Ok((TypeLiteralVariant::Composite(base, Box::new(args)), after + 1));
                    },
                    _ => {
                        return parse_error("Expected a closing angle bracket.");
                    },
                }
            }
            return parse_error("Expected a closing angle bracket.");
        }
    }
    Ok((TypeLiteralVariant::Type(base), at))
}

/// Parses one or more comma-separated written types.
fn parse_type_args(tokens: &Vec<Token>, pos: usize) -> (r: Result<(TypeLiterals, usize), String>)
    requires
        pos <= tokens@.len(),
    ensures
        r matches Ok(p) ==> pos < p.1 <= tokens@.len(),
    decreases tokens@.len() - pos, 8nat,
{
    let (first, mut at) = match parse_type(tokens, pos) {
        Ok(p) => p,
        Err(e) => {
            return Err(e);
        },
    };
    let mut acc = TypeLiterals::Literal(first);
    while at < tokens.len()
        invariant
            pos < at <= tokens@.len(),
        decreases tokens@.len() - at,
    {
        let comma = match &tokens[at] {
            Token::Comma => true,
            _ => false,
        };
        if !comma {
            break ;
        }
        let (next, after) = match parse_type(tokens, at + 1) {
            Ok(p) => p,
            Err(e) => {
                return Err(e);
            },
        };
        acc = TypeLiterals::Literals(Box::new(acc), next);
        at = after;
    }
    Ok((acc, at))
}

/// Parses a place: an identifier followed by index and member accesses.
fn parse_place(tokens: &Vec<Token>, pos: usize) -> (r: Result<(PlaceExpression, usize), String>)
    requires
        pos <= tokens@.len(),
    ensures
        r matches Ok(p) ==> pos < p.1 <= tokens@.len(),
    decreases tokens@.len() - pos, 4nat,
{
    if pos >= tokens.len() {
        return parse_error("Expected an identifier.");
    }
    let ident = match &tokens[pos] {
        Token::Ident(s) => s.clone(),
        _ => {
            return parse_error("Expected an identifier.");
        },
    };
    if is_keyword(ident.as_str()) {
        return parse_error("Expected an identifier.");
    }
    let mut place = PlaceExpression::Symbol(ident);
    let mut at = pos + 1;
    while at < tokens.len()
        invariant
            pos < at <= tokens@.len(),
        decreases tokens@.len() - at,
    {
        let open_bracket = match &tokens[at] {
            Token::LBracket => true,
            _ => false,
        };
        let dot = match &tokens[at] {
            Token::Dot => true,
            _ => false,
        };
        if open_bracket {
            let (index, after) = match parse_expr(tokens, at + 1) {
                Ok(p) => p,
                Err(e) => {
                    return Err(e);
                },
            };
            if after < tokens.len() {
                let closed = match &tokens[after] {
                    Token::RBracket => true,
                    _ => false,
                };
                if !closed {
                    return parse_error("Expected a closing square bracket.");
                }
                place = PlaceExpression::Index(Box::new(place), Box::new(index));
                at = after + 1;
            } else {
                return parse_error("Expected a closing square bracket.");
            }
        } else if dot {
            if at + 1 < tokens.len() {
                let member = match &tokens[at + 1] {
                    Token::Ident(s) => s.clone(),
                    _ => {
                        return parse_error("Expected a member name.");
                    },
                };
                place = PlaceExpression::MemberAccess(Box::new(place), member);
                at = at + 2;
            } else {
                return parse_error("Expected a member name.");
            }
        } else {
            break ;
        }
    }
    Ok((place, at))
}

/// Parses the call level: a literal, or a place optionally invoked with
/// arguments.
fn parse_call(tokens: &Vec<Token>, pos: usize) -> (r: Result<(Call, usize), String>)
    requires
        pos <= tokens@.len(),
    ensures
        r matches Ok(p) ==> pos < p.1 <= tokens@.len(),
    decreases tokens@.len() - pos, 5nat,
{
    if pos >= tokens.len() {
        return parse_error("Expected an expression.");
    }
    match &tokens[pos] {
        Token::NumLiteral(n) => Ok((Call::Value(Value::Num(*n)), pos + 1)),
        Token::StringLiteral(s) => Ok((Call::Value(Value::String(s.clone())), pos + 1)),
        Token::Ident(word) => {
            if str_eq(word.as_str(), "true") {
                return Ok((Call::Value(Value::Bool(true)), pos + 1));
            }
            if str_eq(word.as_str(), "false") {
                return Ok((Call::Value(Value::Bool(false)), pos + 1));
            }
            let (place, at) = match parse_place(tokens, pos) {
                Ok(p) => p,
                Err(e) => {
                    return Err(e);
                },
            };
            if at < tokens.len() {
                let open = match &tokens[at] {
                    Token::LParen => true,
                    _ => false,
                };
                if open {
                    let (args, after) = match parse_elems(tokens, at + 1) {
                        Ok(p) => p,
                        Err(e) => {
                            return Err(e);
                        },
                    };
                    if after < tokens.len() {
                        let closed = match &tokens[after] {
                            Token::RParen => true,
                            _ => false,
                        };
                        if closed {
                            return Ok((Call::Invocation(place, Box::new(args)), after + 1));
                        }
                    }
                    return parse_error("Expected a closing parenthesis.");
                }
            }
            Ok((Call::PlaceExpression(place), at))
        },
        _ => parse_error("Expected an expression."),
    }
}

/// Parses a possibly empty comma-separated expression list, stopping before
/// the closing delimiter.
fn parse_elems(tokens: &Vec<Token>, pos: usize) -> (r: Result<(Elems, usize), String>)
    requires
        pos <= tokens@.len(),
    ensures
        r matches Ok(p) ==> pos <= p.1 <= tokens@.len(),
    decreases tokens@.len() - pos, 16nat,
{
    if pos < tokens.len() {
        let closing = match &tokens[pos] {
            Token::RParen => true,
            Token::RBracket => true,
            _ => false,
        };
        if closing {
            return Ok((Elems::Empty, pos));
        }
    }
    let (first, mut at) = match parse_expr(tokens, pos) {
        Ok(p) => p,
        Err(e) => {
            return Err(e);
        },
    };
    let mut acc = Elems::Expr(first);
    while at < tokens.len()
        invariant
            pos < at <= tokens@.len(),
        decreases tokens@.len() - at,
    {
        let comma = match &tokens[at] {
            Token::Comma => true,
            _ => false,
        };
        if !comma {
            break ;
        }
        let (next, after) = match parse_expr(tokens, at + 1) {
            Ok(p) => p,
            Err(e) => {
                return Err(e);
            },
        };
        acc = Elems::Elems(Box::new(acc), next);
        at = after;
    }
    Ok((acc, at))
}

/// Parses the multiplicative level.
fn parse_factor(tokens: &Vec<Token>, pos: usize) -> (r: Result<(Factor, usize), String>)
    requires
        pos <= tokens@.len(),
    ensures
        r matches Ok(p) ==> pos < p.1 <= tokens@.len(),
    decreases tokens@.len() - pos, 7nat,
{
    let (first, mut at) = match parse_call(tokens, pos) {
        Ok(p) => p,
        Err(e) => {
            return Err(e);
        },
    };
    let mut acc = Factor::Call(first);
    while at < tokens.len()
        invariant
            pos < at <= tokens@.len(),
        decreases tokens@.len() - at,
    {
        let star = match &tokens[at] {
            Token::Star => true,
            _ => false,
        };
        let slash = match &tokens[at] {
            Token::Slash => true,
            _ => false,
        };
        if !star && !slash {
            break ;
        }
        let (next, after) = match parse_call(tokens, at + 1) {
            Ok(p) => p,
            Err(e) => {
                return Err(e);
            },
        };
        acc = if star {
            Factor::Mult(Box::new(acc), next)
        } else {
            Factor::Div(Box::new(acc), next)
        };
        at = after;
    }
    Ok((acc, at))
}

/// Parses the additive level.
fn parse_addend(tokens: &Vec<Token>, pos: usize) -> (r: Result<(Addend, usize), String>)
    requires
        pos <= tokens@.len(),
    ensures
        r matches Ok(p) ==> pos < p.1 <= tokens@.len(),
    decreases tokens@.len() - pos, 9nat,
{
    let (first, mut at) = match parse_factor(tokens, pos) {
        Ok(p) => p,
        Err(e) => {
            return Err(e);
        },
    };
    let mut acc = Addend::Factor(first);
    while at < tokens.len()
        invariant
            pos < at <= tokens@.len(),
        decreases tokens@.len() - at,
    {
        let plus = match &tokens[at] {
            Token::Plus => true,
            _ => false,
        };
        let minus = match &tokens[at] {
            Token::Minus => true,
            _ => false,
        };
        if !plus && !minus {
            break ;
        }
        let (next, after) = match parse_factor(tokens, at + 1) {
            Ok(p) => p,
            Err(e) => {
                return Err(e);
            },
        };
        acc = if plus {
            Addend::Add(Box::new(acc), next)
        } else {
            Addend::Sub(Box::new(acc), next)
        };
        at = after;
    }
    Ok((acc, at))
}

/// Parses a variant construction `Enum::Variant(data?)` or an arithmetic
/// tree.
fn parse_enum_variant_or_addend(tokens: &Vec<Token>, pos: usize) -> (r: Result<
    (EnumVariantOrAddend, usize),
    String,
>)
    requires
        pos <= tokens@.len(),
    ensures
        r matches Ok(p) ==> pos < p.1 <= tokens@.len(),
    decreases tokens@.len() - pos, 11nat,
{
    if pos < tokens.len() && pos + 1 < tokens.len() {
        let is_path = match (&tokens[pos], &tokens[pos + 1]) {
            (Token::Ident(_s), Token::DoubleColon) => true,
            _ => false,
        };
        if is_path {
            let enum_ident = match &tokens[pos] {
                Token::Ident(s) => s.clone(),
                _ => {
                    return parse_error("Expected an enum name.");
                },
            };
            if pos + 2 >= tokens.len() {
                return parse_error("Expected a variant name.");
            }
            let variant_ident = match &tokens[pos + 2] {
                Token::Ident(s) => s.clone(),
                _ => {
                    return parse_error("Expected a variant name.");
                },
            };
            let mut at = pos + 3;
            if at < tokens.len() {
                let open = match &tokens[at] {
                    Token::LParen => true,
                    _ => false,
                };
                if open {
                    let (data, after) = match parse_expr(tokens, at + 1) {
                        Ok(p) => p,
                        Err(e) => {
                            return Err(e);
                        },
                    };
                    if after < tokens.len() {
                        let closed = match &tokens[after] {
                            Token::RParen => true,
                            _ => false,
                        };
                        if closed {
                            return Ok(
                                (
                                    EnumVariantOrAddend::EnumVariant(
                                        enum_ident,
                                        variant_ident,
                                        Some(Box::new(data)),
                                    ),
                                    after + 1,
                                ),
                            );
                        }
                    }
                    return parse_error("Expected a closing parenthesis.");
                }
            }
            return Ok((EnumVariantOrAddend::EnumVariant(enum_ident, variant_ident, None), at));
        }
    }
    match parse_addend(tokens, pos) {
        Ok((addend, at)) => Ok((EnumVariantOrAddend::Addend(addend), at)),
        Err(e) => Err(e),
    }
}

/// Parses an expression: array and object literals, or comparison chains
/// over arithmetic.
fn parse_expr(tokens: &Vec<Token>, pos: usize) -> (r: Result<(Expr, usize), String>)
    requires
        pos <= tokens@.len(),
    ensures
        r matches Ok(p) ==> pos < p.1 <= tokens@.len(),
    decreases tokens@.len() - pos, 13nat,
{
    if pos < tokens.len() {
        let open_bracket = match &tokens[pos] {
            Token::LBracket => true,
            _ => false,
        };
        if open_bracket {
            let (elems, after) = match parse_elems(tokens, pos + 1) {
                Ok(p) => p,
                Err(e) => {
                    return Err(e);
                },
            };
            if after < tokens.len() {
                let closed = match &tokens[after] {
                    Token::RBracket => true,
                    _ => false,
                };
                if closed {
                    return Ok((Expr::Array(Array { elems: Box::new(elems) }), after + 1));
                }
            }
            return parse_error("Expected a closing square bracket.");
        }
        let open_brace = match &tokens[pos] {
            Token::LBrace => true,
            _ => false,
        };
        if open_brace {
            let (entries, after) = match parse_object_entries(tokens, pos + 1) {
                Ok(p) => p,
                Err(e) => {
                    return Err(e);
                },
            };
            if after < tokens.len() {
                let closed = match &tokens[after] {
                    Token::RBrace => true,
                    _ => false,
                };
                if closed {
                    return Ok((Expr::Object(Object { entries: Box::new(entries) }), after + 1));
                }
            }
            return parse_error("Expected a closing brace.");
        }
    }
    let (first, mut at) = match parse_enum_variant_or_addend(tokens, pos) {
        Ok(p) => p,
        Err(e) => {
            return Err(e);
        },
    };
    let mut acc = Expr::EnumVariant(first);
    while at < tokens.len()
        invariant
            pos < at <= tokens@.len(),
        decreases tokens@.len() - at,
    {
        let eq = match &tokens[at] {
            Token::EqEq => true,
            _ => false,
        };
        let lt = match &tokens[at] {
            Token::LessThan => true,
            _ => false,
        };
        let gt = match &tokens[at] {
            Token::GreaterThan => true,
            _ => false,
        };
        if eq {
            let (right, after) = match parse_enum_variant_or_addend(tokens, at + 1) {
                Ok(p) => p,
                Err(e) => {
                    return Err(e);
                },
            };
            acc = Expr::Eq(Box::new(acc), right);
            at = after;
        } else if lt || gt {
            let (right, after) = match parse_addend(tokens, at + 1) {
                Ok(p) => p,
                Err(e) => {
                    return Err(e);
                },
            };
            acc = if lt {
                Expr::Lt(Box::new(acc), right)
            } else {
                Expr::Gt(Box::new(acc), right)
            };
            at = after;
        } else {
            break ;
        }
    }
    Ok((acc, at))
}

/// Parses the non-empty field list of an object literal.
fn parse_object_entries(tokens: &Vec<Token>, pos: usize) -> (r: Result<
    (KeyValuePairs, usize),
    String,
>)
    requires
        pos <= tokens@.len(),
    ensures
        r matches Ok(p) ==> pos < p.1 <= tokens@.len(),
    decreases tokens@.len() - pos, 16nat,
{
    let (first, mut at) = match parse_object_entry(tokens, pos) {
        Ok(p) => p,
        Err(e) => {
            return Err(e);
        },
    };
    let mut acc = KeyValuePairs::Pair(first);
    while at < tokens.len()
        invariant
            pos < at <= tokens@.len(),
        decreases tokens@.len() - at,
    {
        let comma = match &tokens[at] {
            Token::Comma => true,
            _ => false,
        };
        if !comma {
            break ;
        }
        if at + 1 < tokens.len() {
            let closing = match &tokens[at + 1] {
                Token::RBrace => true,
                _ => false,
            };
            if closing {
                at = at + 1;
                break ;
            }
        }
        let (next, after) = match parse_object_entry(tokens, at + 1) {
            Ok(p) => p,
            Err(e) => {
                return Err(e);
            },
        };
        acc = KeyValuePairs::Pairs(Box::new(acc), next);
        at = after;
    }
    Ok((acc, at))
}

fn parse_object_entry(tokens: &Vec<Token>, pos: usize) -> (r: Result<(KeyValuePair, usize), String>)
    requires
        pos <= tokens@.len(),
    ensures
        r matches Ok(p) ==> pos < p.1 <= tokens@.len(),
    decreases tokens@.len() - pos, 15nat,
{
    if pos >= tokens.len() || pos + 1 >= tokens.len() {
        return parse_error("Expected an object field.");
    }
    let key = match &tokens[pos] {
        Token::Ident(s) => s.clone(),
        _ => {
            return parse_error("Expected a field name.");
        },
    };
    let colon = match &tokens[pos + 1] {
        Token::Colon => true,
        _ => false,
    };
    if !colon {
        return parse_error("Expected a colon after the field name.");
    }
    let (value, after) = match parse_expr(tokens, pos + 2) {
        Ok(p) => p,
        Err(e) => {
            return Err(e);
        },
    };
    Ok((KeyValuePair { key, value }, after))
}

// ---------------------------------------------------------------------------
// Statements
// ---------------------------------------------------------------------------

/// Consumes one expected punctuation token.
fn expect_semi(tokens: &Vec<Token>, pos: usize) -> (r: Result<usize, String>)
    requires
        pos <= tokens@.len(),
    ensures
        r matches Ok(p) ==> pos < p <= tokens@.len(),
{
    if pos < tokens.len() {
        match &tokens[pos] {
            Token::Semi => Ok(pos + 1),
            _ => parse_error("Expected a semicolon."),
        }
    } else {
        parse_error("Expected a semicolon.")
    }
}

/// Parses an optional single type parameter in angle brackets.
fn parse_type_param(tokens: &Vec<Token>, pos: usize) -> (r: Result<
    (Option<String>, usize),
    String,
>)
    requires
        pos <= tokens@.len(),
    ensures
        r matches Ok(p) ==> pos <= p.1 <= tokens@.len(),
{
    if pos < tokens.len() {
        let open = match &tokens[pos] {
            Token::LessThan => true,
            _ => false,
        };
        if open {
            if pos + 1 < tokens.len() && pos + 2 < tokens.len() {
                let name = match &tokens[pos + 1] {
                    Token::Ident(s) => s.clone(),
                    _ => {
                        return parse_error("Expected a type parameter name.");
                    },
                };
                let closed = match &tokens[pos + 2] {
                    Token::GreaterThan => true,
                    _ => false,
                };
                if !closed {
                    return parse_error("Expected a closing angle bracket.");
                }
                return Ok((Some(name), pos + 3));
            }
            return parse_error("Expected a type parameter.");
        }
    }
    Ok((None, pos))
}

/// Parses a possibly empty parameter list, stopping before the closing
/// parenthesis.
fn parse_params(tokens: &Vec<Token>, pos: usize) -> (r: Result<(Params, usize), String>)
    requires
        pos <= tokens@.len(),
    ensures
        r matches Ok(p) ==> pos <= p.1 <= tokens@.len(),
{
    let mut acc = Params::Empty;
    let mut at = pos;
    let mut expect_more = false;
    while at < tokens.len()
        invariant
            pos <= at <= tokens@.len(),
        decreases tokens@.len() - at,
    {
        let closing = match &tokens[at] {
            Token::RParen => true,
            _ => false,
        };
        if closing && !expect_more {
            break ;
        }
        if at + 1 >= tokens.len() {
            return parse_error("Expected a parameter.");
        }
        let name = match &tokens[at] {
            Token::Ident(s) => s.clone(),
            _ => {
                return parse_error("Expected a parameter name.");
            },
        };
        let colon = match &tokens[at + 1] {
            Token::Colon => true,
            _ => false,
        };
        if !colon {
            return parse_error("Expected a colon after the parameter name.");
        }
        let (param_type, after) = match parse_type(tokens, at + 2) {
            Ok(p) => p,
            Err(e) => {
                return Err(e);
            },
        };
        let param = Param { ident: name, param_type };
        acc = match acc {
            Params::Empty => Params::Param(param),
            other => Params::Params(Box::new(other), param),
        };
        at = after;
        expect_more = false;
        if at < tokens.len() {
            let comma = match &tokens[at] {
                Token::Comma => true,
                _ => false,
            };
            if comma {
                at = at + 1;
                expect_more = true;
            } else {
                break ;
            }
        }
    }
    if expect_more {
        return parse_error("Expected a parameter.");
    }
    Ok((acc, at))
}

/// Parses the declared variants of an enum, stopping before the closing
/// brace.
fn parse_variants(tokens: &Vec<Token>, pos: usize) -> (r: Result<(VariantsDeclare, usize), String>)
    requires
        pos <= tokens@.len(),
    ensures
        r matches Ok(p) ==> pos < p.1 <= tokens@.len(),
{
    if pos >= tokens.len() {
        return parse_error("Expected an enum variant.");
    }
    let mut at = pos;
    let mut acc: Option<VariantsDeclare> = None;
    let mut expect_more = true;
    while at < tokens.len() && expect_more
        invariant
            pos <= at <= tokens@.len(),
            acc is Some ==> pos < at,
        decreases tokens@.len() - at,
    {
        let name = match &tokens[at] {
            Token::Ident(s) => s.clone(),
            _ => {
                return parse_error("Expected a variant name.");
            },
        };
        let mut after = at + 1;
        let mut variant = VariantDeclare::Empty(name.clone());
        if after < tokens.len() {
            let open = match &tokens[after] {
                Token::LParen => true,
                _ => false,
            };
            if open {
                let (data_type, past_type) = match parse_type(tokens, after + 1) {
                    Ok(p) => p,
                    Err(e) => {
                        return Err(e);
                    },
                };
                if past_type >= tokens.len() {
                    return parse_error("Expected a closing parenthesis.");
                }
                let closed = match &tokens[past_type] {
                    Token::RParen => true,
                    _ => false,
                };
                if !closed {
                    return parse_error("Expected a closing parenthesis.");
                }
                variant = VariantDeclare::Data(name, data_type);
                after = past_type + 1;
            }
        }
        acc = match acc {
            None => Some(VariantsDeclare::Variant(variant)),
            Some(prev) => Some(VariantsDeclare::Variants(Box::new(prev), variant)),
        };
        at = after;
        expect_more = false;
        if at < tokens.len() {
            let comma = match &tokens[at] {
                Token::Comma => true,
                _ => false,
            };
            if comma {
                at = at + 1;
                if at < tokens.len() {
                    let closing = match &tokens[at] {
                        Token::RBrace => true,
                        _ => false,
                    };
                    if !closing {
                        expect_more = true;
                    }
                }
            }
        }
    }
    if expect_more {
        return parse_error("Expected a variant.");
    }
    match acc {
        Some(variants) => Ok((variants, at)),
        None => parse_error("Expected an enum variant."),
    }
}

/// Parses the declared fields of a struct, stopping before the closing
/// brace.
fn parse_struct_fields(tokens: &Vec<Token>, pos: usize) -> (r: Result<
    (StructFieldsDeclare, usize),
    String,
>)
    requires
        pos <= tokens@.len(),
    ensures
        r matches Ok(p) ==> pos < p.1 <= tokens@.len(),
{
    let mut at = pos;
    let mut acc: Option<StructFieldsDeclare> = None;
    let mut expect_more = true;
    while at < tokens.len() && expect_more
        invariant
            pos <= at <= tokens@.len(),
            acc is Some ==> pos < at,
        decreases tokens@.len() - at,
    {
        if at + 1 >= tokens.len() {
            return parse_error("Expected a struct field.");
        }
        let name = match &tokens[at] {
            Token::Ident(s) => s.clone(),
            _ => {
                return parse_error("Expected a field name.");
            },
        };
        let colon = match &tokens[at + 1] {
            Token::Colon => true,
            _ => false,
        };
        if !colon {
            return parse_error("Expected a colon after the field name.");
        }
        let (field_type, after) = match parse_type(tokens, at + 2) {
            Ok(p) => p,
            Err(e) => {
                return Err(e);
            },
        };
        let field = StructLiteralField { ident: name, field_type };
        acc = match acc {
            None => Some(StructFieldsDeclare::Field(field)),
            Some(prev) => Some(StructFieldsDeclare::Fields(Box::new(prev), field)),
        };
        at = after;
        expect_more = false;
        if at < tokens.len() {
            let comma = match &tokens[at] {
                Token::Comma => true,
                _ => false,
            };
            if comma {
                at = at + 1;
                if at < tokens.len() {
                    let closing = match &tokens[at] {
                        Token::RBrace => true,
                        _ => false,
                    };
                    if !closing {
                        expect_more = true;
                    }
                }
            }
        }
    }
    if expect_more {
        return parse_error("Expected a struct field.");
    }
    match acc {
        Some(fields) => Ok((fields, at)),
        None => parse_error("Expected a struct field."),
    }
}

/// Parses a pattern: a wildcard, a variant path with an optional binder, or
/// a bare binding identifier.
fn parse_pattern(tokens: &Vec<Token>, pos: usize) -> (r: Result<(Pattern, usize), String>)
    requires
        pos <= tokens@.len(),
    ensures
        r matches Ok(p) ==> pos < p.1 <= tokens@.len(),
{
    if pos >= tokens.len() {
        return parse_error("Expected a pattern.");
    }
    let first = match &tokens[pos] {
        Token::Ident(s) => s.clone(),
        _ => {
            return parse_error("Expected a pattern.");
        },
    };
    if str_eq(first.as_str(), "_") {
        return Ok((Pattern::Wildcard, pos + 1));
    }
    if pos + 1 < tokens.len() {
        let path = match &tokens[pos + 1] {
            Token::DoubleColon => true,
            _ => false,
        };
        if path {
            if pos + 2 >= tokens.len() {
                return parse_error("Expected a variant name.");
            }
            let variant = match &tokens[pos + 2] {
                Token::Ident(s) => s.clone(),
                _ => {
                    return parse_error("Expected a variant name.");
                },
            };
            let mut at = pos + 3;
            if at < tokens.len() {
                let open = match &tokens[at] {
                    Token::LParen => true,
                    _ => false,
                };
                if open {
                    if at + 1 >= tokens.len() || at + 2 >= tokens.len() {
                        return parse_error("Expected a binder.");
                    }
                    let binder = match &tokens[at + 1] {
                        Token::Ident(s) => s.clone(),
                        _ => {
                            return parse_error("Expected a binder.");
                        },
                    };
                    let closed = match &tokens[at + 2] {
                        Token::RParen => true,
                        _ => false,
                    };
                    if !closed {
                        return parse_error("Expected a closing parenthesis.");
                    }
                    return Ok((Pattern::EnumData(first, variant, binder), at + 3));
                }
            }
            return Ok((Pattern::EnumEmpty(first, variant), at));
        }
    }
    Ok((Pattern::BindIdent(first), pos + 1))
}

/// Parses the arms of a match, stopping before the closing brace.
fn parse_match_arms(tokens: &Vec<Token>, pos: usize) -> (r: Result<(Vec<MatchArm>, usize), String>)
    requires
        pos <= tokens@.len(),
    ensures
        r matches Ok(p) ==> pos < p.1 <= tokens@.len(),
{
    let mut arms: Vec<MatchArm> = Vec::new();
    let mut at = pos;
    let mut expect_more = true;
    while at < tokens.len() && expect_more
        invariant
            pos <= at <= tokens@.len(),
            arms@.len() > 0 ==> pos < at,
        decreases tokens@.len() - at,
    {
        let (pattern, after_pattern) = match parse_pattern(tokens, at) {
            Ok(p) => p,
            Err(e) => {
                return Err(e);
            },
        };
        if after_pattern >= tokens.len() {
            return parse_error("Expected an arrow after the pattern.");
        }
        let arrow = match &tokens[after_pattern] {
            Token::FatArrow => true,
            _ => false,
        };
        if !arrow {
            return parse_error("Expected an arrow after the pattern.");
        }
        let (body, after_body) = match parse_expr(tokens, after_pattern + 1) {
            Ok(p) => p,
            Err(e) => {
                return Err(e);
            },
        };
        arms.push(MatchArm { pattern, body: Box::new(body) });
        at = after_body;
        expect_more = false;
        if at < tokens.len() {
            let comma = match &tokens[at] {
                Token::Comma => true,
                _ => false,
            };
            if comma {
                at = at + 1;
                if at < tokens.len() {
                    let closing = match &tokens[at] {
                        Token::RBrace => true,
                        _ => false,
                    };
                    if !closing {
                        expect_more = true;
                    }
                }
            }
        }
    }
    if expect_more || arms.len() == 0 {
        return parse_error("Expected a match arm.");
    }
    Ok((arms, at))
}

/// Rebuilds the arm list shape from parsed arms, first arm first.
fn arms_from_vec(arms: &Vec<MatchArm>, from: usize) -> (r: MatchArms)
    requires
        from < arms@.len(),
    decreases arms@.len() - from,
{
    let n = arms.len();
    if from + 1 == n {
        MatchArms::Arm(arms[from].clone())
    } else {
        MatchArms::Arms(arms[from].clone(), Box::new(arms_from_vec(arms, from + 1)))
    }
}

/// Rebuilds the case list shape from parsed cases, first case first.
fn ifcases_from_vec(cases: &Vec<IfCase>, from: usize) -> (r: IfCases)
    requires
        from < cases@.len(),
    decreases cases@.len() - from,
{
    let n = cases.len();
    if from + 1 == n {
        IfCases::Case(cases[from].clone())
    } else {
        IfCases::Cases(cases[from].clone(), Box::new(ifcases_from_vec(cases, from + 1)))
    }
}

/// Parses a condition: an expression, optionally wrapped in parentheses.
fn parse_cond(tokens: &Vec<Token>, pos: usize) -> (r: Result<(Expr, usize), String>)
    requires
        pos <= tokens@.len(),
    ensures
        r matches Ok(p) ==> pos < p.1 <= tokens@.len(),
    decreases tokens@.len() - pos, 14nat,
{
    if pos < tokens.len() {
        let open = match &tokens[pos] {
            Token::LParen => true,
            _ => false,
        };
        if open {
            let (cond, after) = match parse_expr(tokens, pos + 1) {
                Ok(p) => p,
                Err(e) => {
                    return Err(e);
                },
            };
            if after < tokens.len() {
                let closed = match &tokens[after] {
                    Token::RParen => true,
                    _ => false,
                };
                if closed {
                    return Ok((cond, after + 1));
                }
            }
            return parse_error("Expected a closing parenthesis.");
        }
    }
    parse_expr(tokens, pos)
}

/// Parses a braced block of statements.
fn parse_block(tokens: &Vec<Token>, pos: usize) -> (r: Result<(Block, usize), String>)
    requires
        pos <= tokens@.len(),
    ensures
        r matches Ok(p) ==> pos < p.1 <= tokens@.len(),
    decreases tokens@.len() - pos, 19nat,
{
    if pos >= tokens.len() {
        return parse_error("Expected a block.");
    }
    let open = match &tokens[pos] {
        Token::LBrace => true,
        _ => false,
    };
    if !open {
        return parse_error("Expected an opening brace.");
    }
    let (stmts, after) = match parse_stmts(tokens, pos + 1) {
        Ok(p) => p,
        Err(e) => {
            return Err(e);
        },
    };
    if after < tokens.len() {
        let closed = match &tokens[after] {
            Token::RBrace => true,
            _ => false,
        };
        if closed {
            return Ok((Block { stmts }, after + 1));
        }
    }
    parse_error("Expected a closing brace.")
}

/// Parses one or more statements, stopping at a closing brace or at the end
/// of input.
fn parse_stmts(tokens: &Vec<Token>, pos: usize) -> (r: Result<(Stmts, usize), String>)
    requires
        pos <= tokens@.len(),
    ensures
        r matches Ok(p) ==> pos < p.1 <= tokens@.len(),
    decreases tokens@.len() - pos, 20nat,
{
    let (first, mut at) = match parse_stmt(tokens, pos) {
        Ok(p) => p,
        Err(e) => {
            return Err(e);
        },
    };
    let mut acc = Stmts::Stmt(first);
    while at < tokens.len()
        invariant
            pos < at <= tokens@.len(),
        decreases tokens@.len() - at,
    {
        let closing = match &tokens[at] {
            Token::RBrace => true,
            _ => false,
        };
        if closing {
            break ;
        }
        let (stmt, after) = match parse_stmt(tokens, at) {
            Ok(p) => p,
            Err(e) => {
                return Err(e);
            },
        };
        acc = Stmts::Stmts(Box::new(acc), stmt);
        at = after;
    }
    Ok((acc, at))
}

/// Parses one statement.
fn parse_stmt(tokens: &Vec<Token>, pos: usize) -> (r: Result<(Stmt, usize), String>)
    requires
        pos <= tokens@.len(),
    ensures
        r matches Ok(p) ==> pos < p.1 <= tokens@.len(),
    decreases tokens@.len() - pos, 18nat,
{
    if pos >= tokens.len() {
        return parse_error("Expected a statement.");
    }
    if at_word(tokens, pos, "const") || at_word(tokens, pos, "let") {
        let is_mutable = at_word(tokens, pos, "let");
        if pos + 1 >= tokens.len() {
            return parse_error("Expected a binding name.");
        }
        let name = match &tokens[pos + 1] {
            Token::Ident(s) => s.clone(),
            _ => {
                return parse_error("Expected a binding name.");
            },
        };
        let mut at = pos + 2;
        let mut annotation: Option<TypeLiteralVariant> = None;
        if at < tokens.len() {
            let colon = match &tokens[at] {
                Token::Colon => true,
                _ => false,
            };
            if colon {
                let (t, after) = match parse_type(tokens, at + 1) {
                    Ok(p) => p,
                    Err(e) => {
                        return Err(e);
                    },
                };
                annotation = Some(t);
                at = after;
            }
        }
        if at >= tokens.len() {
            return parse_error("Expected an equals sign.");
        }
        let assign = match &tokens[at] {
            Token::Assign => true,
            _ => false,
        };
        if !assign {
            return parse_error("Expected an equals sign.");
        }
        let (value, after_value) = match parse_expr(tokens, at + 1) {
            Ok(p) => p,
            Err(e) => {
                return Err(e);
            },
        };
        let end = match expect_semi(tokens, after_value) {
            Ok(p) => p,
            Err(e) => {
                return Err(e);
            },
        };
        return Ok((Stmt::Declare(name, value, annotation, is_mutable), end));
    }
    if at_word(tokens, pos, "break") {
        let (value, after_value) = match parse_expr(tokens, pos + 1) {
            Ok(p) => p,
            Err(e) => {
                return Err(e);
            },
        };
        let end = match expect_semi(tokens, after_value) {
            Ok(p) => p,
            Err(e) => {
                return Err(e);
            },
        };
        return Ok((Stmt::Break(value), end));
    }
    if at_word(tokens, pos, "func") {
        if pos + 1 >= tokens.len() {
            return parse_error("Expected a function name.");
        }
        let name = match &tokens[pos + 1] {
            Token::Ident(s) => s.clone(),
            _ => {
                return parse_error("Expected a function name.");
            },
        };
        let (type_param, after_param) = match parse_type_param(tokens, pos + 2) {
            Ok(p) => p,
            Err(e) => {
                return Err(e);
            },
        };
        if after_param >= tokens.len() {
            return parse_error("Expected a parameter list.");
        }
        let open = match &tokens[after_param] {
            Token::LParen => true,
            _ => false,
        };
        if !open {
            return parse_error("Expected a parameter list.");
        }
        let (params, after_params) = match parse_params(tokens, after_param + 1) {
            Ok(p) => p,
            Err(e) => {
                return Err(e);
            },
        };
        if after_params >= tokens.len() {
            return parse_error("Expected a closing parenthesis.");
        }
        let closed = match &tokens[after_params] {
            Token::RParen => true,
            _ => false,
        };
        if !closed {
            return parse_error("Expected a closing parenthesis.");
        }
        let mut at = after_params + 1;
        let mut return_type = TypeLiteralVariant::Type(
            TypeLiteral::PrimitiveType(PrimitiveType::Void),
        );
        if at < tokens.len() {
            let colon = match &tokens[at] {
                Token::Colon => true,
                _ => false,
            };
            if colon {
                let (t, after) = match parse_type(tokens, at + 1) {
                    Ok(p) => p,
                    Err(e) => {
                        return Err(e);
                    },
                };
                return_type = t;
                at = after;
            }
        }
        let (block, end) = match parse_block(tokens, at) {
            Ok(p) => p,
            Err(e) => {
                return Err(e);
            },
        };
        return Ok(
            (
                Stmt::Func(
                    Func {
                        ident: name,
                        type_param,
                        params: Box::new(params),
                        return_type,
                        block: Box::new(block),
                    },
                ),
                end,
            ),
        );
    }
    if at_word(tokens, pos, "enum") {
        if pos + 1 >= tokens.len() {
            return parse_error("Expected an enum name.");
        }
        let name = match &tokens[pos + 1] {
            Token::Ident(s) => s.clone(),
            _ => {
                return parse_error("Expected an enum name.");
            },
        };
        let (type_param, after_param) = match parse_type_param(tokens, pos + 2) {
            Ok(p) => p,
            Err(e) => {
                return Err(e);
            },
        };
        if after_param >= tokens.len() {
            return parse_error("Expected an opening brace.");
        }
        let open = match &tokens[after_param] {
            Token::LBrace => true,
            _ => false,
        };
        if !open {
            return parse_error("Expected an opening brace.");
        }
        let (variants, after_variants) = match parse_variants(tokens, after_param + 1) {
            Ok(p) => p,
            Err(e) => {
                return Err(e);
            },
        };
        if after_variants >= tokens.len() {
            return parse_error("Expected a closing brace.");
        }
        let closed = match &tokens[after_variants] {
            Token::RBrace => true,
            _ => false,
        };
        if !closed {
            return parse_error("Expected a closing brace.");
        }
        return Ok((Stmt::Enum(name, type_param, variants), after_variants + 1));
    }
    if at_word(tokens, pos, "struct") {
        if pos + 1 >= tokens.len() {
            return parse_error("Expected a struct name.");
        }
        let name = match &tokens[pos + 1] {
            Token::Ident(s) => s.clone(),
            _ => {
                return parse_error("Expected a struct name.");
            },
        };
        let (type_param, after_param) = match parse_type_param(tokens, pos + 2) {
            Ok(p) => p,
            Err(e) => {
                return Err(e);
            },
        };
        if after_param >= tokens.len() {
            return parse_error("Expected an opening brace.");
        }
        let open = match &tokens[after_param] {
            Token::LBrace => true,
            _ => false,
        };
        if !open {
            return parse_error("Expected an opening brace.");
        }
        let (fields, after_fields) = match parse_struct_fields(tokens, after_param + 1) {
            Ok(p) => p,
            Err(e) => {
                return Err(e);
            },
        };
        if after_fields >= tokens.len() {
            return parse_error("Expected a closing brace.");
        }
        let closed = match &tokens[after_fields] {
            Token::RBrace => true,
            _ => false,
        };
        if !closed {
            return parse_error("Expected a closing brace.");
        }
        return Ok((Stmt::Struct(name, type_param, fields), after_fields + 1));
    }
    if at_word(tokens, pos, "for") {
        if pos + 1 >= tokens.len() {
            return parse_error("Expected a loop binding.");
        }
        let name = match &tokens[pos + 1] {
            Token::Ident(s) => s.clone(),
            _ => {
                return parse_error("Expected a loop binding.");
            },
        };
        if !at_word(tokens, pos + 2, "in") {
            return parse_error("Expected the word in.");
        }
        let (iterated, after_expr) = match parse_expr(tokens, pos + 3) {
            Ok(p) => p,
            Err(e) => {
                return Err(e);
            },
        };
        let (block, end) = match parse_block(tokens, after_expr) {
            Ok(p) => p,
            Err(e) => {
                return Err(e);
            },
        };
        return Ok((Stmt::For(name, iterated, Box::new(block)), end));
    }
    if at_word(tokens, pos, "wiles") {
        let (cond, after_cond) = match parse_cond(tokens, pos + 1) {
            Ok(p) => p,
            Err(e) => {
                return Err(e);
            },
        };
        let (block, end) = match parse_block(tokens, after_cond) {
            Ok(p) => p,
            Err(e) => {
                return Err(e);
            },
        };
        return Ok((Stmt::Wiles(cond, Box::new(block)), end));
    }
    if at_word(tokens, pos, "if") {
        let (cond, after_cond) = match parse_cond(tokens, pos + 1) {
            Ok(p) => p,
            Err(e) => {
                return Err(e);
            },
        };
        let (block, after_block) = match parse_block(tokens, after_cond) {
            Ok(p) => p,
            Err(e) => {
                return Err(e);
            },
        };
        let mut cases: Vec<IfCase> = Vec::new();
        cases.push(IfCase { cond, block: Box::new(block) });
        let mut at = after_block;
        let mut else_block: Option<Box<Block>> = None;
        while at < tokens.len()
            invariant
                pos < at <= tokens@.len(),
                cases@.len() > 0,
            decreases tokens@.len() - at,
        {
            if !at_word(tokens, at, "else") {
                break ;
            }
            if at_word(tokens, at + 1, "if") {
                let (next_cond, after_next_cond) = match parse_cond(tokens, at + 2) {
                    Ok(p) => p,
                    Err(e) => {
                        return Err(e);
                    },
                };
                let (next_block, after_next_block) = match parse_block(tokens, after_next_cond) {
                    Ok(p) => p,
                    Err(e) => {
                        return Err(e);
                    },
                };
                cases.push(IfCase { cond: next_cond, block: Box::new(next_block) });
                at = after_next_block;
            } else {
                let (final_block, after_final) = match parse_block(tokens, at + 1) {
                    Ok(p) => p,
                    Err(e) => {
                        return Err(e);
                    },
                };
                else_block = Some(Box::new(final_block));
                at = after_final;
                break ;
            }
        }
        let chain = IfElseChain { cases: ifcases_from_vec(&cases, 0), else_block };
        return Ok((Stmt::IfElseChain(Box::new(chain)), at));
    }
    if at_word(tokens, pos, "match") {
        let (subject, after_subject) = match parse_expr(tokens, pos + 1) {
            Ok(p) => p,
            Err(e) => {
                return Err(e);
            },
        };
        if after_subject >= tokens.len() {
            return parse_error("Expected an opening brace.");
        }
        let open = match &tokens[after_subject] {
            Token::LBrace => true,
            _ => false,
        };
        if !open {
            return parse_error("Expected an opening brace.");
        }
        let (arms, after_arms) = match parse_match_arms(tokens, after_subject + 1) {
            Ok(p) => p,
            Err(e) => {
                return Err(e);
            },
        };
        if after_arms >= tokens.len() {
            return parse_error("Expected a closing brace.");
        }
        let closed = match &tokens[after_arms] {
            Token::RBrace => true,
            _ => false,
        };
        if !closed {
            return parse_error("Expected a closing brace.");
        }
        if arms.len() == 0 {
            return parse_error("Expected a match arm.");
        }
        let m = Match { subject, arms: arms_from_vec(&arms, 0) };
        return Ok((Stmt::Match(Box::new(m)), after_arms + 1));
    }
    // An assignment: a place followed by a single equals sign.
    let assign_attempt = parse_place(tokens, pos);
    if let Ok((place, after_place)) = assign_attempt {
        if after_place < tokens.len() {
            let assign = match &tokens[after_place] {
                Token::Assign => true,
                _ => false,
            };
            if assign {
                let (value, after_value) = match parse_expr(tokens, after_place + 1) {
                    Ok(p) => p,
                    Err(e) => {
                        return Err(e);
                    },
                };
                let end = match expect_semi(tokens, after_value) {
                    Ok(p) => p,
                    Err(e) => {
                        return Err(e);
                    },
                };
                return Ok((Stmt::Assign(place, value), end));
            }
        }
    }
    // Otherwise a bare expression statement.  The semicolon may be omitted
    // before the end of a block, so a block's final expression is its value.
    let (expr, after_expr) = match parse_expr(tokens, pos) {
        Ok(p) => p,
        Err(e) => {
            return Err(e);
        },
    };
    if after_expr < tokens.len() {
        let semi = match &tokens[after_expr] {
            Token::Semi => true,
            _ => false,
        };
        if semi {
            return Ok((Stmt::Expr(expr), after_expr + 1));
        }
        let closing = match &tokens[after_expr] {
            Token::RBrace => true,
            _ => false,
        };
        if closing {
            return Ok((Stmt::Expr(expr), after_expr));
        }
        return parse_error("Expected a semicolon.");
    }
    Ok((Stmt::Expr(expr), after_expr))
}

/// Parses whole source text into a program: the token stream must be one
/// statement list with nothing left over.
pub fn parse_code(code: String) -> (r: Result<Program, String>)
    ensures
        r matches Ok(program) ==> program is Stmts,
{
    let tokens = match lex(code.as_str()) {
        Ok(t) => t,
        Err(e) => {
            return Err(e);
        },
    };
    let (stmts, at) = match parse_stmts(&tokens, 0) {
        Ok(p) => p,
        Err(e) => {
            return Err(e);
        },
    };
    if at != tokens.len() {
        return Err("Unexpected trailing tokens.".to_owned());
    }
    Ok(Program::Stmts(stmts))
}

} // verus!
