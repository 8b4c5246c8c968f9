//! Built-in implementations of the common operators, chosen by operator and operand
//! types so that no registered function needs to be called.
use vstd::prelude::*;
use vstd::arithmetic::power::pow;
use crate::dynamic::{is_string_value, spec_flatten, Dynamic, Union};
use crate::immutable_string::ImmutableString;
use crate::engine::OP_CONTAINS;
use crate::error::EvalAltResult;
use crate::packages::arithmetic::{
    divide, fails_with, in_int_range, modulo, multiply, op_message, power, shift_left, shift_right,
    subtract, trunc_div, trunc_rem, MAX_INDEX,
};
use crate::text::{
    compare_chars, compare_str, contains_char, contains_seq, push_char, remove_all, str_chars, str_eq,
    text_lt, TextOrder,
};
use crate::INT;

verus! {

/// A comparison operator.
#[derive(Debug, Clone, Copy, PartialEq, Eq, Structural)]
pub enum Comparison {
    /// `==`
    Eq,
    /// `!=`
    Ne,
    /// `>`
    Gt,
    /// `>=`
    Ge,
    /// `<`
    Lt,
    /// `<=`
    Le,
}

/// A checked integer operator.
#[derive(Debug, Clone, Copy, PartialEq, Eq, Structural)]
pub enum ArithOp {
    /// `+`
    Add,
    /// `-`
    Subtract,
    /// `*`
    Multiply,
    /// `/`
    Divide,
    /// `%`
    Modulo,
    /// `**`
    Power,
    /// `>>`
    ShiftRight,
    /// `<<`
    ShiftLeft,
}

/// A bitwise (or, on booleans, logical) operator.
#[derive(Debug, Clone, Copy, PartialEq, Eq, Structural)]
pub enum BitOp {
    /// `&`
    And,
    /// `|`
    Or,
    /// `^`
    Xor,
}

/// A built-in implementation of a binary operator.
#[derive(Debug, Clone, Copy, PartialEq, Eq, Structural)]
pub enum BuiltinOp {
    /// The operands are not looked at; the result is this boolean.
    Constant(bool),
    /// Checked integer arithmetic.
    IntArith(ArithOp),
    /// Comparison of two integers.
    IntCompare(Comparison),
    /// Bitwise operation on two integers.
    IntBits(BitOp),
    /// Comparison of two booleans (`false` before `true`).
    BoolCompare(Comparison),
    /// Logical operation on two booleans.
    BoolBits(BitOp),
    /// Concatenation of two strings.
    StrConcat,
    /// Removal of every occurrence of the second string from the first.
    StrSubtract,
    /// Comparison of two strings, by character code.
    StrCompare(Comparison),
    /// Does the first string hold the second?
    StrContains,
    /// A string of two characters.
    CharConcat,
    /// Comparison of two characters, by character code.
    CharCompare(Comparison),
    /// A string of a character followed by a string.
    CharStrConcat,
    /// Comparison of a character with the first two characters of a string.
    CharStrCompare(Comparison),
    /// A string followed by a character.
    StrCharConcat,
    /// Removal of every occurrence of a character from a string.
    StrCharSubtract,
    /// Comparison of the first two characters of a string with a character.
    StrCharCompare(Comparison),
    /// Does the string hold the character?
    StrCharContains,
    /// Does the object map have a property of this name?
    MapContains,
}

/// The comparison that an operator names, if it names one.
pub open spec fn comparison_of(op: Seq<char>) -> Option<Comparison> {
    if op == "=="@ {
        Some(Comparison::Eq)
    } else if op == "!="@ {
        Some(Comparison::Ne)
    } else if op == ">"@ {
        Some(Comparison::Gt)
    } else if op == ">="@ {
        Some(Comparison::Ge)
    } else if op == "<"@ {
        Some(Comparison::Lt)
    } else if op == "<="@ {
        Some(Comparison::Le)
    } else {
        None
    }
}

/// The checked integer operator that an operator names, if it names one.
pub open spec fn arith_of(op: Seq<char>) -> Option<ArithOp> {
    if op == "+"@ {
        Some(ArithOp::Add)
    } else if op == "-"@ {
        Some(ArithOp::Subtract)
    } else if op == "*"@ {
        Some(ArithOp::Multiply)
    } else if op == "/"@ {
        Some(ArithOp::Divide)
    } else if op == "%"@ {
        Some(ArithOp::Modulo)
    } else if op == "**"@ {
        Some(ArithOp::Power)
    } else if op == ">>"@ {
        Some(ArithOp::ShiftRight)
    } else if op == "<<"@ {
        Some(ArithOp::ShiftLeft)
    } else {
        None
    }
}

/// The bitwise operator that an operator names, if it names one.
pub open spec fn bits_of(op: Seq<char>) -> Option<BitOp> {
    if op == "&"@ {
        Some(BitOp::And)
    } else if op == "|"@ {
        Some(BitOp::Or)
    } else if op == "^"@ {
        Some(BitOp::Xor)
    } else {
        None
    }
}

/// Are two (unshared) values of the same type? Custom types are told apart by name.
pub open spec fn same_type(a: Union, b: Union) -> bool {
    match (a, b) {
        (Union::Unit, Union::Unit) => true,
        (Union::Bool(_), Union::Bool(_)) => true,
        (Union::Str(_), Union::Str(_)) => true,
        (Union::Char(_), Union::Char(_)) => true,
        (Union::Int(_), Union::Int(_)) => true,
        (Union::Array(_), Union::Array(_)) => true,
        (Union::Object(_), Union::Object(_)) => true,
        (Union::Variant(m), Union::Variant(n)) => m@ == n@,
        _ => false,
    }
}

/// Is this the name of a numeric type?
pub open spec fn is_numeric_name(n: Seq<char>) -> bool {
    n == "u8"@ || n == "u16"@ || n == "u32"@ || n == "u64"@ || n == "i8"@ || n == "i16"@ || n == "i32"@
        || n == "i64"@ || n == "u128"@ || n == "i128"@ || n == "f32"@ || n == "f64"@
}

/// Is this (unshared) value of a numeric type?
pub open spec fn is_numeric(a: Union) -> bool {
    match a {
        Union::Int(_) => true,
        Union::Variant(n) => is_numeric_name(n@),
        _ => false,
    }
}

/// What a comparison between operands of different types gives: `!=` is true, the
/// other comparisons are false, and other operators have no built-in.
pub open spec fn mismatch_op(op: Seq<char>) -> Option<BuiltinOp> {
    if op == "!="@ {
        Some(BuiltinOp::Constant(true))
    } else if op == "=="@ || op == ">"@ || op == ">="@ || op == "<"@ || op == "<="@ {
        Some(BuiltinOp::Constant(false))
    } else {
        None
    }
}

/// The built-in that applies to a comparison operator, wrapped by `wrap`.
pub open spec fn compare_op(op: Seq<char>, wrap: spec_fn(Comparison) -> BuiltinOp) -> Option<BuiltinOp> {
    match comparison_of(op) {
        Some(c) => Some(wrap(c)),
        None => None,
    }
}

/// The built-in implementation of `op` on two values, if there is one.
pub open spec fn builtin_binary_op(op: Seq<char>, x: Dynamic, y: Dynamic) -> Option<BuiltinOp> {
    let a = spec_flatten(x).value;
    let b = spec_flatten(y).value;
    if a is Variant || b is Variant {
        if is_numeric(a) && is_numeric(b) {
            None
        } else if !same_type(a, b) {
            mismatch_op(op)
        } else {
            None
        }
    } else if a is Char && b is Str {
        if op == "+"@ {
            Some(BuiltinOp::CharStrConcat)
        } else {
            compare_op(op, |c| BuiltinOp::CharStrCompare(c))
        }
    } else if a is Str && b is Char {
        if op == "+"@ {
            Some(BuiltinOp::StrCharConcat)
        } else if op == "-"@ {
            Some(BuiltinOp::StrCharSubtract)
        } else if op == OP_CONTAINS@ {
            Some(BuiltinOp::StrCharContains)
        } else {
            compare_op(op, |c| BuiltinOp::StrCharCompare(c))
        }
    } else if a is Object && b is Str {
        if op == OP_CONTAINS@ {
            Some(BuiltinOp::MapContains)
        } else {
            None
        }
    } else if !same_type(a, b) {
        mismatch_op(op)
    } else if a is Int {
        match arith_of(op) {
            Some(o) => Some(BuiltinOp::IntArith(o)),
            None => match comparison_of(op) {
                Some(c) => Some(BuiltinOp::IntCompare(c)),
                None => match bits_of(op) {
                    Some(o) => Some(BuiltinOp::IntBits(o)),
                    None => None,
                },
            },
        }
    } else if a is Bool {
        match comparison_of(op) {
            Some(c) => Some(BuiltinOp::BoolCompare(c)),
            None => match bits_of(op) {
                Some(o) => Some(BuiltinOp::BoolBits(o)),
                None => None,
            },
        }
    } else if a is Str {
        if op == "+"@ {
            Some(BuiltinOp::StrConcat)
        } else if op == "-"@ {
            Some(BuiltinOp::StrSubtract)
        } else if op == OP_CONTAINS@ {
            Some(BuiltinOp::StrContains)
        } else {
            compare_op(op, |c| BuiltinOp::StrCompare(c))
        }
    } else if a is Char {
        if op == "+"@ {
            Some(BuiltinOp::CharConcat)
        } else {
            compare_op(op, |c| BuiltinOp::CharCompare(c))
        }
    } else if a is Unit {
        if op == "=="@ {
            Some(BuiltinOp::Constant(true))
        } else if op == "!="@ || op == ">"@ || op == ">="@ || op == "<"@ || op == "<="@ {
            Some(BuiltinOp::Constant(false))
        } else {
            None
        }
    } else {
        None
    }
}

fn comparison_of_str(op: &str) -> (r: Option<Comparison>)
    ensures
        r == comparison_of(op@),
{
    if str_eq(op, "==") {
        Some(Comparison::Eq)
    } else if str_eq(op, "!=") {
        Some(Comparison::Ne)
    } else if str_eq(op, ">") {
        Some(Comparison::Gt)
    } else if str_eq(op, ">=") {
        Some(Comparison::Ge)
    } else if str_eq(op, "<") {
        Some(Comparison::Lt)
    } else if str_eq(op, "<=") {
        Some(Comparison::Le)
    } else {
        None
    }
}

fn arith_of_str(op: &str) -> (r: Option<ArithOp>)
    ensures
        r == arith_of(op@),
{
    if str_eq(op, "+") {
        Some(ArithOp::Add)
    } else if str_eq(op, "-") {
        Some(ArithOp::Subtract)
    } else if str_eq(op, "*") {
        Some(ArithOp::Multiply)
    } else if str_eq(op, "/") {
        Some(ArithOp::Divide)
    } else if str_eq(op, "%") {
        Some(ArithOp::Modulo)
    } else if str_eq(op, "**") {
        Some(ArithOp::Power)
    } else if str_eq(op, ">>") {
        Some(ArithOp::ShiftRight)
    } else if str_eq(op, "<<") {
        Some(ArithOp::ShiftLeft)
    } else {
        None
    }
}

fn bits_of_str(op: &str) -> (r: Option<BitOp>)
    ensures
        r == bits_of(op@),
{
    if str_eq(op, "&") {
        Some(BitOp::And)
    } else if str_eq(op, "|") {
        Some(BitOp::Or)
    } else if str_eq(op, "^") {
        Some(BitOp::Xor)
    } else {
        None
    }
}

fn mismatch_op_str(op: &str) -> (r: Option<BuiltinOp>)
    ensures
        r == mismatch_op(op@),
{
    if str_eq(op, "!=") {
        Some(BuiltinOp::Constant(true))
    } else if str_eq(op, "==") || str_eq(op, ">") || str_eq(op, ">=") || str_eq(op, "<") || str_eq(op, "<=") {
        Some(BuiltinOp::Constant(false))
    } else {
        None
    }
}

/// The value with any sharing wrappers removed.
pub fn flat_value(d: &Dynamic) -> (r: &Union)
    ensures
        *r == spec_flatten(*d).value,
    decreases d,
{
    match &d.value {
        Union::Shared(inner) => flat_value(inner),
        _ => &d.value,
    }
}

fn same_type_exec(a: &Union, b: &Union) -> (r: bool)
    ensures
        r == same_type(*a, *b),
{
    match (a, b) {
        (Union::Unit, Union::Unit) => true,
        (Union::Bool(_), Union::Bool(_)) => true,
        (Union::Str(_), Union::Str(_)) => true,
        (Union::Char(_), Union::Char(_)) => true,
        (Union::Int(_), Union::Int(_)) => true,
        (Union::Array(_), Union::Array(_)) => true,
        (Union::Object(_), Union::Object(_)) => true,
        (Union::Variant(m), Union::Variant(n)) => str_eq(m.as_str(), n.as_str()),
        _ => false,
    }
}

fn is_numeric_exec(a: &Union) -> (r: bool)
    ensures
        r == is_numeric(*a),
{
    match a {
        Union::Int(_) => true,
        Union::Variant(n) => {
            let n = n.as_str();
            str_eq(n, "u8") || str_eq(n, "u16") || str_eq(n, "u32") || str_eq(n, "u64") || str_eq(n, "i8")
                || str_eq(n, "i16") || str_eq(n, "i32") || str_eq(n, "i64") || str_eq(n, "u128") || str_eq(
                n,
                "i128",
            ) || str_eq(n, "f32") || str_eq(n, "f64")
        },
        _ => false,
    }
}

/// The built-in implementation of the binary operator `op` on `x` and `y`, if there is
/// one.
pub fn get_builtin_binary_op_fn(op: &str, x: &Dynamic, y: &Dynamic) -> (r: Option<BuiltinOp>)
    ensures
        r == builtin_binary_op(op@, *x, *y),
{
    let a = flat_value(x);
    let b = flat_value(y);
    let a_variant = match a {
        Union::Variant(_) => true,
        _ => false,
    };
    let b_variant = match b {
        Union::Variant(_) => true,
        _ => false,
    };
    if a_variant || b_variant {
        return if is_numeric_exec(a) && is_numeric_exec(b) {
            None
        } else if !same_type_exec(a, b) {
            mismatch_op_str(op)
        } else {
            None
        };
    }
    match (a, b) {
        (Union::Char(_), Union::Str(_)) => {
            return if str_eq(op, "+") {
                Some(BuiltinOp::CharStrConcat)
            } else {
                match comparison_of_str(op) {
                    Some(c) => Some(BuiltinOp::CharStrCompare(c)),
                    None => None,
                }
            };
        },
        (Union::Str(_), Union::Char(_)) => {
            return if str_eq(op, "+") {
                Some(BuiltinOp::StrCharConcat)
            } else if str_eq(op, "-") {
                Some(BuiltinOp::StrCharSubtract)
            } else if str_eq(op, OP_CONTAINS) {
                Some(BuiltinOp::StrCharContains)
            } else {
                match comparison_of_str(op) {
                    Some(c) => Some(BuiltinOp::StrCharCompare(c)),
                    None => None,
                }
            };
        },
        (Union::Object(_), Union::Str(_)) => {
            return if str_eq(op, OP_CONTAINS) {
                Some(BuiltinOp::MapContains)
            } else {
                None
            };
        },
        _ => {},
    }
    if !same_type_exec(a, b) {
        return mismatch_op_str(op);
    }
    match a {
        Union::Int(_) => match arith_of_str(op) {
            Some(o) => Some(BuiltinOp::IntArith(o)),
            None => match comparison_of_str(op) {
                Some(c) => Some(BuiltinOp::IntCompare(c)),
                None => match bits_of_str(op) {
                    Some(o) => Some(BuiltinOp::IntBits(o)),
                    None => None,
                },
            },
        },
        Union::Bool(_) => match comparison_of_str(op) {
            Some(c) => Some(BuiltinOp::BoolCompare(c)),
            None => match bits_of_str(op) {
                Some(o) => Some(BuiltinOp::BoolBits(o)),
                None => None,
            },
        },
        Union::Str(_) => {
            if str_eq(op, "+") {
                Some(BuiltinOp::StrConcat)
            } else if str_eq(op, "-") {
                Some(BuiltinOp::StrSubtract)
            } else if str_eq(op, OP_CONTAINS) {
                Some(BuiltinOp::StrContains)
            } else {
                match comparison_of_str(op) {
                    Some(c) => Some(BuiltinOp::StrCompare(c)),
                    None => None,
                }
            }
        },
        Union::Char(_) => {
            if str_eq(op, "+") {
                Some(BuiltinOp::CharConcat)
            } else {
                match comparison_of_str(op) {
                    Some(c) => Some(BuiltinOp::CharCompare(c)),
                    None => None,
                }
            }
        },
        Union::Unit => {
            if str_eq(op, "==") {
                Some(BuiltinOp::Constant(true))
            } else if str_eq(op, "!=") || str_eq(op, ">") || str_eq(op, ">=") || str_eq(op, "<") || str_eq(
                op,
                "<=",
            ) {
                Some(BuiltinOp::Constant(false))
            } else {
                None
            }
        },
        _ => None,
    }
}

/// Does the comparison `c` hold between two values, given whether the first is less
/// than the second and whether they are equal?
pub open spec fn holds(c: Comparison, less: bool, equal: bool) -> bool {
    match c {
        Comparison::Eq => equal,
        Comparison::Ne => !equal,
        Comparison::Gt => !less && !equal,
        Comparison::Ge => !less,
        Comparison::Lt => less,
        Comparison::Le => less || equal,
    }
}

/// The outcome of a checked integer operator: the value, or the message of the error.
pub open spec fn arith_spec(op: ArithOp, x: INT, y: INT) -> Result<int, Seq<char>> {
    match op {
        ArithOp::Add => if in_int_range(x + y) {
            Ok(x + y)
        } else {
            Err(op_message("Addition overflow: "@, x as int, " + "@, y as int))
        },
        ArithOp::Subtract => if in_int_range(x - y) {
            Ok(x - y)
        } else {
            Err(op_message("Subtraction overflow: "@, x as int, " - "@, y as int))
        },
        ArithOp::Multiply => if in_int_range(x * y) {
            Ok(x * y)
        } else {
            Err(op_message("Multiplication overflow: "@, x as int, " * "@, y as int))
        },
        ArithOp::Divide => if y == 0 {
            Err(op_message("Division by zero: "@, x as int, " / "@, y as int))
        } else if x == INT::MIN && y == -1 {
            Err(op_message("Division overflow: "@, x as int, " / "@, y as int))
        } else {
            Ok(trunc_div(x as int, y as int))
        },
        ArithOp::Modulo => if y == 0 || (x == INT::MIN && y == -1) {
            Err(op_message("Modulo division by zero or overflow: "@, x as int, " % "@, y as int))
        } else {
            Ok(trunc_rem(x as int, y as int))
        },
        ArithOp::Power => if y > MAX_INDEX {
            Err(op_message("Integer raised to too large an index: "@, x as int, " ~ "@, y as int))
        } else if y < 0 {
            Err(op_message("Integer raised to a negative index: "@, x as int, " ~ "@, y as int))
        } else if in_int_range(pow(x as int, y as nat)) {
            Ok(pow(x as int, y as nat))
        } else {
            Err(op_message("Exponential overflow: "@, x as int, " ~ "@, y as int))
        },
        ArithOp::ShiftRight => if y > MAX_INDEX || (0 <= y && y >= 64) {
            Err(op_message("Right-shift by too many bits: "@, x as int, " >> "@, y as int))
        } else if y < 0 {
            Err(op_message("Right-shift by a negative number: "@, x as int, " >> "@, y as int))
        } else {
            Ok((x >> (y as u32)) as int)
        },
        ArithOp::ShiftLeft => if y > MAX_INDEX || (0 <= y && y >= 64) {
            Err(op_message("Left-shift by too many bits: "@, x as int, " << "@, y as int))
        } else if y < 0 {
            Err(op_message("Left-shift by a negative number: "@, x as int, " << "@, y as int))
        } else {
            Ok((x << (y as u32)) as int)
        },
    }
}

/// A bitwise operator on two integers.
pub open spec fn int_bits(op: BitOp, x: INT, y: INT) -> INT {
    match op {
        BitOp::And => x & y,
        BitOp::Or => x | y,
        BitOp::Xor => x ^ y,
    }
}

/// A logical operator on two booleans.
pub open spec fn bool_bits(op: BitOp, a: bool, b: bool) -> bool {
    match op {
        BitOp::And => a && b,
        BitOp::Or => a || b,
        BitOp::Xor => a != b,
    }
}

/// The first two characters of a text, each one that is missing taken as `'\0'`.
pub open spec fn first_two(s: Seq<char>) -> Seq<char> {
    seq![if s.len() > 0 { s[0] } else { '\0' }, if s.len() > 1 { s[1] } else { '\0' }]
}

/// Does `r` hold the boolean `b`?
pub open spec fn is_bool_result(r: Result<Dynamic, Box<EvalAltResult>>, b: bool) -> bool {
    r == Ok::<Dynamic, Box<EvalAltResult>>(Dynamic::spec_of(Union::Bool(b)))
}

/// Does `r` hold a string with the text `s`?
pub open spec fn is_string_result(r: Result<Dynamic, Box<EvalAltResult>>, s: Seq<char>) -> bool {
    r matches Ok(d) && is_string_value(d, s)
}

/// Are `x` and `y` of the types that the built-in `f` reads?
pub open spec fn operands_fit(f: BuiltinOp, x: Dynamic, y: Dynamic) -> bool {
    let a = spec_flatten(x).value;
    let b = spec_flatten(y).value;
    match f {
        BuiltinOp::Constant(_) => true,
        BuiltinOp::IntArith(_) | BuiltinOp::IntCompare(_) | BuiltinOp::IntBits(_) => a is Int && b is Int,
        BuiltinOp::BoolCompare(_) | BuiltinOp::BoolBits(_) => a is Bool && b is Bool,
        BuiltinOp::StrConcat | BuiltinOp::StrSubtract | BuiltinOp::StrCompare(_) | BuiltinOp::StrContains => a is Str
            && b is Str,
        BuiltinOp::CharConcat | BuiltinOp::CharCompare(_) => a is Char && b is Char,
        BuiltinOp::CharStrConcat | BuiltinOp::CharStrCompare(_) => a is Char && b is Str,
        BuiltinOp::StrCharConcat | BuiltinOp::StrCharSubtract | BuiltinOp::StrCharCompare(_)
        | BuiltinOp::StrCharContains => a is Str && b is Char,
        BuiltinOp::MapContains => a is Object && b is Str,
    }
}

/// What the built-in `f` gives for `x` and `y`.
pub open spec fn builtin_binary_result(
    f: BuiltinOp,
    x: Dynamic,
    y: Dynamic,
    r: Result<Dynamic, Box<EvalAltResult>>,
) -> bool {
    let a = spec_flatten(x).value;
    let b = spec_flatten(y).value;
    match f {
        BuiltinOp::Constant(v) => is_bool_result(r, v),
        BuiltinOp::IntArith(o) => a matches Union::Int(i) && b matches Union::Int(j) && match arith_spec(o, i, j) {
            Ok(v) => r == Ok::<Dynamic, Box<EvalAltResult>>(Dynamic::spec_of(Union::Int(v as INT))),
            Err(m) => fails_with(r, m),
        },
        BuiltinOp::IntCompare(c) => a matches Union::Int(i) && b matches Union::Int(j) && is_bool_result(
            r,
            holds(c, i < j, i == j),
        ),
        BuiltinOp::IntBits(o) => a matches Union::Int(i) && b matches Union::Int(j) && r == Ok::<
            Dynamic,
            Box<EvalAltResult>,
        >(Dynamic::spec_of(Union::Int(int_bits(o, i, j)))),
        BuiltinOp::BoolCompare(c) => a matches Union::Bool(p) && b matches Union::Bool(q) && is_bool_result(
            r,
            holds(c, !p && q, p == q),
        ),
        BuiltinOp::BoolBits(o) => a matches Union::Bool(p) && b matches Union::Bool(q) && is_bool_result(
            r,
            bool_bits(o, p, q),
        ),
        BuiltinOp::StrConcat => a matches Union::Str(s) && b matches Union::Str(t) && is_string_result(
            r,
            s@ + t@,
        ),
        BuiltinOp::StrSubtract => a matches Union::Str(s) && b matches Union::Str(t) && is_string_result(
            r,
            if t@.len() == 0 {
                s@
            } else if s@.len() == 0 {
                t@
            } else {
                remove_all(s@, t@)
            },
        ),
        BuiltinOp::StrCompare(c) => a matches Union::Str(s) && b matches Union::Str(t) && is_bool_result(
            r,
            holds(c, text_lt(s@, t@), s@ == t@),
        ),
        BuiltinOp::StrContains => a matches Union::Str(s) && b matches Union::Str(t) && is_bool_result(
            r,
            contains_seq(s@, t@),
        ),
        BuiltinOp::CharConcat => a matches Union::Char(p) && b matches Union::Char(q) && is_string_result(
            r,
            seq![p, q],
        ),
        BuiltinOp::CharCompare(c) => a matches Union::Char(p) && b matches Union::Char(q) && is_bool_result(
            r,
            holds(c, (p as u32) < (q as u32), p == q),
        ),
        BuiltinOp::CharStrConcat => a matches Union::Char(p) && b matches Union::Str(t) && is_string_result(
            r,
            seq![p] + t@,
        ),
        BuiltinOp::CharStrCompare(c) => a matches Union::Char(p) && b matches Union::Str(t) && is_bool_result(
            r,
            holds(c, text_lt(seq![p, '\0'], first_two(t@)), seq![p, '\0'] == first_two(t@)),
        ),
        BuiltinOp::StrCharConcat => a matches Union::Str(s) && b matches Union::Char(q) && is_string_result(
            r,
            s@.push(q),
        ),
        BuiltinOp::StrCharSubtract => a matches Union::Str(s) && b matches Union::Char(q) && is_string_result(
            r,
            remove_all(s@, seq![q]),
        ),
        BuiltinOp::StrCharCompare(c) => a matches Union::Str(s) && b matches Union::Char(q) && is_bool_result(
            r,
            holds(c, text_lt(first_two(s@), seq![q, '\0']), first_two(s@) == seq![q, '\0']),
        ),
        BuiltinOp::StrCharContains => a matches Union::Str(s) && b matches Union::Char(q) && is_bool_result(
            r,
            s@.contains(q),
        ),
        BuiltinOp::MapContains => a matches Union::Object(m) && b matches Union::Str(k) && is_bool_result(
            r,
            (*m)@.contains_key(k@),
        ),
    }
}

/// The checked integer operator `op` applied to `x` and `y`.
pub fn apply_int_arith(op: ArithOp, x: INT, y: INT) -> (r: Result<INT, Box<EvalAltResult>>)
    ensures
        match arith_spec(op, x, y) {
            Ok(v) => r == Ok::<INT, Box<EvalAltResult>>(v as INT),
            Err(m) => fails_with(r, m),
        },
{
    match op {
        ArithOp::Add => crate::packages::arithmetic::add(x, y),
        ArithOp::Subtract => subtract(x, y),
        ArithOp::Multiply => multiply(x, y),
        ArithOp::Divide => divide(x, y),
        ArithOp::Modulo => modulo(x, y),
        ArithOp::Power => power(x, y),
        ArithOp::ShiftRight => shift_right(x, y),
        ArithOp::ShiftLeft => shift_left(x, y),
    }
}

fn holds_exec(c: Comparison, less: bool, equal: bool) -> (r: bool)
    ensures
        r == holds(c, less, equal),
{
    match c {
        Comparison::Eq => equal,
        Comparison::Ne => !equal,
        Comparison::Gt => !less && !equal,
        Comparison::Ge => !less,
        Comparison::Lt => less,
        Comparison::Le => less || equal,
    }
}

fn text_holds(c: Comparison, o: TextOrder) -> (r: bool)
    ensures
        r == holds(c, o == TextOrder::Less, o == TextOrder::Equal),
{
    let less = match o {
        TextOrder::Less => true,
        _ => false,
    };
    let equal = match o {
        TextOrder::Equal => true,
        _ => false,
    };
    holds_exec(c, less, equal)
}

fn first_two_exec(s: &ImmutableString) -> (r: Vec<char>)
    ensures
        r@ == first_two(s@),
{
    let v = str_chars(s.as_str());
    let c0 = if v.len() > 0 { v[0] } else { '\0' };
    let c1 = if v.len() > 1 { v[1] } else { '\0' };
    let mut r: Vec<char> = Vec::new();
    r.push(c0);
    r.push(c1);
    assert(r@ == first_two(s@));
    r
}

fn char_pair(c: char) -> (r: Vec<char>)
    ensures
        r@ == seq![c, '\0'],
{
    let mut r: Vec<char> = Vec::new();
    r.push(c);
    r.push('\0');
    assert(r@ == seq![c, '\0']);
    r
}

fn string_dynamic(s: String) -> (r: Result<Dynamic, Box<EvalAltResult>>)
    ensures
        is_string_result(r, s@),
{
    Ok(Dynamic::from_string(ImmutableString::from_string(s)))
}

fn bool_dynamic(b: bool) -> (r: Result<Dynamic, Box<EvalAltResult>>)
    ensures
        is_bool_result(r, b),
{
    Ok(Dynamic::from_bool(b))
}

/// Apply the built-in `f` to `x` and `y`, whose types are those that `f` reads.
pub fn call_builtin_binary_op(f: BuiltinOp, x: &Dynamic, y: &Dynamic) -> (r: Result<Dynamic, Box<EvalAltResult>>)
    requires
        operands_fit(f, *x, *y),
    ensures
        builtin_binary_result(f, *x, *y, r),
{
    let a = flat_value(x);
    let b = flat_value(y);
    match f {
        BuiltinOp::Constant(v) => bool_dynamic(v),
        BuiltinOp::IntArith(o) => match (a, b) {
            (Union::Int(i), Union::Int(j)) => match apply_int_arith(o, *i, *j) {
                Ok(v) => Ok(Dynamic::from_int(v)),
                Err(e) => Err(e),
            },
            _ => Err(crate::packages::arithmetic::make_err(String::new())),
        },
        BuiltinOp::IntCompare(c) => match (a, b) {
            (Union::Int(i), Union::Int(j)) => bool_dynamic(holds_exec(c, *i < *j, *i == *j)),
            _ => bool_dynamic(false),
        },
        BuiltinOp::IntBits(o) => match (a, b) {
            (Union::Int(i), Union::Int(j)) => {
                let v = match o {
                    BitOp::And => *i & *j,
                    BitOp::Or => *i | *j,
                    BitOp::Xor => *i ^ *j,
                };
                Ok(Dynamic::from_int(v))
            },
            _ => bool_dynamic(false),
        },
        BuiltinOp::BoolCompare(c) => match (a, b) {
            (Union::Bool(p), Union::Bool(q)) => bool_dynamic(holds_exec(c, !*p && *q, *p == *q)),
            _ => bool_dynamic(false),
        },
        BuiltinOp::BoolBits(o) => match (a, b) {
            (Union::Bool(p), Union::Bool(q)) => {
                let v = match o {
                    BitOp::And => *p && *q,
                    BitOp::Or => *p || *q,
                    BitOp::Xor => *p != *q,
                };
                bool_dynamic(v)
            },
            _ => bool_dynamic(false),
        },
        BuiltinOp::StrConcat => match (a, b) {
            (Union::Str(s), Union::Str(t)) => Ok(Dynamic::from_string(s.concat(t))),
            _ => bool_dynamic(false),
        },
        BuiltinOp::StrSubtract => match (a, b) {
            (Union::Str(s), Union::Str(t)) => Ok(Dynamic::from_string(s.sub(t))),
            _ => bool_dynamic(false),
        },
        BuiltinOp::StrCompare(c) => match (a, b) {
            (Union::Str(s), Union::Str(t)) => bool_dynamic(text_holds(c, compare_str(s.as_str(), t.as_str()))),
            _ => bool_dynamic(false),
        },
        BuiltinOp::StrContains => match (a, b) {
            (Union::Str(s), Union::Str(t)) => bool_dynamic(crate::text::contains_str(s.as_str(), t.as_str())),
            _ => bool_dynamic(false),
        },
        BuiltinOp::CharConcat => match (a, b) {
            (Union::Char(p), Union::Char(q)) => {
                let mut s = String::new();
                push_char(&mut s, *p);
                push_char(&mut s, *q);
                assert(s@ == seq![*p, *q]);
                string_dynamic(s)
            },
            _ => bool_dynamic(false),
        },
        BuiltinOp::CharCompare(c) => match (a, b) {
            (Union::Char(p), Union::Char(q)) => bool_dynamic(holds_exec(c, (*p as u32) < (*q as u32), *p == *q)),
            _ => bool_dynamic(false),
        },
        BuiltinOp::CharStrConcat => match (a, b) {
            (Union::Char(p), Union::Str(t)) => {
                let mut s = String::new();
                push_char(&mut s, *p);
                s.append(t.as_str());
                assert(s@ == seq![*p] + t@);
                string_dynamic(s)
            },
            _ => bool_dynamic(false),
        },
        BuiltinOp::CharStrCompare(c) => match (a, b) {
            (Union::Char(p), Union::Str(t)) => {
                let l = char_pair(*p);
                let rr = first_two_exec(t);
                bool_dynamic(text_holds(c, compare_chars(&l, &rr)))
            },
            _ => bool_dynamic(false),
        },
        BuiltinOp::StrCharConcat => match (a, b) {
            (Union::Str(s), Union::Char(q)) => Ok(Dynamic::from_string(s.concat_char(*q))),
            _ => bool_dynamic(false),
        },
        BuiltinOp::StrCharSubtract => match (a, b) {
            (Union::Str(s), Union::Char(q)) => Ok(Dynamic::from_string(s.subtract_char(*q))),
            _ => bool_dynamic(false),
        },
        BuiltinOp::StrCharCompare(c) => match (a, b) {
            (Union::Str(s), Union::Char(q)) => {
                let l = first_two_exec(s);
                let rr = char_pair(*q);
                bool_dynamic(text_holds(c, compare_chars(&l, &rr)))
            },
            _ => bool_dynamic(false),
        },
        BuiltinOp::StrCharContains => match (a, b) {
            (Union::Str(s), Union::Char(q)) => bool_dynamic(contains_char(s.as_str(), *q)),
            _ => bool_dynamic(false),
        },
        BuiltinOp::MapContains => match (a, b) {
            (Union::Object(m), Union::Str(k)) => bool_dynamic(m.has_key(k.as_str())),
            _ => bool_dynamic(false),
        },
    }
}

/// The built-in chosen for two operands only reads operands of the types it expects:
/// its checks of the operand types never fail.
pub proof fn law_builtin_binary_op_fits(op: Seq<char>, x: Dynamic, y: Dynamic)
    requires
        builtin_binary_op(op, x, y) is Some,
    ensures
        operands_fit(builtin_binary_op(op, x, y)->Some_0, x, y),
{
}

/// A built-in implementation of an operator-assignment (`op=`), which changes its left
/// operand in place.
#[derive(Debug, Clone, Copy, PartialEq, Eq, Structural)]
pub enum BuiltinAssignOp {
    /// Checked integer arithmetic.
    IntArith(ArithOp),
    /// Bitwise operation on integers.
    IntBits(BitOp),
    /// `&=` on booleans.
    BoolAnd,
    /// `|=` on booleans.
    BoolOr,
    /// `+=` of a character to a character: the left operand becomes a string.
    CharAppendChar,
    /// `+=` of a string to a character: the left operand becomes a string.
    CharAppendStr,
    /// `+=` of a string to a string.
    StrAppend,
    /// `-=` of a string from a string.
    StrSubtract,
    /// `+=` of a character to a string.
    StrAppendChar,
    /// `-=` of a character from a string.
    StrSubtractChar,
}

/// The checked integer operator that an operator-assignment names, if it names one.
pub open spec fn arith_assign_of(op: Seq<char>) -> Option<ArithOp> {
    if op == "+="@ {
        Some(ArithOp::Add)
    } else if op == "-="@ {
        Some(ArithOp::Subtract)
    } else if op == "*="@ {
        Some(ArithOp::Multiply)
    } else if op == "/="@ {
        Some(ArithOp::Divide)
    } else if op == "%="@ {
        Some(ArithOp::Modulo)
    } else if op == "**="@ {
        Some(ArithOp::Power)
    } else if op == ">>="@ {
        Some(ArithOp::ShiftRight)
    } else if op == "<<="@ {
        Some(ArithOp::ShiftLeft)
    } else {
        None
    }
}

/// The bitwise operator that an operator-assignment names, if it names one.
pub open spec fn bits_assign_of(op: Seq<char>) -> Option<BitOp> {
    if op == "&="@ {
        Some(BitOp::And)
    } else if op == "|="@ {
        Some(BitOp::Or)
    } else if op == "^="@ {
        Some(BitOp::Xor)
    } else {
        None
    }
}

/// The built-in implementation of the operator-assignment `op` on `x` and `y`, if there
/// is one.
pub open spec fn builtin_op_assignment(op: Seq<char>, x: Dynamic, y: Dynamic) -> Option<BuiltinAssignOp> {
    let a = spec_flatten(x).value;
    let b = spec_flatten(y).value;
    if a is Str && b is Char {
        if op == "+="@ {
            Some(BuiltinAssignOp::StrAppendChar)
        } else if op == "-="@ {
            Some(BuiltinAssignOp::StrSubtractChar)
        } else {
            None
        }
    } else if a is Char && b is Str {
        if op == "+="@ {
            Some(BuiltinAssignOp::CharAppendStr)
        } else {
            None
        }
    } else if !same_type(a, b) {
        None
    } else if a is Int {
        match arith_assign_of(op) {
            Some(o) => Some(BuiltinAssignOp::IntArith(o)),
            None => match bits_assign_of(op) {
                Some(o) => Some(BuiltinAssignOp::IntBits(o)),
                None => None,
            },
        }
    } else if a is Bool {
        if op == "&="@ {
            Some(BuiltinAssignOp::BoolAnd)
        } else if op == "|="@ {
            Some(BuiltinAssignOp::BoolOr)
        } else {
            None
        }
    } else if a is Char {
        if op == "+="@ {
            Some(BuiltinAssignOp::CharAppendChar)
        } else {
            None
        }
    } else if a is Str {
        if op == "+="@ {
            Some(BuiltinAssignOp::StrAppend)
        } else if op == "-="@ {
            Some(BuiltinAssignOp::StrSubtract)
        } else {
            None
        }
    } else {
        None
    }
}

fn arith_assign_of_str(op: &str) -> (r: Option<ArithOp>)
    ensures
        r == arith_assign_of(op@),
{
    if str_eq(op, "+=") {
        Some(ArithOp::Add)
    } else if str_eq(op, "-=") {
        Some(ArithOp::Subtract)
    } else if str_eq(op, "*=") {
        Some(ArithOp::Multiply)
    } else if str_eq(op, "/=") {
        Some(ArithOp::Divide)
    } else if str_eq(op, "%=") {
        Some(ArithOp::Modulo)
    } else if str_eq(op, "**=") {
        Some(ArithOp::Power)
    } else if str_eq(op, ">>=") {
        Some(ArithOp::ShiftRight)
    } else if str_eq(op, "<<=") {
        Some(ArithOp::ShiftLeft)
    } else {
        None
    }
}

fn bits_assign_of_str(op: &str) -> (r: Option<BitOp>)
    ensures
        r == bits_assign_of(op@),
{
    if str_eq(op, "&=") {
        Some(BitOp::And)
    } else if str_eq(op, "|=") {
        Some(BitOp::Or)
    } else if str_eq(op, "^=") {
        Some(BitOp::Xor)
    } else {
        None
    }
}

/// The built-in implementation of the operator-assignment `op` on `x` and `y`, if there
/// is one.
pub fn get_builtin_op_assignment_fn(op: &str, x: &Dynamic, y: &Dynamic) -> (r: Option<BuiltinAssignOp>)
    ensures
        r == builtin_op_assignment(op@, *x, *y),
{
    let a = flat_value(x);
    let b = flat_value(y);
    match (a, b) {
        (Union::Str(_), Union::Char(_)) => {
            return if str_eq(op, "+=") {
                Some(BuiltinAssignOp::StrAppendChar)
            } else if str_eq(op, "-=") {
                Some(BuiltinAssignOp::StrSubtractChar)
            } else {
                None
            };
        },
        (Union::Char(_), Union::Str(_)) => {
            return if str_eq(op, "+=") {
                Some(BuiltinAssignOp::CharAppendStr)
            } else {
                None
            };
        },
        _ => {},
    }
    if !same_type_exec(a, b) {
        return None;
    }
    match a {
        Union::Int(_) => match arith_assign_of_str(op) {
            Some(o) => Some(BuiltinAssignOp::IntArith(o)),
            None => match bits_assign_of_str(op) {
                Some(o) => Some(BuiltinAssignOp::IntBits(o)),
                None => None,
            },
        },
        Union::Bool(_) => {
            if str_eq(op, "&=") {
                Some(BuiltinAssignOp::BoolAnd)
            } else if str_eq(op, "|=") {
                Some(BuiltinAssignOp::BoolOr)
            } else {
                None
            }
        },
        Union::Char(_) => {
            if str_eq(op, "+=") {
                Some(BuiltinAssignOp::CharAppendChar)
            } else {
                None
            }
        },
        Union::Str(_) => {
            if str_eq(op, "+=") {
                Some(BuiltinAssignOp::StrAppend)
            } else if str_eq(op, "-=") {
                Some(BuiltinAssignOp::StrSubtract)
            } else {
                None
            }
        },
        _ => None,
    }
}

/// `d` with the innermost (unshared) value replaced by `v`, tags and access modes kept.
pub open spec fn with_flat_union(d: Dynamic, v: Union) -> Dynamic
    decreases d,
{
    match d.value {
        Union::Shared(inner) => Dynamic { value: Union::Shared(Box::new(with_flat_union(*inner, v))), ..d },
        _ => Dynamic { value: v, ..d },
    }
}

/// `d` with the innermost (unshared) value replaced by a string with text `text`, tags
/// and access modes kept.
pub open spec fn str_written(old: Dynamic, new: Dynamic, text: Seq<char>) -> bool
    decreases old,
{
    &&& new.tag == old.tag
    &&& new.access == old.access
    &&& match old.value {
        Union::Shared(inner) => new.value matches Union::Shared(n) && str_written(*inner, *n, text),
        _ => new.value matches Union::Str(s) && s@ == text,
    }
}

/// `d` with the innermost (unshared) value replaced as a whole by a plain string value
/// with text `text` (whose own tag is zero); the sharing wrappers keep theirs.
pub open spec fn string_value_written(old: Dynamic, new: Dynamic, text: Seq<char>) -> bool
    decreases old,
{
    match old.value {
        Union::Shared(inner) => new.tag == old.tag && new.access == old.access && (new.value matches Union::Shared(
            n,
        ) && string_value_written(*inner, *n, text)),
        _ => is_string_value(new, text),
    }
}

/// Replace the innermost (unshared) value of `d` by `v`.
fn set_flat_union(d: &mut Dynamic, v: Union)
    ensures
        *final(d) == with_flat_union(*old(d), v),
    decreases *old(d),
{
    match &mut d.value {
        Union::Shared(inner) => {
            set_flat_union(&mut **inner, v);
            return;
        },
        _ => {},
    }
    d.value = v;
}

/// Replace the innermost (unshared) value of `d` as a whole by `new`.
fn set_flat_dynamic(d: &mut Dynamic, new: Dynamic, Ghost(text): Ghost<Seq<char>>)
    requires
        is_string_value(new, text),
    ensures
        string_value_written(*old(d), *final(d), text),
    decreases *old(d),
{
    match &mut d.value {
        Union::Shared(inner) => {
            set_flat_dynamic(&mut **inner, new, Ghost(text));
            return;
        },
        _ => {},
    }
    *d = new;
}

proof fn lemma_str_written(d: Dynamic, s: ImmutableString)
    ensures
        str_written(d, with_flat_union(d, Union::Str(s)), s@),
    decreases d,
{
    match d.value {
        Union::Shared(inner) => lemma_str_written(*inner, s),
        _ => {},
    }
}

/// Are `x` and `y` of the types that the built-in assignment `f` reads?
pub open spec fn assign_operands_fit(f: BuiltinAssignOp, x: Dynamic, y: Dynamic) -> bool {
    let a = spec_flatten(x).value;
    let b = spec_flatten(y).value;
    match f {
        BuiltinAssignOp::IntArith(_) | BuiltinAssignOp::IntBits(_) => a is Int && b is Int,
        BuiltinAssignOp::BoolAnd | BuiltinAssignOp::BoolOr => a is Bool && b is Bool,
        BuiltinAssignOp::CharAppendChar => a is Char && b is Char,
        BuiltinAssignOp::CharAppendStr => a is Char && b is Str,
        BuiltinAssignOp::StrAppend | BuiltinAssignOp::StrSubtract => a is Str && b is Str,
        BuiltinAssignOp::StrAppendChar | BuiltinAssignOp::StrSubtractChar => a is Str && b is Char,
    }
}

/// What the built-in assignment `f` does to `x` (from `old` to `new`) with `y`, and what
/// it returns.
pub open spec fn builtin_assign_result(
    f: BuiltinAssignOp,
    old: Dynamic,
    y: Dynamic,
    new: Dynamic,
    r: Result<Dynamic, Box<EvalAltResult>>,
) -> bool {
    let a = spec_flatten(old).value;
    let b = spec_flatten(y).value;
    let done = r == Ok::<Dynamic, Box<EvalAltResult>>(Dynamic::spec_of(Union::Unit));
    match f {
        BuiltinAssignOp::IntArith(o) => a matches Union::Int(i) && b matches Union::Int(j) && match arith_spec(
            o,
            i,
            j,
        ) {
            Ok(v) => done && new == with_flat_union(old, Union::Int(v as INT)),
            Err(m) => fails_with(r, m) && new == old,
        },
        BuiltinAssignOp::IntBits(o) => a matches Union::Int(i) && b matches Union::Int(j) && done && new
            == with_flat_union(old, Union::Int(int_bits(o, i, j))),
        BuiltinAssignOp::BoolAnd => a matches Union::Bool(p) && b matches Union::Bool(q) && done && new
            == with_flat_union(old, Union::Bool(p && q)),
        BuiltinAssignOp::BoolOr => a matches Union::Bool(p) && b matches Union::Bool(q) && done && new
            == with_flat_union(old, Union::Bool(p || q)),
        BuiltinAssignOp::CharAppendChar => a matches Union::Char(p) && b matches Union::Char(q) && done
            && string_value_written(old, new, seq![p, q]),
        BuiltinAssignOp::CharAppendStr => a matches Union::Char(p) && b matches Union::Str(t) && done
            && string_value_written(old, new, seq![p] + t@),
        BuiltinAssignOp::StrAppend => a matches Union::Str(s) && b matches Union::Str(t) && done && str_written(
            old,
            new,
            s@ + t@,
        ),
        BuiltinAssignOp::StrSubtract => a matches Union::Str(s) && b matches Union::Str(t) && done
            && str_written(
            old,
            new,
            if t@.len() == 0 {
                s@
            } else if s@.len() == 0 {
                t@
            } else {
                remove_all(s@, t@)
            },
        ),
        BuiltinAssignOp::StrAppendChar => a matches Union::Str(s) && b matches Union::Char(q) && done
            && str_written(old, new, s@.push(q)),
        BuiltinAssignOp::StrSubtractChar => a matches Union::Str(s) && b matches Union::Char(q) && done
            && str_written(old, new, remove_all(s@, seq![q])),
    }
}

fn write_str(x: &mut Dynamic, s: ImmutableString)
    ensures
        str_written(*old(x), *final(x), s@),
{
    proof {
        lemma_str_written(*x, s);
    }
    set_flat_union(x, Union::Str(s));
}

/// Apply the built-in assignment `f` to `x` with `y`, whose types are those that `f`
/// reads; on an error `x` is left as it was.
pub fn call_builtin_op_assignment(f: BuiltinAssignOp, x: &mut Dynamic, y: &Dynamic) -> (r: Result<Dynamic, Box<EvalAltResult>>)
    requires
        assign_operands_fit(f, *old(x), *y),
    ensures
        builtin_assign_result(f, *old(x), *y, *final(x), r),
{
    let b = flat_value(y);
    match f {
        BuiltinAssignOp::IntArith(o) => {
            let (i, j) = match (flat_value(x), b) {
                (Union::Int(i), Union::Int(j)) => (*i, *j),
                _ => (0, 0),
            };
            match apply_int_arith(o, i, j) {
                Ok(v) => {
                    set_flat_union(x, Union::Int(v));
                    Ok(Dynamic::unit())
                },
                Err(e) => Err(e),
            }
        },
        BuiltinAssignOp::IntBits(o) => {
            let (i, j) = match (flat_value(x), b) {
                (Union::Int(i), Union::Int(j)) => (*i, *j),
                _ => (0, 0),
            };
            let v = match o {
                BitOp::And => i & j,
                BitOp::Or => i | j,
                BitOp::Xor => i ^ j,
            };
            set_flat_union(x, Union::Int(v));
            Ok(Dynamic::unit())
        },
        BuiltinAssignOp::BoolAnd | BuiltinAssignOp::BoolOr => {
            let (p, q) = match (flat_value(x), b) {
                (Union::Bool(p), Union::Bool(q)) => (*p, *q),
                _ => (false, false),
            };
            let v = match f {
                BuiltinAssignOp::BoolAnd => p && q,
                _ => p || q,
            };
            set_flat_union(x, Union::Bool(v));
            Ok(Dynamic::unit())
        },
        BuiltinAssignOp::CharAppendChar => {
            let (p, q) = match (flat_value(x), b) {
                (Union::Char(p), Union::Char(q)) => (*p, *q),
                _ => ('\0', '\0'),
            };
            let mut s = String::new();
            push_char(&mut s, p);
            push_char(&mut s, q);
            assert(s@ == seq![p, q]);
            let ghost text = s@;
            set_flat_dynamic(x, Dynamic::from_string(ImmutableString::from_string(s)), Ghost(text));
            Ok(Dynamic::unit())
        },
        BuiltinAssignOp::CharAppendStr => {
            let p = match flat_value(x) {
                Union::Char(p) => *p,
                _ => '\0',
            };
            let mut s = String::new();
            push_char(&mut s, p);
            match b {
                Union::Str(t) => s.append(t.as_str()),
                _ => {},
            }
            let ghost text = s@;
            set_flat_dynamic(x, Dynamic::from_string(ImmutableString::from_string(s)), Ghost(text));
            Ok(Dynamic::unit())
        },
        BuiltinAssignOp::StrAppend | BuiltinAssignOp::StrSubtract => {
            let mut s = match flat_value(x) {
                Union::Str(s) => s.clone(),
                _ => ImmutableString::new(),
            };
            match b {
                Union::Str(t) => match f {
                    BuiltinAssignOp::StrAppend => s.add_assign(t),
                    _ => s.sub_assign(t),
                },
                _ => {},
            }
            write_str(x, s);
            Ok(Dynamic::unit())
        },
        BuiltinAssignOp::StrAppendChar | BuiltinAssignOp::StrSubtractChar => {
            let s = match flat_value(x) {
                Union::Str(s) => s.clone(),
                _ => ImmutableString::new(),
            };
            let q = match b {
                Union::Char(q) => *q,
                _ => '\0',
            };
            let s = match f {
                BuiltinAssignOp::StrAppendChar => s.concat_char(q),
                _ => s.subtract_char(q),
            };
            write_str(x, s);
            Ok(Dynamic::unit())
        },
    }
}

/// The built-in assignment chosen for two operands only reads operands of the types it
/// expects: its checks of the operand types never fail.
pub proof fn law_builtin_op_assignment_fits(op: Seq<char>, x: Dynamic, y: Dynamic)
    requires
        builtin_op_assignment(op, x, y) is Some,
    ensures
        assign_operands_fit(builtin_op_assignment(op, x, y)->Some_0, x, y),
{
}

proof fn lemma_flatten_with_flat_union(d: Dynamic, v: Union)
    requires
        !(v is Shared),
    ensures
        spec_flatten(with_flat_union(d, v)) == (Dynamic { value: v, ..spec_flatten(d) }),
    decreases d,
{
    match d.value {
        Union::Shared(inner) => lemma_flatten_with_flat_union(*inner, v),
        _ => {},
    }
}

/// An integer compound assignment (`x op= y`) stores in `x` what the operator `x op y`
/// computes, and fails exactly where the operator fails, with the same message (and
/// then leaves `x` as it was).
pub proof fn law_int_assignment_matches_operator(
    o: ArithOp,
    x: Dynamic,
    y: Dynamic,
    new: Dynamic,
    assigned: Result<Dynamic, Box<EvalAltResult>>,
    computed: Result<Dynamic, Box<EvalAltResult>>,
)
    requires
        builtin_assign_result(BuiltinAssignOp::IntArith(o), x, y, new, assigned),
        builtin_binary_result(BuiltinOp::IntArith(o), x, y, computed),
    ensures
        assigned is Ok <==> computed is Ok,
        computed is Ok ==> computed == Ok::<Dynamic, Box<EvalAltResult>>(Dynamic::spec_of(spec_flatten(new).value)),
        assigned is Err ==> new == x && exists|m: Seq<char>| fails_with(assigned, m) && fails_with(computed, m),
{
    let a = spec_flatten(x).value;
    let b = spec_flatten(y).value;
    if let (Union::Int(i), Union::Int(j)) = (a, b) {
        match arith_spec(o, i, j) {
            Ok(v) => {
                lemma_flatten_with_flat_union(x, Union::Int(v as INT));
            },
            Err(m) => {
                assert(fails_with(assigned, m) && fails_with(computed, m));
            },
        }
    }
}

/// A string `+=` leaves in the left operand the text that `+` computes.
pub proof fn law_str_append_matches_concat(
    x: Dynamic,
    y: Dynamic,
    new: Dynamic,
    assigned: Result<Dynamic, Box<EvalAltResult>>,
    computed: Result<Dynamic, Box<EvalAltResult>>,
)
    requires
        builtin_assign_result(BuiltinAssignOp::StrAppend, x, y, new, assigned),
        builtin_binary_result(BuiltinOp::StrConcat, x, y, computed),
    ensures
        computed matches Ok(d) && str_written(x, new, spec_flatten(d).value->Str_0@),
{
}


/// The comparison operators, as text.
proof fn lemma_operator_texts()
    ensures
        "=="@ != "!="@ && "=="@ != "<"@ && "=="@ != "<="@ && "=="@ != ">"@ && "=="@ != ">="@,
        "!="@ != "<"@ && "!="@ != "<="@ && "!="@ != ">"@ && "!="@ != ">="@,
        "<"@ != "<="@ && "<"@ != ">"@ && "<"@ != ">="@ && "<="@ != ">"@ && "<="@ != ">="@ && ">"@ != ">="@,
        "=="@.len() == 2 && "!="@.len() == 2 && "<="@.len() == 2 && ">="@.len() == 2 && "<"@.len() == 1 && ">"@.len() == 1,
        "=="@[0] == '=' && "!="@[0] == '!' && "<="@[0] == '<' && ">="@[0] == '>' && "<"@[0] == '<' && ">"@[0] == '>',
        "+"@.len() == 1 && "+"@[0] == '+' && "-"@.len() == 1 && "-"@[0] == '-' && "*"@.len() == 1 && "*"@[0] == '*',
        "/"@.len() == 1 && "/"@[0] == '/' && "%"@.len() == 1 && "%"@[0] == '%',
        "**"@.len() == 2 && "**"@[0] == '*' && ">>"@.len() == 2 && ">>"@[0] == '>' && ">>"@[1] == '>',
        "<<"@.len() == 2 && "<<"@[0] == '<' && "<<"@[1] == '<' && "<="@[1] == '=' && ">="@[1] == '=',
        "&"@.len() == 1 && "&"@[0] == '&' && "|"@.len() == 1 && "|"@[0] == '|' && "^"@.len() == 1 && "^"@[0] == '^',
        OP_CONTAINS@.len() == 8,
{
    reveal_strlit("==");
    reveal_strlit("!=");
    reveal_strlit("<");
    reveal_strlit("<=");
    reveal_strlit(">");
    reveal_strlit(">=");
    reveal_strlit("+");
    reveal_strlit("-");
    reveal_strlit("*");
    reveal_strlit("/");
    reveal_strlit("%");
    reveal_strlit("**");
    reveal_strlit(">>");
    reveal_strlit("<<");
    reveal_strlit("&");
    reveal_strlit("|");
    reveal_strlit("^");
    reveal_strlit("contains");
    assert("=="@ != "!="@) by {
        assert("=="@[0] != "!="@[0]);
    }
    assert("=="@ != "<"@) by {
        assert("=="@.len() != "<"@.len());
    }
    assert("=="@ != "<="@) by {
        assert("=="@[0] != "<="@[0]);
    }
    assert("=="@ != ">"@) by {
        assert("=="@.len() != ">"@.len());
    }
    assert("=="@ != ">="@) by {
        assert("=="@[0] != ">="@[0]);
    }
    assert("!="@ != "<"@) by {
        assert("!="@.len() != "<"@.len());
    }
    assert("!="@ != "<="@) by {
        assert("!="@[0] != "<="@[0]);
    }
    assert("!="@ != ">"@) by {
        assert("!="@.len() != ">"@.len());
    }
    assert("!="@ != ">="@) by {
        assert("!="@[0] != ">="@[0]);
    }
    assert("<"@ != "<="@) by {
        assert("<"@.len() != "<="@.len());
    }
    assert("<"@ != ">"@) by {
        assert("<"@[0] != ">"@[0]);
    }
    assert("<"@ != ">="@) by {
        assert("<"@.len() != ">="@.len());
    }
    assert("<="@ != ">"@) by {
        assert("<="@.len() != ">"@.len());
    }
    assert("<="@ != ">="@) by {
        assert("<="@[0] != ">="@[0]);
    }
    assert(">"@ != ">="@) by {
        assert(">"@.len() != ">="@.len());
    }
}

/// Two integers compared with a built-in comparison operator give the comparison of their
/// values: `>=` is true exactly when the first is at least the second, and so on.
pub proof fn law_int_comparisons(op: Seq<char>, x: INT, y: INT, r: Result<Dynamic, Box<EvalAltResult>>)
    requires
        builtin_binary_op(op, Dynamic::spec_of(Union::Int(x)), Dynamic::spec_of(Union::Int(y))) matches Some(f)
            && builtin_binary_result(f, Dynamic::spec_of(Union::Int(x)), Dynamic::spec_of(Union::Int(y)), r),
    ensures
        op == "=="@ ==> is_bool_result(r, x == y),
        op == "!="@ ==> is_bool_result(r, x != y),
        op == "<"@ ==> is_bool_result(r, x < y),
        op == "<="@ ==> is_bool_result(r, x <= y),
        op == ">"@ ==> is_bool_result(r, x > y),
        op == ">="@ ==> is_bool_result(r, x >= y),
{
    lemma_operator_texts();
}

/// Two booleans compared with a built-in comparison operator give the comparison of their
/// values, `false` being less than `true`.
pub proof fn law_bool_comparisons(op: Seq<char>, x: bool, y: bool, r: Result<Dynamic, Box<EvalAltResult>>)
    requires
        builtin_binary_op(op, Dynamic::spec_of(Union::Bool(x)), Dynamic::spec_of(Union::Bool(y))) matches Some(f)
            && builtin_binary_result(f, Dynamic::spec_of(Union::Bool(x)), Dynamic::spec_of(Union::Bool(y)), r),
    ensures
        op == "=="@ ==> is_bool_result(r, x == y),
        op == "!="@ ==> is_bool_result(r, x != y),
        op == "<"@ ==> is_bool_result(r, !x && y),
        op == "<="@ ==> is_bool_result(r, !x || y),
        op == ">"@ ==> is_bool_result(r, x && !y),
        op == ">="@ ==> is_bool_result(r, x || !y),
{
    lemma_operator_texts();
}

/// Two characters compared with a built-in comparison operator give the comparison of
/// their code points.
pub proof fn law_char_comparisons(op: Seq<char>, x: char, y: char, r: Result<Dynamic, Box<EvalAltResult>>)
    requires
        builtin_binary_op(op, Dynamic::spec_of(Union::Char(x)), Dynamic::spec_of(Union::Char(y))) matches Some(f)
            && builtin_binary_result(f, Dynamic::spec_of(Union::Char(x)), Dynamic::spec_of(Union::Char(y)), r),
    ensures
        op == "=="@ ==> is_bool_result(r, x == y),
        op == "!="@ ==> is_bool_result(r, x != y),
        op == "<"@ ==> is_bool_result(r, (x as u32) < (y as u32)),
        op == "<="@ ==> is_bool_result(r, (x as u32) <= (y as u32)),
        op == ">"@ ==> is_bool_result(r, (x as u32) > (y as u32)),
        op == ">="@ ==> is_bool_result(r, (x as u32) >= (y as u32)),
{
    lemma_operator_texts();
    assert(x == y <==> (x as u32) == (y as u32));
}

/// Two strings compared with a built-in comparison operator give the comparison of their
/// texts in lexicographic order: `>=` is true exactly when the first does not come
/// before the second (in particular for equal texts).
pub proof fn law_str_comparisons(op: Seq<char>, x: ImmutableString, y: ImmutableString, r: Result<Dynamic, Box<EvalAltResult>>)
    requires
        builtin_binary_op(op, Dynamic::spec_of(Union::Str(x)), Dynamic::spec_of(Union::Str(y))) matches Some(f)
            && builtin_binary_result(f, Dynamic::spec_of(Union::Str(x)), Dynamic::spec_of(Union::Str(y)), r),
    ensures
        op == "=="@ ==> is_bool_result(r, x@ == y@),
        op == "!="@ ==> is_bool_result(r, x@ != y@),
        op == "<"@ ==> is_bool_result(r, text_lt(x@, y@)),
        op == "<="@ ==> is_bool_result(r, text_lt(x@, y@) || x@ == y@),
        op == ">"@ ==> is_bool_result(r, !text_lt(x@, y@) && x@ != y@),
        op == ">="@ ==> is_bool_result(r, !text_lt(x@, y@)),
{
    lemma_operator_texts();
}

} // verus!
