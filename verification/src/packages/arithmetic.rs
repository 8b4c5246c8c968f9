//! Checked integer arithmetic for scripts.
use vstd::prelude::*;
use vstd::arithmetic::power::pow;
use crate::error::EvalAltResult;
use crate::packages::math_basic::is_arithmetic_error;
use crate::position::Position;
use crate::text::{decimal_text, write_decimal};
use crate::INT;

verus! {

/// The largest exponent or shift amount that is not refused outright.
pub const MAX_INDEX: INT = 4294967295;

/// The text of a failed binary operation: `head`, the left operand, `op`, the right operand.
pub open spec fn op_message(head: Seq<char>, x: int, op: Seq<char>, y: int) -> Seq<char> {
    head + decimal_text(x) + op + decimal_text(y)
}

/// Does `r` fail with an arithmetic error carrying `msg`?
pub open spec fn fails_with<T>(r: Result<T, Box<EvalAltResult>>, msg: Seq<char>) -> bool {
    r is Err && is_arithmetic_error(*r->Err_0, msg)
}

/// Is `v` a value of the script integer type?
pub open spec fn in_int_range(v: int) -> bool {
    INT::MIN <= v <= INT::MAX
}

/// The absolute value of an integer.
pub open spec fn abs_int(v: int) -> int {
    if v < 0 { -v } else { v }
}

/// Division that rounds towards zero.
pub open spec fn trunc_div(x: int, y: int) -> int {
    if (x < 0) == (y < 0) { abs_int(x) / abs_int(y) } else { -(abs_int(x) / abs_int(y)) }
}

/// The remainder of division that rounds towards zero; it takes the sign of `x`.
pub open spec fn trunc_rem(x: int, y: int) -> int {
    if x < 0 { -(abs_int(x) % abs_int(y)) } else { abs_int(x) % abs_int(y) }
}

/// An arithmetic error with the given message and no position.
pub fn make_err(msg: String) -> (e: Box<EvalAltResult>)
    ensures
        is_arithmetic_error(*e, msg@),
{
    Box::new(EvalAltResult::ErrorArithmetic(msg, Position::none()))
}

fn op_text(head: &str, x: INT, op: &str, y: INT) -> (s: String)
    ensures
        s@ == op_message(head@, x as int, op@, y as int),
{
    let mut s = String::from_str(head);
    write_decimal(&mut s, x as i128);
    s.append(op);
    write_decimal(&mut s, y as i128);
    s
}

/// `x + y`, or an error where the sum does not fit.
pub fn add(x: INT, y: INT) -> (r: Result<INT, Box<EvalAltResult>>)
    ensures
        in_int_range(x + y) ==> r == Ok::<INT, Box<EvalAltResult>>((x + y) as INT),
        !in_int_range(x + y) ==> fails_with(r, op_message("Addition overflow: "@, x as int, " + "@, y as int)),
{
    match x.checked_add(y) {
        Some(v) => Ok(v),
        None => Err(make_err(op_text("Addition overflow: ", x, " + ", y))),
    }
}

/// `x - y`, or an error where the difference does not fit.
pub fn subtract(x: INT, y: INT) -> (r: Result<INT, Box<EvalAltResult>>)
    ensures
        in_int_range(x - y) ==> r == Ok::<INT, Box<EvalAltResult>>((x - y) as INT),
        !in_int_range(x - y) ==> fails_with(r, op_message("Subtraction overflow: "@, x as int, " - "@, y as int)),
{
    match x.checked_sub(y) {
        Some(v) => Ok(v),
        None => Err(make_err(op_text("Subtraction overflow: ", x, " - ", y))),
    }
}

/// `x * y`, or an error where the product does not fit.
pub fn multiply(x: INT, y: INT) -> (r: Result<INT, Box<EvalAltResult>>)
    ensures
        in_int_range(x * y) ==> r == Ok::<INT, Box<EvalAltResult>>((x * y) as INT),
        !in_int_range(x * y) ==> fails_with(r, op_message("Multiplication overflow: "@, x as int, " * "@, y as int)),
{
    match x.checked_mul(y) {
        Some(v) => Ok(v),
        None => Err(make_err(op_text("Multiplication overflow: ", x, " * ", y))),
    }
}

proof fn lemma_checked_div(x: INT, y: INT)
    requires
        y != 0,
        !(x == INT::MIN && y == -1),
    ensures
        x.checked_div(y) == Some(trunc_div(x as int, y as int) as INT),
        in_int_range(trunc_div(x as int, y as int)),
{
    let a = abs_int(x as int);
    let b = abs_int(y as int);
    assert(0 <= a / b <= a) by (nonlinear_arith)
        requires
            a >= 0,
            b >= 1,
    ;
    assert(b >= 2 && a >= 1 ==> a / b < a) by (nonlinear_arith)
        requires
            a >= 0,
            b >= 1,
    ;
    let xi = x as int;
    let d = y as int;
    if x == 0 {
        assert(0int / b == 0) by (nonlinear_arith)
            requires
                b >= 1,
        ;
    } else if xi > 0 && d > 0 {
        assert(a == xi && b == d);
    } else if xi < 0 && d < 0 {
        assert(a == xi * -1 && b == d * -1);
    } else if xi < 0 {
        assert(a == xi * -1 && b == d);
    } else {
        assert(a == xi && b == d * -1);
    }
}

proof fn lemma_checked_rem(x: INT, y: INT)
    requires
        y != 0,
        !(x == INT::MIN && y == -1),
    ensures
        x.checked_rem(y) == Some(trunc_rem(x as int, y as int) as INT),
        in_int_range(trunc_rem(x as int, y as int)),
{
    let a = abs_int(x as int);
    let b = abs_int(y as int);
    assert(0 <= a % b < b) by (nonlinear_arith)
        requires
            a >= 0,
            b >= 1,
    ;
    if x == 0 {
        assert(0int % b == 0) by (nonlinear_arith)
            requires
                b >= 1,
        ;
    }
}

/// `x / y` rounded towards zero, or an error for a zero divisor or a quotient that
/// does not fit.
pub fn divide(x: INT, y: INT) -> (r: Result<INT, Box<EvalAltResult>>)
    ensures
        y == 0 ==> fails_with(r, op_message("Division by zero: "@, x as int, " / "@, y as int)),
        y != 0 && x == INT::MIN && y == -1 ==> fails_with(
            r,
            op_message("Division overflow: "@, x as int, " / "@, y as int),
        ),
        y != 0 && !(x == INT::MIN && y == -1) ==> r == Ok::<INT, Box<EvalAltResult>>(
            trunc_div(x as int, y as int) as INT,
        ),
{
    if y == 0 {
        return Err(make_err(op_text("Division by zero: ", x, " / ", y)));
    }
    if x == INT::MIN && y == -1 {
        return Err(make_err(op_text("Division overflow: ", x, " / ", y)));
    }
    proof {
        lemma_checked_div(x, y);
    }
    match x.checked_div(y) {
        Some(v) => Ok(v),
        None => Err(make_err(op_text("Division overflow: ", x, " / ", y))),
    }
}

/// The remainder of `x / y` rounded towards zero, or an error for a zero divisor or
/// an overflow.
pub fn modulo(x: INT, y: INT) -> (r: Result<INT, Box<EvalAltResult>>)
    ensures
        y == 0 || (x == INT::MIN && y == -1) ==> fails_with(
            r,
            op_message("Modulo division by zero or overflow: "@, x as int, " % "@, y as int),
        ),
        !(y == 0 || (x == INT::MIN && y == -1)) ==> r == Ok::<INT, Box<EvalAltResult>>(
            trunc_rem(x as int, y as int) as INT,
        ),
{
    if !(y == 0 || (x == INT::MIN && y == -1)) {
        proof {
            lemma_checked_rem(x, y);
        }
    }
    match x.checked_rem(y) {
        Some(v) => Ok(v),
        None => Err(make_err(op_text("Modulo division by zero or overflow: ", x, " % ", y))),
    }
}

proof fn lemma_abs_mul(a: int, b: int)
    ensures
        abs_int(a * b) == abs_int(a) * abs_int(b),
{
    if a < 0 && b < 0 {
        assert(a * b == (-a) * (-b)) by (nonlinear_arith);
        assert((-a) * (-b) >= 0) by (nonlinear_arith)
            requires
                a < 0,
                b < 0,
        ;
    } else if a < 0 {
        assert(a * b == -((-a) * b)) by (nonlinear_arith);
        assert((-a) * b >= 0) by (nonlinear_arith)
            requires
                a < 0,
                b >= 0,
        ;
    } else if b < 0 {
        assert(a * b == -(a * (-b))) by (nonlinear_arith);
        assert(a * (-b) >= 0) by (nonlinear_arith)
            requires
                a >= 0,
                b < 0,
        ;
    } else {
        assert(a * b >= 0) by (nonlinear_arith)
            requires
                a >= 0,
                b >= 0,
        ;
    }
}

proof fn lemma_pow_step(x: int, e: nat)
    ensures
        pow(x, e + 1) == x * pow(x, e),
{
    reveal(pow);
}

/// For a base of absolute value two or more, each further factor at least doubles the
/// absolute value of the power.
proof fn lemma_pow_grows(x: int, n: nat, m: nat)
    requires
        abs_int(x) >= 2,
        n <= m,
    ensures
        abs_int(pow(x, m)) >= abs_int(pow(x, n)),
        n < m ==> abs_int(pow(x, m)) >= 2 * abs_int(pow(x, n)),
    decreases m - n,
{
    if n < m {
        let k = (m - 1) as nat;
        lemma_pow_grows(x, n, k);
        lemma_pow_step(x, k);
        lemma_abs_mul(x, pow(x, k));
        let p = abs_int(pow(x, k));
        assert(abs_int(x) * p >= 2 * p) by (nonlinear_arith)
            requires
                abs_int(x) >= 2,
                p >= 0,
        ;
    }
}

proof fn lemma_pow_unit(x: int, e: nat)
    requires
        x == 0 || x == 1 || x == -1,
    ensures
        pow(x, e) == (if x == 0 {
            if e == 0 { 1int } else { 0 }
        } else if x == 1 || e % 2 == 0 {
            1
        } else {
            -1
        }),
    decreases e,
{
    reveal(pow);
    if e > 0 {
        lemma_pow_unit(x, (e - 1) as nat);
    }
}

/// `x` raised to the power `e`, or `None` where the result does not fit.
fn checked_power(x: INT, e: u32) -> (r: Option<INT>)
    ensures
        r == (if in_int_range(pow(x as int, e as nat)) {
            Some(pow(x as int, e as nat) as INT)
        } else {
            None
        }),
{
    if x == 0 || x == 1 || x == -1 {
        proof {
            lemma_pow_unit(x as int, e as nat);
        }
        return if x == 0 {
            if e == 0 { Some(1) } else { Some(0) }
        } else if x == 1 || e % 2 == 0 {
            Some(1)
        } else {
            Some(-1)
        };
    }
    let mut acc: INT = 1;
    let mut i: u32 = 0;
    proof {
        reveal(pow);
    }
    while i < e
        invariant
            i <= e,
            acc == pow(x as int, i as nat),
            abs_int(x as int) >= 2,
        decreases e - i,
    {
        proof {
            lemma_pow_step(x as int, i as nat);
        }
        match acc.checked_mul(x) {
            Some(v) => {
                acc = v;
                i = i + 1;
            },
            None => {
                proof {
                    lemma_pow_grows(x as int, (i + 1) as nat, e as nat);
                }
                return None;
            },
        }
    }
    Some(acc)
}

/// `x` raised to the power `y`, or an error for an index that is negative or too large,
/// or a result that does not fit.
pub fn power(x: INT, y: INT) -> (r: Result<INT, Box<EvalAltResult>>)
    ensures
        y > MAX_INDEX ==> fails_with(
            r,
            op_message("Integer raised to too large an index: "@, x as int, " ~ "@, y as int),
        ),
        y < 0 ==> fails_with(r, op_message("Integer raised to a negative index: "@, x as int, " ~ "@, y as int)),
        0 <= y <= MAX_INDEX && in_int_range(pow(x as int, y as nat)) ==> r == Ok::<INT, Box<EvalAltResult>>(
            pow(x as int, y as nat) as INT,
        ),
        0 <= y <= MAX_INDEX && !in_int_range(pow(x as int, y as nat)) ==> fails_with(
            r,
            op_message("Exponential overflow: "@, x as int, " ~ "@, y as int),
        ),
{
    if y > MAX_INDEX {
        return Err(make_err(op_text("Integer raised to too large an index: ", x, " ~ ", y)));
    }
    if y < 0 {
        return Err(make_err(op_text("Integer raised to a negative index: ", x, " ~ ", y)));
    }
    match checked_power(x, y as u32) {
        Some(v) => Ok(v),
        None => Err(make_err(op_text("Exponential overflow: ", x, " ~ ", y))),
    }
}

/// `x` shifted left by `y` bits, the bits shifted out dropped; an error for a negative
/// shift or one of 64 bits or more.
pub fn shift_left(x: INT, y: INT) -> (r: Result<INT, Box<EvalAltResult>>)
    ensures
        y > MAX_INDEX || y >= 64 ==> fails_with(
            r,
            op_message("Left-shift by too many bits: "@, x as int, " << "@, y as int),
        ),
        y < 0 ==> fails_with(r, op_message("Left-shift by a negative number: "@, x as int, " << "@, y as int)),
        0 <= y < 64 ==> r == Ok::<INT, Box<EvalAltResult>>(x << (y as u32)),
{
    if y > MAX_INDEX {
        return Err(make_err(op_text("Left-shift by too many bits: ", x, " << ", y)));
    }
    if y < 0 {
        return Err(make_err(op_text("Left-shift by a negative number: ", x, " << ", y)));
    }
    if y >= 64 {
        return Err(make_err(op_text("Left-shift by too many bits: ", x, " << ", y)));
    }
    Ok(x << (y as u32))
}

/// `x` shifted right by `y` bits, the sign kept; an error for a negative shift or one of
/// 64 bits or more.
pub fn shift_right(x: INT, y: INT) -> (r: Result<INT, Box<EvalAltResult>>)
    ensures
        y > MAX_INDEX || y >= 64 ==> fails_with(
            r,
            op_message("Right-shift by too many bits: "@, x as int, " >> "@, y as int),
        ),
        y < 0 ==> fails_with(r, op_message("Right-shift by a negative number: "@, x as int, " >> "@, y as int)),
        0 <= y < 64 ==> r == Ok::<INT, Box<EvalAltResult>>(x >> (y as u32)),
{
    if y > MAX_INDEX {
        return Err(make_err(op_text("Right-shift by too many bits: ", x, " >> ", y)));
    }
    if y < 0 {
        return Err(make_err(op_text("Right-shift by a negative number: ", x, " >> ", y)));
    }
    if y >= 64 {
        return Err(make_err(op_text("Right-shift by too many bits: ", x, " >> ", y)));
    }
    Ok(x >> (y as u32))
}

/// Division and remainder agree: wherever `divide` and `modulo` succeed, the quotient
/// times the divisor plus the remainder gives back the dividend, and the remainder is
/// smaller than the divisor in absolute value and never of the opposite sign to the
/// dividend.
pub proof fn law_divide_modulo(x: INT, y: INT)
    requires
        y != 0,
        !(x == INT::MIN && y == -1),
    ensures
        trunc_div(x as int, y as int) * y + trunc_rem(x as int, y as int) == x,
        abs_int(trunc_rem(x as int, y as int)) < abs_int(y as int),
        x >= 0 ==> trunc_rem(x as int, y as int) >= 0,
        x <= 0 ==> trunc_rem(x as int, y as int) <= 0,
{
    let a = abs_int(x as int);
    let b = abs_int(y as int);
    assert(a == (a / b) * b + a % b && 0 <= a % b < b) by (nonlinear_arith)
        requires
            a >= 0,
            b >= 1,
    ;
    let q = a / b;
    if y < 0 {
        assert(q * b == -(q * y)) by (nonlinear_arith)
            requires
                b == -y,
        ;
        assert((-q) * y == q * b) by (nonlinear_arith)
            requires
                b == -y,
        ;
    } else {
        assert((-q) * y == -(q * b)) by (nonlinear_arith)
            requires
                b == y,
        ;
    }
}

fn negation_text(x: INT) -> (s: String)
    ensures
        s@ == "Negation overflow: -"@ + decimal_text(x as int),
{
    let mut s = String::from_str("Negation overflow: -");
    write_decimal(&mut s, x as i128);
    s
}

/// `-x`, or an error for the smallest integer, whose negation does not fit.
pub fn neg(x: INT) -> (r: Result<INT, Box<EvalAltResult>>)
    ensures
        x != INT::MIN ==> r == Ok::<INT, Box<EvalAltResult>>((-x) as INT),
        x == INT::MIN ==> fails_with(r, "Negation overflow: -"@ + decimal_text(x as int)),
{
    if x == INT::MIN {
        Err(make_err(negation_text(x)))
    } else {
        Ok(-x)
    }
}

/// `x` itself.
pub fn plus(x: INT) -> (r: INT)
    ensures
        r == x,
{
    x
}

/// The absolute value of `x`, or an error for the smallest integer.
pub fn abs(x: INT) -> (r: Result<INT, Box<EvalAltResult>>)
    ensures
        x != INT::MIN ==> r == Ok::<INT, Box<EvalAltResult>>(abs_int(x as int) as INT),
        x == INT::MIN ==> fails_with(r, "Negation overflow: -"@ + decimal_text(x as int)),
{
    if x == INT::MIN {
        Err(make_err(negation_text(x)))
    } else if x < 0 {
        Ok(-x)
    } else {
        Ok(x)
    }
}

/// The sign of `x`: -1, 0 or 1.
pub fn sign(x: INT) -> (r: INT)
    ensures
        r == (if x == 0 { 0 } else if x < 0 { -1int } else { 1 }),
{
    if x == 0 {
        0
    } else if x < 0 {
        -1
    } else {
        1
    }
}

/// The bitwise AND of `x` and `y`.
pub fn binary_and(x: INT, y: INT) -> (r: INT)
    ensures
        r == x & y,
{
    x & y
}

/// The bitwise OR of `x` and `y`.
pub fn binary_or(x: INT, y: INT) -> (r: INT)
    ensures
        r == x | y,
{
    x | y
}

/// The bitwise exclusive OR of `x` and `y`.
pub fn binary_xor(x: INT, y: INT) -> (r: INT)
    ensures
        r == x ^ y,
{
    x ^ y
}

/// Is `x` zero?
pub fn is_zero(x: INT) -> (r: bool)
    ensures
        r == (x == 0),
{
    x == 0
}

/// Is `x` odd?
pub fn is_odd(x: INT) -> (r: bool)
    ensures
        r == (x % 2 == 1),
{
    x % 2 != 0
}

/// Is `x` even?
pub fn is_even(x: INT) -> (r: bool)
    ensures
        r == (x % 2 == 0),
{
    x % 2 == 0
}

} // verus!
