//! Integer parsing functions.
use vstd::prelude::*;
use crate::error::EvalAltResult;
use crate::position::Position;
use crate::text::{
    decimal_text, digit_char, is_whitespace, radix_digits, str_chars, trim_bounds, trim_end, trim_start,
    trimmed, write_decimal,
};
use crate::INT;

verus! {

/// Why the text of an integer could not be parsed.
#[derive(Clone, Copy, PartialEq, Eq, Structural, Debug)]
pub enum IntErrorKind {
    /// The text is empty.
    Empty,
    /// The text holds a character that is not a digit of the radix.
    InvalidDigit,
    /// The number is larger than the largest integer.
    PosOverflow,
    /// The number is smaller than the smallest integer.
    NegOverflow,
}

/// The value of a digit character in `radix`, if it is one: `0`-`9`, then `a`-`z` or
/// `A`-`Z` for ten and above.
pub open spec fn digit_value(c: char, radix: nat) -> Option<nat> {
    let u = c as u32;
    let d: int = if 48 <= u <= 57 {
        u - 48
    } else if 97 <= u <= 122 {
        u - 87
    } else if 65 <= u <= 90 {
        u - 55
    } else {
        99
    };
    if d < radix {
        Some(d as nat)
    } else {
        None
    }
}

/// Accumulate the digits of `s` onto `acc`, most significant first, adding (or, for a
/// negative number, subtracting) each digit; fails at the first non-digit or when the
/// running value leaves the range of [`INT`].
pub open spec fn accumulate(s: Seq<char>, radix: nat, positive: bool, acc: int) -> Result<int, IntErrorKind>
    decreases s.len(),
{
    if s.len() == 0 {
        Ok(acc)
    } else {
        match digit_value(s[0], radix) {
            None => Err(IntErrorKind::InvalidDigit),
            Some(d) => {
                let next = if positive {
                    acc * radix + d
                } else {
                    acc * radix - d
                };
                if next > i64::MAX {
                    Err(IntErrorKind::PosOverflow)
                } else if next < i64::MIN {
                    Err(IntErrorKind::NegOverflow)
                } else {
                    accumulate(s.drop_first(), radix, positive, next)
                }
            },
        }
    }
}

/// An integer written in `radix`, with an optional leading `+` or `-`.
pub open spec fn int_from_text(s: Seq<char>, radix: nat) -> Result<int, IntErrorKind> {
    if s.len() == 0 {
        Err(IntErrorKind::Empty)
    } else if (s[0] == '+' || s[0] == '-') && s.len() == 1 {
        Err(IntErrorKind::InvalidDigit)
    } else if s[0] == '+' {
        accumulate(s.drop_first(), radix, true, 0)
    } else if s[0] == '-' {
        accumulate(s.drop_first(), radix, false, 0)
    } else {
        accumulate(s, radix, true, 0)
    }
}

/// The description of a parsing failure.
pub open spec fn int_error_text(k: IntErrorKind) -> Seq<char> {
    match k {
        IntErrorKind::Empty => "cannot parse integer from empty string"@,
        IntErrorKind::InvalidDigit => "invalid digit found in string"@,
        IntErrorKind::PosOverflow => "number too large to fit in target type"@,
        IntErrorKind::NegOverflow => "number too small to fit in target type"@,
    }
}

/// The message of the error for a radix outside `2..=36`.
pub open spec fn invalid_radix_message(radix: INT) -> Seq<char> {
    "Invalid radix: '"@ + decimal_text(radix as int) + "'"@
}

/// The message of the error for text that is not an integer.
pub open spec fn parse_failure_message(text: Seq<char>, k: IntErrorKind) -> Seq<char> {
    "Error parsing integer number '"@ + text + "': "@ + int_error_text(k)
}

/// Is `e` an arithmetic error carrying `msg` and no position?
pub open spec fn is_arithmetic_error(e: EvalAltResult, msg: Seq<char>) -> bool {
    e matches EvalAltResult::ErrorArithmetic(m, p) && m@ == msg && p == Position::spec_none()
}

fn error_text(k: IntErrorKind) -> (r: &'static str)
    ensures
        r@ == int_error_text(k),
{
    match k {
        IntErrorKind::Empty => "cannot parse integer from empty string",
        IntErrorKind::InvalidDigit => "invalid digit found in string",
        IntErrorKind::PosOverflow => "number too large to fit in target type",
        IntErrorKind::NegOverflow => "number too small to fit in target type",
    }
}

fn char_digit(c: char, radix: u32) -> (r: Option<u32>)
    requires
        2 <= radix <= 36,
    ensures
        r == (match digit_value(c, radix as nat) {
            Some(d) => Some(d as u32),
            None => None::<u32>,
        }),
{
    let u = c as u32;
    let d: u32 = if 48 <= u && u <= 57 {
        u - 48
    } else if 97 <= u && u <= 122 {
        u - 87
    } else if 65 <= u && u <= 90 {
        u - 55
    } else {
        99
    };
    if d < radix {
        Some(d)
    } else {
        None
    }
}

/// Accumulate the digits of `v[from..to]`.
fn accumulate_digits(v: &Vec<char>, from: usize, to: usize, radix: u32, positive: bool) -> (r: Result<INT, IntErrorKind>)
    requires
        from <= to <= v.len(),
        2 <= radix <= 36,
    ensures
        match accumulate(v@.subrange(from as int, to as int), radix as nat, positive, 0) {
            Ok(x) => r == Ok::<INT, IntErrorKind>(x as INT),
            Err(k) => r == Err::<INT, IntErrorKind>(k),
        },
{
    let ghost whole = v@.subrange(from as int, to as int);
    let mut acc: INT = 0;
    let mut i = from;
    assert(v@.subrange(i as int, to as int) == whole);
    while i < to
        invariant
            from <= i <= to <= v.len(),
            2 <= radix <= 36,
            whole == v@.subrange(from as int, to as int),
            positive ==> acc >= 0,
            !positive ==> acc <= 0,
            accumulate(whole, radix as nat, positive, 0) == accumulate(
                v@.subrange(i as int, to as int),
                radix as nat,
                positive,
                acc as int,
            ),
        decreases to - i,
    {
        let ghost rest = v@.subrange(i as int, to as int);
        assert(rest[0] == v@[i as int]);
        assert(rest.drop_first() == v@.subrange(i + 1, to as int));
        let d = match char_digit(v[i], radix) {
            Some(d) => d,
            None => {
                return Err(IntErrorKind::InvalidDigit);
            },
        };
        let next = if positive {
            match acc.checked_mul(radix as INT) {
                Some(m) => m.checked_add(d as INT),
                None => None,
            }
        } else {
            match acc.checked_mul(radix as INT) {
                Some(m) => m.checked_sub(d as INT),
                None => None,
            }
        };
        proof {
            if positive {
                assert(acc * radix >= 0) by (nonlinear_arith)
                    requires
                        acc >= 0,
                        radix >= 2,
                ;
            } else {
                assert(acc * radix <= 0) by (nonlinear_arith)
                    requires
                        acc <= 0,
                        radix >= 2,
                ;
            }
        }
        match next {
            Some(n) => {
                acc = n;
            },
            None => {
                if positive {
                    return Err(IntErrorKind::PosOverflow);
                } else {
                    return Err(IntErrorKind::NegOverflow);
                }
            },
        }
        i = i + 1;
    }
    assert(v@.subrange(i as int, to as int).len() == 0);
    Ok(acc)
}

/// Parse the integer written in `v[from..to]`.
fn int_from_chars(v: &Vec<char>, from: usize, to: usize, radix: u32) -> (r: Result<INT, IntErrorKind>)
    requires
        from <= to <= v.len(),
        2 <= radix <= 36,
    ensures
        match int_from_text(v@.subrange(from as int, to as int), radix as nat) {
            Ok(x) => r == Ok::<INT, IntErrorKind>(x as INT),
            Err(k) => r == Err::<INT, IntErrorKind>(k),
        },
{
    let ghost s = v@.subrange(from as int, to as int);
    if from == to {
        return Err(IntErrorKind::Empty);
    }
    let c = v[from];
    assert(s[0] == c);
    if (c == '+' || c == '-') && to - from == 1 {
        Err(IntErrorKind::InvalidDigit)
    } else if c == '+' {
        assert(s.drop_first() == v@.subrange(from + 1, to as int));
        accumulate_digits(v, from + 1, to, radix, true)
    } else if c == '-' {
        assert(s.drop_first() == v@.subrange(from + 1, to as int));
        accumulate_digits(v, from + 1, to, radix, false)
    } else {
        accumulate_digits(v, from, to, radix, true)
    }
}

/// Parse a string into an integer in the given radix (`2..=36`), ignoring leading and
/// trailing white space; a leading `+` or `-` sign is allowed.
pub fn parse_int_radix(string: &str, radix: INT) -> (r: Result<INT, Box<EvalAltResult>>)
    ensures
        !(2 <= radix <= 36) ==> r is Err && is_arithmetic_error(*r->Err_0, invalid_radix_message(radix)),
        2 <= radix <= 36 ==> match int_from_text(trimmed(string@), radix as nat) {
            Ok(x) => r == Ok::<INT, Box<EvalAltResult>>(x as INT),
            Err(k) => r is Err && is_arithmetic_error(*r->Err_0, parse_failure_message(string@, k)),
        },
{
    if !(2 <= radix && radix <= 36) {
        let mut msg = String::from_str("Invalid radix: '");
        write_decimal(&mut msg, radix as i128);
        msg.append("'");
        return Err(Box::new(EvalAltResult::ErrorArithmetic(msg, Position::none())));
    }
    let chars = str_chars(string);
    let (a, b) = trim_bounds(&chars);
    match int_from_chars(&chars, a, b, radix as u32) {
        Ok(x) => Ok(x),
        Err(k) => {
            let mut msg = String::from_str("Error parsing integer number '");
            msg.append(string);
            msg.append("': ");
            msg.append(error_text(k));
            Err(Box::new(EvalAltResult::ErrorArithmetic(msg, Position::none())))
        },
    }
}

/// Parse a string into a decimal integer, ignoring leading and trailing white space.
pub fn parse_int(string: &str) -> (r: Result<INT, Box<EvalAltResult>>)
    ensures
        match int_from_text(trimmed(string@), 10) {
            Ok(x) => r == Ok::<INT, Box<EvalAltResult>>(x as INT),
            Err(k) => r is Err && is_arithmetic_error(*r->Err_0, parse_failure_message(string@, k)),
        },
{
    parse_int_radix(string, 10)
}

proof fn lemma_digit_value_of_digit_char(d: nat, radix: nat)
    requires
        d < radix <= 36,
    ensures
        digit_value(digit_char(d), radix) == Some(d),
        !is_whitespace(digit_char(d)),
        digit_char(d) != '+',
        digit_char(d) != '-',
{
}

/// Appending one more digit continues the accumulation from where it stopped.
proof fn lemma_accumulate_push(s: Seq<char>, c: char, radix: nat, positive: bool, acc: int)
    ensures
        accumulate(s.push(c), radix, positive, acc) == (match accumulate(s, radix, positive, acc) {
            Ok(x) => accumulate(seq![c], radix, positive, x),
            Err(e) => Err(e),
        }),
    decreases s.len(),
{
    if s.len() == 0 {
        assert(s.push(c) == seq![c]);
    } else {
        assert(s.push(c)[0] == s[0]);
        assert(s.push(c).drop_first() == s.drop_first().push(c));
        match digit_value(s[0], radix) {
            None => {},
            Some(d) => {
                let next = if positive {
                    acc * radix + d
                } else {
                    acc * radix - d
                };
                if next <= i64::MAX && next >= i64::MIN {
                    lemma_accumulate_push(s.drop_first(), c, radix, positive, next);
                }
            },
        }
    }
}

/// Reading the digits of `m` gives back `m` (or `-m` when accumulating a negative
/// number), as long as that value fits in an [`INT`].
proof fn lemma_accumulate_radix_digits(m: nat, radix: nat, positive: bool)
    requires
        2 <= radix <= 36,
        positive ==> m <= i64::MAX,
        !positive ==> m <= 0x8000_0000_0000_0000,
    ensures
        accumulate(radix_digits(m, radix), radix, positive, 0) == Ok::<int, IntErrorKind>(
            if positive { m as int } else { -m },
        ),
        radix_digits(m, radix).len() > 0,
        !is_whitespace(radix_digits(m, radix)[0]),
        radix_digits(m, radix)[0] != '+' && radix_digits(m, radix)[0] != '-',
        !is_whitespace(radix_digits(m, radix).last()),
    decreases m,
{
    if m < radix {
        assert(m % 36 == m);
        lemma_digit_value_of_digit_char(m, radix);
        let s = radix_digits(m, radix);
        assert(s == seq![digit_char(m)]);
        assert(s.drop_first() =~= Seq::<char>::empty());
        assert(0 * radix + m == m);
        assert(accumulate(s.drop_first(), radix, positive, if positive { m as int } else { -m }) == Ok::<int, IntErrorKind>(if positive { m as int } else { -m }));
    } else {
        let q = m / radix;
        let d = m % radix;
        vstd::arithmetic::div_mod::lemma_div_decreases(m as int, radix as int);
        vstd::arithmetic::div_mod::lemma_fundamental_div_mod(m as int, radix as int);
        lemma_accumulate_radix_digits(q, radix, positive);
        lemma_digit_value_of_digit_char(d, radix);
        let prefix = radix_digits(q, radix);
        lemma_accumulate_push(prefix, digit_char(d), radix, positive, 0);
        let x: int = if positive { q as int } else { -q };
        let next: int = if positive { x * radix + d } else { x * radix - d };
        assert(next == if positive { m as int } else { -m }) by (nonlinear_arith)
            requires
                m == radix * q + d,
                x == (if positive { q as int } else { -q }),
                next == (if positive { x * radix + d } else { x * radix - d }),
        ;
        let one = seq![digit_char(d)];
        assert(one.drop_first() =~= Seq::<char>::empty());
        assert(one[0] == digit_char(d));
        assert(accumulate(one.drop_first(), radix, positive, next) == Ok::<int, IntErrorKind>(next));
        assert(accumulate(one, radix, positive, x) == Ok::<int, IntErrorKind>(next));
        assert(radix_digits(m, radix) == prefix.push(digit_char(d)));
        assert(radix_digits(m, radix)[0] == prefix[0]);
    }
}

proof fn lemma_trimmed_unchanged(s: Seq<char>)
    requires
        s.len() > 0,
        !is_whitespace(s[0]),
        !is_whitespace(s.last()),
    ensures
        trimmed(s) == s,
{
}

/// Reading back what the number formatting writes: the digits of a non-negative
/// integer in any radix from 2 to 36 (as written by `to_hex`, `to_octal`, `to_binary`
/// for non-negative numbers) parse back to the same integer with [`parse_int_radix`].
pub proof fn law_parse_int_radix_reads_digits(v: INT, radix: INT)
    requires
        0 <= v,
        2 <= radix <= 36,
    ensures
        int_from_text(trimmed(radix_digits(v as nat, radix as nat)), radix as nat) == Ok::<
            int,
            IntErrorKind,
        >(v as int),
{
    lemma_accumulate_radix_digits(v as nat, radix as nat, true);
    lemma_trimmed_unchanged(radix_digits(v as nat, radix as nat));
}

/// Reading back the decimal text of any integer with [`parse_int`] gives the integer.
pub proof fn law_parse_int_reads_decimal(v: INT)
    ensures
        int_from_text(trimmed(decimal_text(v as int)), 10) == Ok::<int, IntErrorKind>(v as int),
{
    if v < 0 {
        let m = (-v) as nat;
        lemma_accumulate_radix_digits(m, 10, false);
        let digits = radix_digits(m, 10);
        let s = decimal_text(v as int);
        assert(s == seq!['-'] + digits);
        assert(s[0] == '-');
        assert(s.last() == digits.last());
        lemma_trimmed_unchanged(s);
        assert(s.drop_first() == digits);
    } else {
        lemma_accumulate_radix_digits(v as nat, 10, true);
        lemma_trimmed_unchanged(decimal_text(v as int));
    }
}


/// Digits read alike in both cases: the `k`-th letter stands for ten plus `k`, in lower
/// case as in upper case, and the decimal digits for their own values (in any radix
/// large enough for them).
pub proof fn law_digit_letters(k: nat, radix: nat)
    requires
        k < 26,
    ensures
        digit_value((97 + k) as char, radix) == digit_value((65 + k) as char, radix),
        10 + k < radix ==> digit_value((97 + k) as char, radix) == Some((10 + k) as nat),
        10 + k >= radix ==> digit_value((65 + k) as char, radix) is None,
        k < 10 && k < radix ==> digit_value((48 + k) as char, radix) == Some(k),
{
    assert(((97 + k) as char) as u32 == 97 + k);
    assert(((65 + k) as char) as u32 == 65 + k);
    assert(((48 + k) as char) as u32 == 48 + k);
}

} // verus!
