//! Printing and number formatting functions.
use vstd::prelude::*;
use crate::dynamic::{spec_flatten, spec_type_desc, Dynamic, Union};
use crate::error::EvalAltResult;
use crate::immutable_string::ImmutableString;
use crate::map::ObjectMap;
use crate::text::{radix_digits, radix_string};
use crate::INT;

verus! {

/// What `print` or `debug` shows for `value`, given what the script's printing function
/// answered for it: the string it answered, else the type name of what it answered; if
/// the call failed, the type name of the value itself.
pub open spec fn printed_from(value: Dynamic, out: Result<Dynamic, Box<EvalAltResult>>) -> Seq<char> {
    match out {
        Ok(d) => match spec_flatten(d).value {
            Union::Str(s) => s@,
            _ => spec_type_desc(d),
        },
        Err(_) => spec_type_desc(value),
    }
}

/// `text` is what `print` or `debug` may show for `value` with the printing function
/// `print`.
pub open spec fn printed_as<F: Fn(&Dynamic) -> Result<Dynamic, Box<EvalAltResult>>>(
    print: F,
    value: Dynamic,
    text: Seq<char>,
) -> bool {
    exists|out: Result<Dynamic, Box<EvalAltResult>>| #[trigger] print.ensures((&value,), out) && text
        == printed_from(value, out)
}

/// The pieces, separated by `sep`.
pub open spec fn joined(pieces: Seq<Seq<char>>, sep: Seq<char>) -> Seq<char>
    decreases pieces.len(),
{
    if pieces.len() == 0 {
        Seq::empty()
    } else if pieces.len() == 1 {
        pieces[0]
    } else {
        joined(pieces.drop_last(), sep) + sep + pieces.last()
    }
}

/// The name `std`'s `Debug` formatting gives a string: the text in double quotes, with
/// quotes, backslashes and special characters escaped.
pub uninterp spec fn debug_text(s: Seq<char>) -> Seq<char>;

/// Calls `std`'s `Debug` formatting on a string (`format!("{:?}", s)`); the contract only
/// names the result, as `debug_text` of the text.
#[verifier::external_body]
pub(crate) fn debug_quoted(s: &str) -> (r: String)
    ensures
        r@ == debug_text(s@),
{
    format!("{:?}", s)
}

/// What `print` or `debug` shows for `value`: calls the script's printing function
/// `print` on it and keeps the string it answers; anything else it answers is shown by
/// its type name, and a failed call by the type name of `value`.
pub fn print_with_func<F: Fn(&Dynamic) -> Result<Dynamic, Box<EvalAltResult>>>(
    print: &F,
    value: &Dynamic,
) -> (r: ImmutableString)
    requires
        forall|v: &Dynamic| #[trigger] print.requires((v,)),
    ensures
        printed_as(*print, *value, r@),
{
    let out = print(value);
    let ghost g = out;
    let r = match &out {
        Ok(d) => {
            let flat = d.flatten_clone();
            match &flat.value {
                Union::Str(s) => s.clone(),
                _ => ImmutableString::from_str(d.type_desc()),
            }
        },
        Err(_) => ImmutableString::from_str(value.type_desc()),
    };
    assert(r@ == printed_from(*value, g));
    r
}

/// The text of an array for `print` and `debug`: its items, each shown by `print_with_func`
/// with the script's `debug` function, separated by `", "`, in square brackets.
pub fn format_array<F: Fn(&Dynamic) -> Result<Dynamic, Box<EvalAltResult>>>(
    print: &F,
    array: &mut Vec<Dynamic>,
) -> (r: ImmutableString)
    requires
        forall|v: &Dynamic| #[trigger] print.requires((v,)),
    ensures
        final(array)@ == old(array)@,
        exists|pieces: Seq<Seq<char>>|
            #![trigger joined(pieces, ", "@)]
            pieces.len() == old(array)@.len() && (forall|i: int|
                0 <= i < pieces.len() ==> printed_as(*print, old(array)@[i], #[trigger] pieces[i])) && r@
                == "["@ + joined(pieces, ", "@) + "]"@,
{
    let len = array.len();
    let mut result = String::from_str("[");
    let ghost mut pieces: Seq<Seq<char>> = Seq::empty();
    let mut i: usize = 0;
    while i < len
        invariant
            i <= len == array@.len(),
            array@ == old(array)@,
            pieces.len() == i,
            forall|j: int| 0 <= j < i ==> printed_as(*print, array@[j], #[trigger] pieces[j]),
            result@ == "["@ + joined(pieces, ", "@),
            forall|v: &Dynamic| #[trigger] print.requires((v,)),
        decreases len - i,
    {
        let text = print_with_func(print, &array[i]);
        proof {
            let p2 = pieces.push(text@);
            assert(p2.drop_last() =~= pieces);
            if i > 0 {
                assert(joined(p2, ", "@) == joined(pieces, ", "@) + ", "@ + text@);
            } else {
                assert(joined(p2, ", "@) == text@);
            }
        }
        if i > 0 {
            result.append(", ");
        }
        result.append(text.as_str());
        proof {
            pieces = pieces.push(text@);
        }
        i = i + 1;
    }
    result.append("]");
    ImmutableString::from_string(result)
}

/// `text` is how a property with this name and value may be shown: the quoted name,
/// `": "`, and the value as `print` shows it.
pub open spec fn property_shown_as<F: Fn(&Dynamic) -> Result<Dynamic, Box<EvalAltResult>>>(
    print: F,
    name: Seq<char>,
    value: Dynamic,
    text: Seq<char>,
) -> bool {
    exists|t: Seq<char>| #[trigger] printed_as(print, value, t) && text == debug_text(name) + ": "@ + t
}

/// The text of an object map for `print` and `debug`: `#{`, then each property in
/// ascending order of name as its quoted name, `": "` and its value shown by
/// `print_with_func` with the script's `debug` function, separated by `", "`, then `}`.
pub fn format_map<F: Fn(&Dynamic) -> Result<Dynamic, Box<EvalAltResult>>>(
    print: &F,
    map: &mut ObjectMap,
) -> (r: ImmutableString)
    requires
        old(map).wf(),
        forall|v: &Dynamic| #[trigger] print.requires((v,)),
    ensures
        *final(map) == *old(map),
        exists|pieces: Seq<Seq<char>>|
            #![trigger joined(pieces, ", "@)]
            pieces.len() == old(map).size() && (forall|i: int|
                0 <= i < pieces.len() ==> property_shown_as(
                    *print,
                    old(map).keys_in_order()[i],
                    old(map).values_in_order()[i],
                    #[trigger] pieces[i],
                )) && r@ == "#{"@
                + joined(pieces, ", "@) + "}"@,
{
    let len = map.len();
    let mut result = String::from_str("#{");
    let ghost mut pieces: Seq<Seq<char>> = Seq::empty();
    let mut i: usize = 0;
    while i < len
        invariant
            map.wf(),
            *map == *old(map),
            i <= len == map.size(),
            pieces.len() == i,
            forall|j: int|
                0 <= j < i ==> property_shown_as(
                    *print,
                    map.keys_in_order()[j],
                    map.values_in_order()[j],
                    #[trigger] pieces[j],
                ),
            result@ == "#{"@ + joined(pieces, ", "@),
            forall|v: &Dynamic| #[trigger] print.requires((v,)),
        decreases len - i,
    {
        let name = debug_quoted(map.key_at_index(i).as_str());
        let text = print_with_func(print, map.value_at_index(i));
        let ghost piece = name@ + ": "@ + text@;
        proof {
            let p2 = pieces.push(piece);
            assert(p2.drop_last() =~= pieces);
            if i > 0 {
                assert(joined(p2, ", "@) == joined(pieces, ", "@) + ", "@ + piece);
            } else {
                assert(joined(p2, ", "@) == piece);
            }
            assert(map.values_in_order()[i as int] == map.value_at(i as int));
            assert(map.keys_in_order()[i as int] == map.key_at(i as int));
            assert(printed_as(*print, map.values_in_order()[i as int], text@));
            assert(property_shown_as(*print, map.keys_in_order()[i as int], map.values_in_order()[i as int], piece));
        }
        if i > 0 {
            result.append(", ");
        }
        result.append(name.as_str());
        result.append(": ");
        result.append(text.as_str());
        proof {
            pieces = pieces.push(piece);
            assert(pieces[i as int] == piece);
        }
        i = i + 1;
    }
    result.append("}");
    ImmutableString::from_string(result)
}

/// `print`/`debug` of nothing: the empty string.
pub fn print_empty_string() -> (r: ImmutableString)
    ensures
        r@ == Seq::<char>::empty(),
{
    ImmutableString::new()
}

/// `print`/`to_string` of a string: the string itself.
pub fn print_string(s: ImmutableString) -> (r: ImmutableString)
    ensures
        r == s,
{
    s
}

/// Hexadecimal digits (lowercase, no prefix) of the bit pattern `value`.
pub fn to_hex(value: u128) -> (r: ImmutableString)
    ensures
        r@ == radix_digits(value as nat, 16),
{
    ImmutableString::from_string(radix_string(value, 16))
}

/// Octal digits (no prefix) of the bit pattern `value`.
pub fn to_octal(value: u128) -> (r: ImmutableString)
    ensures
        r@ == radix_digits(value as nat, 8),
{
    ImmutableString::from_string(radix_string(value, 8))
}

/// Binary digits (no prefix) of the bit pattern `value`.
pub fn to_binary(value: u128) -> (r: ImmutableString)
    ensures
        r@ == radix_digits(value as nat, 2),
{
    ImmutableString::from_string(radix_string(value, 2))
}

/// Hexadecimal digits of a `INT`; negative values are written in two's complement.
pub fn int_to_hex(value: INT) -> (r: ImmutableString)
    ensures
        r@ == radix_digits((value as u64) as nat, 16),
{
    to_hex((value as u64) as u128)
}

/// Hexadecimal digits of a `u8`.
pub fn u8_to_hex(value: u8) -> (r: ImmutableString)
    ensures
        r@ == radix_digits(value as nat, 16),
{
    to_hex(value as u128)
}

/// Hexadecimal digits of a `u16`.
pub fn u16_to_hex(value: u16) -> (r: ImmutableString)
    ensures
        r@ == radix_digits(value as nat, 16),
{
    to_hex(value as u128)
}

/// Hexadecimal digits of a `u32`.
pub fn u32_to_hex(value: u32) -> (r: ImmutableString)
    ensures
        r@ == radix_digits(value as nat, 16),
{
    to_hex(value as u128)
}

/// Hexadecimal digits of a `u64`.
pub fn u64_to_hex(value: u64) -> (r: ImmutableString)
    ensures
        r@ == radix_digits(value as nat, 16),
{
    to_hex(value as u128)
}

/// Hexadecimal digits of a `i8`; negative values are written in two's complement.
pub fn i8_to_hex(value: i8) -> (r: ImmutableString)
    ensures
        r@ == radix_digits((value as u8) as nat, 16),
{
    to_hex((value as u8) as u128)
}

/// Hexadecimal digits of a `i16`; negative values are written in two's complement.
pub fn i16_to_hex(value: i16) -> (r: ImmutableString)
    ensures
        r@ == radix_digits((value as u16) as nat, 16),
{
    to_hex((value as u16) as u128)
}

/// Hexadecimal digits of a `i32`; negative values are written in two's complement.
pub fn i32_to_hex(value: i32) -> (r: ImmutableString)
    ensures
        r@ == radix_digits((value as u32) as nat, 16),
{
    to_hex((value as u32) as u128)
}

/// Hexadecimal digits of a `i64`; negative values are written in two's complement.
pub fn i64_to_hex(value: i64) -> (r: ImmutableString)
    ensures
        r@ == radix_digits((value as u64) as nat, 16),
{
    to_hex((value as u64) as u128)
}

/// Octal digits of a `INT`; negative values are written in two's complement.
pub fn int_to_octal(value: INT) -> (r: ImmutableString)
    ensures
        r@ == radix_digits((value as u64) as nat, 8),
{
    to_octal((value as u64) as u128)
}

/// Octal digits of a `u8`.
pub fn u8_to_octal(value: u8) -> (r: ImmutableString)
    ensures
        r@ == radix_digits(value as nat, 8),
{
    to_octal(value as u128)
}

/// Octal digits of a `u16`.
pub fn u16_to_octal(value: u16) -> (r: ImmutableString)
    ensures
        r@ == radix_digits(value as nat, 8),
{
    to_octal(value as u128)
}

/// Octal digits of a `u32`.
pub fn u32_to_octal(value: u32) -> (r: ImmutableString)
    ensures
        r@ == radix_digits(value as nat, 8),
{
    to_octal(value as u128)
}

/// Octal digits of a `u64`.
pub fn u64_to_octal(value: u64) -> (r: ImmutableString)
    ensures
        r@ == radix_digits(value as nat, 8),
{
    to_octal(value as u128)
}

/// Octal digits of a `i8`; negative values are written in two's complement.
pub fn i8_to_octal(value: i8) -> (r: ImmutableString)
    ensures
        r@ == radix_digits((value as u8) as nat, 8),
{
    to_octal((value as u8) as u128)
}

/// Octal digits of a `i16`; negative values are written in two's complement.
pub fn i16_to_octal(value: i16) -> (r: ImmutableString)
    ensures
        r@ == radix_digits((value as u16) as nat, 8),
{
    to_octal((value as u16) as u128)
}

/// Octal digits of a `i32`; negative values are written in two's complement.
pub fn i32_to_octal(value: i32) -> (r: ImmutableString)
    ensures
        r@ == radix_digits((value as u32) as nat, 8),
{
    to_octal((value as u32) as u128)
}

/// Octal digits of a `i64`; negative values are written in two's complement.
pub fn i64_to_octal(value: i64) -> (r: ImmutableString)
    ensures
        r@ == radix_digits((value as u64) as nat, 8),
{
    to_octal((value as u64) as u128)
}

/// Binary digits of a `INT`; negative values are written in two's complement.
pub fn int_to_binary(value: INT) -> (r: ImmutableString)
    ensures
        r@ == radix_digits((value as u64) as nat, 2),
{
    to_binary((value as u64) as u128)
}

/// Binary digits of a `u8`.
pub fn u8_to_binary(value: u8) -> (r: ImmutableString)
    ensures
        r@ == radix_digits(value as nat, 2),
{
    to_binary(value as u128)
}

/// Binary digits of a `u16`.
pub fn u16_to_binary(value: u16) -> (r: ImmutableString)
    ensures
        r@ == radix_digits(value as nat, 2),
{
    to_binary(value as u128)
}

/// Binary digits of a `u32`.
pub fn u32_to_binary(value: u32) -> (r: ImmutableString)
    ensures
        r@ == radix_digits(value as nat, 2),
{
    to_binary(value as u128)
}

/// Binary digits of a `u64`.
pub fn u64_to_binary(value: u64) -> (r: ImmutableString)
    ensures
        r@ == radix_digits(value as nat, 2),
{
    to_binary(value as u128)
}

/// Binary digits of a `i8`; negative values are written in two's complement.
pub fn i8_to_binary(value: i8) -> (r: ImmutableString)
    ensures
        r@ == radix_digits((value as u8) as nat, 2),
{
    to_binary((value as u8) as u128)
}

/// Binary digits of a `i16`; negative values are written in two's complement.
pub fn i16_to_binary(value: i16) -> (r: ImmutableString)
    ensures
        r@ == radix_digits((value as u16) as nat, 2),
{
    to_binary((value as u16) as u128)
}

/// Binary digits of a `i32`; negative values are written in two's complement.
pub fn i32_to_binary(value: i32) -> (r: ImmutableString)
    ensures
        r@ == radix_digits((value as u32) as nat, 2),
{
    to_binary((value as u32) as u128)
}

/// Binary digits of a `i64`; negative values are written in two's complement.
pub fn i64_to_binary(value: i64) -> (r: ImmutableString)
    ensures
        r@ == radix_digits((value as u64) as nat, 2),
{
    to_binary((value as u64) as u128)
}

/// Hexadecimal digits of a `u128`.
pub fn u128_to_hex(value: u128) -> (r: ImmutableString)
    ensures
        r@ == radix_digits(value as nat, 16),
{
    to_hex(value)
}

/// Octal digits of an `i128`; negative values are written in two's complement.
pub fn i128_to_octal(value: i128) -> (r: ImmutableString)
    ensures
        r@ == radix_digits((value as u128) as nat, 8),
{
    to_octal(value as u128)
}

/// Binary digits of an `i128`; negative values are written in two's complement.
pub fn i128_to_binary(value: i128) -> (r: ImmutableString)
    ensures
        r@ == radix_digits((value as u128) as nat, 2),
{
    to_binary(value as u128)
}

} // verus!
