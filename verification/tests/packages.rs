use rhai::dynamic::Dynamic;
use rhai::immutable_string::ImmutableString;
use rhai::map::ObjectMap;
use rhai::packages::lang_core::{get_tag, set_tag};
use rhai::packages::logic::{get_bit, get_bits, set_bit, set_bits};
use rhai::packages::map_basic;
use rhai::packages::math_basic::{parse_int, parse_int_radix};
use rhai::packages::string_basic::{
    i128_to_binary, i16_to_binary, i32_to_octal, i64_to_hex, i8_to_hex, int_to_binary, int_to_hex, int_to_octal,
    format_array, format_map, print_empty_string, print_string, print_with_func, to_binary, to_hex, to_octal,
    u128_to_hex, u16_to_octal, u8_to_hex,
};

#[test]
fn tag_round_trip() {
    let mut v = Dynamic::from_int(1);
    assert_eq!(get_tag(&mut v), 0);
    set_tag(&mut v, 42).unwrap();
    assert_eq!(get_tag(&mut v), 42);
    assert_eq!(v.as_int(), Ok(1));
}

#[test]
fn tag_out_of_range() {
    let mut v = Dynamic::from_int(1);
    let e = set_tag(&mut v, 1 << 40).unwrap_err();
    assert_eq!(
        e.to_text(),
        "1099511627776 is too large to fit into a tag (must be between -2147483648 and 2147483647)"
    );
    let e = set_tag(&mut v, -(1 << 40)).unwrap_err();
    assert_eq!(
        e.to_text(),
        "-1099511627776 is too small to fit into a tag (must be between -2147483648 and 2147483647)"
    );
    assert_eq!(get_tag(&mut v), 0);
}

#[test]
fn bits_read_and_written() {
    assert_eq!(get_bit(0b1010, 1).unwrap(), true);
    assert_eq!(get_bit(0b1010, 2).unwrap(), false);
    assert_eq!(get_bit(i64::MIN, -1).unwrap(), true);
    assert!(get_bit(1, 64).is_err());
    let mut v = 0i64;
    set_bit(&mut v, 3, true).unwrap();
    assert_eq!(v, 8);
    set_bit(&mut v, 3, false).unwrap();
    assert_eq!(v, 0);
    assert_eq!(set_bit(&mut v, 70, true).unwrap_err().to_text(), "Bit-field index 70 out of bounds: only 64 bits in the bit-field");
}

#[test]
fn bit_fields_read_and_written() {
    assert_eq!(get_bits(0b1101_0110, 4, 4).unwrap(), 0b1101);
    assert_eq!(get_bits(0b1101_0110, 4, 0).unwrap(), 0);
    assert_eq!(get_bits(-1, 60, 10).unwrap(), 0b1111);
    let mut v = 0i64;
    set_bits(&mut v, 4, 4, 0b1011).unwrap();
    assert_eq!(v, 0b1011_0000);
    assert_eq!(get_bits(v, 4, 4).unwrap(), 0b1011);
}

#[test]
fn integers_parsed() {
    assert_eq!(parse_int("  42 ").unwrap(), 42);
    assert_eq!(parse_int("-17").unwrap(), -17);
    assert_eq!(parse_int_radix("ff", 16).unwrap(), 255);
    assert_eq!(parse_int_radix("-101", 2).unwrap(), -5);
    assert_eq!(parse_int_radix("1", 37).unwrap_err().to_text(), "Invalid radix: '37'");
    assert_eq!(
        parse_int("12a").unwrap_err().to_text(),
        "Error parsing integer number '12a': invalid digit found in string"
    );
    assert_eq!(
        parse_int("").unwrap_err().to_text(),
        "Error parsing integer number '': cannot parse integer from empty string"
    );
    assert_eq!(
        parse_int("9223372036854775808").unwrap_err().to_text(),
        "Error parsing integer number '9223372036854775808': number too large to fit in target type"
    );
    assert_eq!(parse_int("-9223372036854775808").unwrap(), i64::MIN);
}

#[test]
fn integers_formatted() {
    assert_eq!(int_to_hex(255).as_str(), "ff");
    assert_eq!(int_to_hex(-1).as_str(), "ffffffffffffffff");
    assert_eq!(int_to_octal(8).as_str(), "10");
    assert_eq!(int_to_binary(5).as_str(), "101");
    assert_eq!(u8_to_hex(171).as_str(), "ab");
    assert_eq!(i8_to_hex(-1).as_str(), "ff");
    assert_eq!(u16_to_octal(64).as_str(), "100");
    assert_eq!(i16_to_binary(-1).as_str(), "1111111111111111");
    assert_eq!(i32_to_octal(-1).as_str(), "37777777777");
    assert_eq!(i64_to_hex(0).as_str(), "0");
    assert_eq!(u128_to_hex(u128::MAX).as_str(), "ffffffffffffffffffffffffffffffff");
    assert_eq!(i128_to_binary(2).as_str(), "10");
    assert_eq!(to_hex(4096).as_str(), "1000");
    assert_eq!(to_octal(7).as_str(), "7");
    assert_eq!(to_binary(0).as_str(), "0");
}

#[test]
fn hex_text_parses_back() {
    for v in [0i64, 1, 255, 123456789, i64::MAX] {
        assert_eq!(parse_int_radix(int_to_hex(v).as_str(), 16).unwrap(), v);
        assert_eq!(parse_int(&format!("{}", v)).unwrap(), v);
    }
}

#[test]
fn printing_strings() {
    assert_eq!(print_empty_string().as_str(), "");
    assert_eq!(print_string(ImmutableString::from_str("hi")).as_str(), "hi");
}

fn map_of(items: &[(&str, i64)]) -> ObjectMap {
    let mut m = ObjectMap::new();
    for (k, v) in items {
        m.insert(String::from(*k), Dynamic::from_int(*v));
    }
    m
}

#[test]
fn maps_insert_get_remove() {
    let mut m = map_of(&[("b", 2), ("a", 1)]);
    assert_eq!(m.len(), 2);
    assert_eq!(m.get("a").unwrap().as_int(), Ok(1));
    assert!(m.insert(String::from("a"), Dynamic::from_int(10)).is_some());
    assert_eq!(m.get("a").unwrap().as_int(), Ok(10));
    assert_eq!(m.key_at_index(0).as_str(), "a");
    assert_eq!(m.remove("a").unwrap().as_int(), Ok(10));
    assert!(!m.contains_key("a"));
    assert!(m.remove("zzz").is_none());
    m.clear();
    assert!(m.is_empty());
}

#[test]
fn map_package_functions() {
    let mut m = map_of(&[("x", 1), ("y", 2)]);
    assert!(map_basic::contains(&mut m, ImmutableString::from_str("x")));
    assert_eq!(map_basic::len(&mut m), 2);
    assert!(map_basic::remove(&mut m, ImmutableString::from_str("nope")).is_unit());
    assert_eq!(map_basic::remove(&mut m, ImmutableString::from_str("x")).as_int(), Ok(1));
    let keys = map_basic::keys(&mut m);
    assert_eq!(keys.len(), 1);
    assert_eq!(keys[0].to_text(), "y");
    let values = map_basic::values(&mut m);
    assert_eq!(values[0].as_int(), Ok(2));
    map_basic::clear(&mut m);
    assert_eq!(map_basic::len(&mut m), 0);
}

#[test]
fn mixin_prefers_second_fill_with_prefers_first() {
    let mut a = map_of(&[("k", 1), ("only_a", 3)]);
    map_basic::mixin(&mut a, map_of(&[("k", 2), ("only_b", 4)]));
    assert_eq!(a.get("k").unwrap().as_int(), Ok(2));
    assert_eq!(a.len(), 3);

    let mut b = map_of(&[("k", 1), ("only_a", 3)]);
    map_basic::fill_with(&mut b, map_of(&[("k", 2), ("only_b", 4)]));
    assert_eq!(b.get("k").unwrap().as_int(), Ok(1));
    assert_eq!(b.get("only_b").unwrap().as_int(), Ok(4));
    assert_eq!(b.len(), 3);

    let c = map_basic::merge(map_of(&[("k", 1)]), map_of(&[("k", 5), ("z", 6)]));
    assert_eq!(c.get("k").unwrap().as_int(), Ok(5));
    assert_eq!(c.len(), 2);
}

fn int_equals(a: &Dynamic, b: &Dynamic) -> Result<Dynamic, Box<rhai::error::EvalAltResult>> {
    Ok(Dynamic::from_bool(a.as_int() == b.as_int()))
}

#[test]
fn map_equality() {
    let mut a = map_of(&[("x", 1), ("y", 2)]);
    assert_eq!(map_basic::equals(int_equals, &mut a, map_of(&[("y", 2), ("x", 1)])).unwrap(), true);
    assert_eq!(map_basic::equals(int_equals, &mut a, map_of(&[("x", 1), ("y", 3)])).unwrap(), false);
    assert_eq!(map_basic::equals(int_equals, &mut a, map_of(&[("x", 1), ("z", 2)])).unwrap(), false);
    assert_eq!(map_basic::equals(int_equals, &mut a, map_of(&[("x", 1)])).unwrap(), false);
    assert_eq!(map_basic::not_equals(int_equals, &mut a, map_of(&[("x", 1)])).unwrap(), true);
    assert_eq!(map_basic::not_equals(int_equals, &mut a, map_of(&[("x", 1), ("y", 2)])).unwrap(), false);
    let mut empty = ObjectMap::new();
    assert_eq!(map_basic::equals(int_equals, &mut empty, ObjectMap::new()).unwrap(), true);
    // A comparison that does not answer a boolean counts as "different".
    let unit = |_: &Dynamic, _: &Dynamic| -> Result<Dynamic, Box<rhai::error::EvalAltResult>> { Ok(Dynamic::unit()) };
    assert_eq!(map_basic::equals(unit, &mut a, map_of(&[("x", 1), ("y", 2)])).unwrap(), false);
    let failing = |_: &Dynamic, _: &Dynamic| -> Result<Dynamic, Box<rhai::error::EvalAltResult>> {
        Err(Box::new(rhai::error::EvalAltResult::ErrorFor(rhai::position::Position::none())))
    };
    assert!(map_basic::equals(failing, &mut a, map_of(&[("x", 1), ("y", 2)])).is_err());
}

fn show_ints(v: &Dynamic) -> Result<Dynamic, Box<rhai::error::EvalAltResult>> {
    match v.as_int() {
        Ok(1) => Ok(Dynamic::from_string(ImmutableString::from_str("one"))),
        Ok(2) => Ok(Dynamic::from_bool(true)),
        _ => Err(Box::new(rhai::error::EvalAltResult::ErrorFor(rhai::position::Position::none()))),
    }
}

#[test]
fn printing_values() {
    assert_eq!(print_with_func(&show_ints, &Dynamic::from_int(1)).as_str(), "one");
    assert_eq!(print_with_func(&show_ints, &Dynamic::from_int(2)).as_str(), "bool");
    assert_eq!(print_with_func(&show_ints, &Dynamic::from_char('x')).as_str(), "char");
    let mut items = vec![Dynamic::from_int(1), Dynamic::from_int(2), Dynamic::unit()];
    assert_eq!(format_array(&show_ints, &mut items).as_str(), "[one, bool, ()]");
    let mut none: Vec<Dynamic> = Vec::new();
    assert_eq!(format_array(&show_ints, &mut none).as_str(), "[]");
    let mut m = map_of(&[("b", 2), ("a", 1)]);
    assert_eq!(format_map(&show_ints, &mut m).as_str(), "#{\"a\": one, \"b\": bool}");
    assert_eq!(format_map(&show_ints, &mut ObjectMap::new()).as_str(), "#{}");
}

#[test]
fn negative_bit_indices_count_from_the_end() {
    let mut v: i64 = 0;
    set_bit(&mut v, -1, true).unwrap();
    assert_eq!(v, i64::MIN);
    assert_eq!(get_bit(v, -1).unwrap(), true);
    set_bit(&mut v, -64, true).unwrap();
    assert_eq!(v, i64::MIN | 1);
    assert!(set_bit(&mut v, -65, true).is_err());
    assert_eq!(get_bits(0b1011_0000, 4, 4).unwrap(), 0b1011);
    assert_eq!(get_bits(0xFF, 4, 100).unwrap(), 0xF);
    assert_eq!(get_bits(0xFF, 2, 0).unwrap(), 0);
    assert!(get_bits(1, 64, 1).is_err());
    assert_eq!(get_bits(i64::MIN, -1, 1).unwrap(), 1);
    assert_eq!(get_bits(0x0F00_0000_0000_0000, -8, 8).unwrap(), 0x0F);
    let mut w: i64 = 0;
    set_bits(&mut w, -4, 4, 0b1010).unwrap();
    assert_eq!(get_bits(w, -4, 4).unwrap(), 0b1010);
    assert_eq!(w, (0b1010i64) << 60);
}
