use rhai::dynamic::Dynamic;
use rhai::fn_builtin::{
    call_builtin_binary_op, call_builtin_op_assignment, get_builtin_binary_op_fn, get_builtin_op_assignment_fn,
    ArithOp, BitOp, BuiltinAssignOp, BuiltinOp, Comparison,
};
use rhai::immutable_string::ImmutableString;

fn num(i: i64) -> Dynamic {
    Dynamic::from_int(i)
}
fn text(s: &str) -> Dynamic {
    Dynamic::from_string(ImmutableString::from_str(s))
}
fn ch(c: char) -> Dynamic {
    Dynamic::from_char(c)
}
fn boolean(b: bool) -> Dynamic {
    Dynamic::from_bool(b)
}

fn run(op: &str, x: &Dynamic, y: &Dynamic) -> Dynamic {
    let f = get_builtin_binary_op_fn(op, x, y).expect("built-in");
    call_builtin_binary_op(f, x, y).expect("no error")
}

#[test]
fn builtin_int_ops_are_chosen() {
    assert_eq!(get_builtin_binary_op_fn("+", &num(1), &num(2)), Some(BuiltinOp::IntArith(ArithOp::Add)));
    assert_eq!(get_builtin_binary_op_fn("<=", &num(1), &num(2)), Some(BuiltinOp::IntCompare(Comparison::Le)));
    assert_eq!(get_builtin_binary_op_fn("^", &num(1), &num(2)), Some(BuiltinOp::IntBits(BitOp::Xor)));
    assert_eq!(get_builtin_binary_op_fn("contains", &num(1), &num(2)), None);
}

#[test]
fn builtin_int_results() {
    assert_eq!(run("+", &num(40), &num(2)).as_int(), Ok(42));
    assert_eq!(run("**", &num(3), &num(4)).as_int(), Ok(81));
    assert_eq!(run("<<", &num(1), &num(10)).as_int(), Ok(1024));
    assert_eq!(run(">>", &num(-16), &num(2)).as_int(), Ok(-4));
    assert_eq!(run("&", &num(12), &num(10)).as_int(), Ok(8));
    assert_eq!(run("<", &num(1), &num(2)).as_bool(), Ok(true));
    assert_eq!(run("!=", &num(1), &num(1)).as_bool(), Ok(false));
}

#[test]
fn builtin_int_overflow_is_an_error() {
    let f = get_builtin_binary_op_fn("*", &num(i64::MAX), &num(2)).unwrap();
    let e = call_builtin_binary_op(f, &num(i64::MAX), &num(2)).unwrap_err();
    assert_eq!(e.to_text(), format!("Multiplication overflow: {} * 2", i64::MAX));
}

#[test]
fn builtin_mixed_types_compare_unequal() {
    assert_eq!(get_builtin_binary_op_fn("==", &num(1), &boolean(true)), Some(BuiltinOp::Constant(false)));
    assert_eq!(get_builtin_binary_op_fn("!=", &num(1), &boolean(true)), Some(BuiltinOp::Constant(true)));
    assert_eq!(get_builtin_binary_op_fn("+", &num(1), &boolean(true)), None);
    assert_eq!(run("==", &num(1), &text("1")).as_bool(), Ok(false));
}

#[test]
fn builtin_custom_types() {
    let a = Dynamic::from_variant(String::from("Point"));
    let b = Dynamic::from_variant(String::from("Point"));
    let n = Dynamic::from_variant(String::from("u8"));
    assert_eq!(get_builtin_binary_op_fn("==", &a, &b), None);
    assert_eq!(get_builtin_binary_op_fn("==", &a, &num(1)), Some(BuiltinOp::Constant(false)));
    assert_eq!(get_builtin_binary_op_fn("==", &n, &num(1)), None);
}

#[test]
fn builtin_string_ops() {
    assert_eq!(run("+", &text("ab"), &text("cd")).to_text(), "abcd");
    assert_eq!(run("-", &text("banana"), &text("an")).to_text(), "ba");
    assert_eq!(run("-", &text(""), &text("xy")).to_text(), "xy");
    assert_eq!(run("contains", &text("hello"), &text("ell")).as_bool(), Ok(true));
    assert_eq!(run("contains", &text("hello"), &text("")).as_bool(), Ok(true));
    assert_eq!(run("<", &text("abc"), &text("abd")).as_bool(), Ok(true));
    assert_eq!(run(">=", &text("b"), &text("abc")).as_bool(), Ok(true));
}

#[test]
fn builtin_char_and_string_mixes() {
    assert_eq!(run("+", &ch('a'), &text("bc")).to_text(), "abc");
    assert_eq!(run("+", &text("ab"), &ch('c')).to_text(), "abc");
    assert_eq!(run("-", &text("a-b-c"), &ch('-')).to_text(), "abc");
    assert_eq!(run("contains", &text("xyz"), &ch('y')).as_bool(), Ok(true));
    assert_eq!(run("==", &ch('a'), &text("a")).as_bool(), Ok(true));
    assert_eq!(run("==", &ch('a'), &text("ab")).as_bool(), Ok(false));
    assert_eq!(run("<", &text("a"), &ch('b')).as_bool(), Ok(true));
    assert_eq!(run("+", &ch('x'), &ch('y')).to_text(), "xy");
}

#[test]
fn builtin_bools_and_units() {
    assert_eq!(run("<", &boolean(false), &boolean(true)).as_bool(), Ok(true));
    assert_eq!(run("^", &boolean(true), &boolean(true)).as_bool(), Ok(false));
    assert_eq!(run("==", &Dynamic::unit(), &Dynamic::unit()).as_bool(), Ok(true));
    assert_eq!(run("<", &Dynamic::unit(), &Dynamic::unit()).as_bool(), Ok(false));
}

#[test]
fn builtin_shared_operands_are_read_through() {
    let x = num(5).into_shared();
    assert_eq!(run("*", &x, &num(3)).as_int(), Ok(15));
}

#[test]
fn builtin_assignments() {
    let mut x = num(5);
    let y = num(3);
    let f = get_builtin_op_assignment_fn("-=", &x, &y).unwrap();
    assert_eq!(f, BuiltinAssignOp::IntArith(ArithOp::Subtract));
    assert!(call_builtin_op_assignment(f, &mut x, &y).unwrap().is_unit());
    assert_eq!(x.as_int(), Ok(2));

    let mut s = text("ab");
    let f = get_builtin_op_assignment_fn("+=", &s, &ch('c')).unwrap();
    call_builtin_op_assignment(f, &mut s, &ch('c')).unwrap();
    assert_eq!(s.to_text(), "abc");

    let mut c = ch('a');
    let f = get_builtin_op_assignment_fn("+=", &c, &ch('b')).unwrap();
    assert_eq!(f, BuiltinAssignOp::CharAppendChar);
    call_builtin_op_assignment(f, &mut c, &ch('b')).unwrap();
    assert_eq!(c.to_text(), "ab");
    assert_eq!(c.type_desc(), "string");

    let mut b = boolean(true);
    let f = get_builtin_op_assignment_fn("&=", &b, &boolean(false)).unwrap();
    call_builtin_op_assignment(f, &mut b, &boolean(false)).unwrap();
    assert_eq!(b.as_bool(), Ok(false));

    assert_eq!(get_builtin_op_assignment_fn("+=", &num(1), &text("x")), None);
}

#[test]
fn builtin_assignment_error_leaves_value() {
    let mut x = num(7);
    let f = get_builtin_op_assignment_fn("/=", &x, &num(0)).unwrap();
    let e = call_builtin_op_assignment(f, &mut x, &num(0)).unwrap_err();
    assert_eq!(e.to_text(), "Division by zero: 7 / 0");
    assert_eq!(x.as_int(), Ok(7));
}

#[test]
fn builtin_assignment_writes_into_shared_value() {
    let mut x = num(10).into_shared();
    x.set_tag(3);
    let f = get_builtin_op_assignment_fn("+=", &x, &num(1)).unwrap();
    call_builtin_op_assignment(f, &mut x, &num(1)).unwrap();
    assert!(x.is_shared());
    assert_eq!(x.as_int(), Ok(11));
    assert_eq!(x.tag(), 3);
}

#[test]
fn map_contains_and_arrays() {
    let mut m = rhai::map::ObjectMap::new();
    m.insert(String::from("a"), Dynamic::from_int(1));
    let map = Dynamic::from_map(m);
    let key = Dynamic::from_string(ImmutableString::from_str("a"));
    let other = Dynamic::from_string(ImmutableString::from_str("z"));
    let f = get_builtin_binary_op_fn("contains", &map, &key).unwrap();
    assert_eq!(call_builtin_binary_op(f, &map, &key).unwrap().as_bool(), Ok(true));
    assert_eq!(call_builtin_binary_op(f, &map, &other).unwrap().as_bool(), Ok(false));
    assert!(get_builtin_binary_op_fn("+", &map, &key).is_none());
    let a = Dynamic::from_array(vec![Dynamic::from_int(1)]);
    let b = Dynamic::from_array(vec![]);
    assert!(get_builtin_binary_op_fn("==", &a, &b).is_none());
    let f = get_builtin_binary_op_fn("==", &a, &key).unwrap();
    assert_eq!(call_builtin_binary_op(f, &a, &key).unwrap().as_bool(), Ok(false));
}
