use std::rc::Rc;

use rhai::ast::{Expr, OpAssignment, VariableRef};
use rhai::dynamic::{AccessMode, Dynamic};
use rhai::engine::{
    check_data_size, check_return_value, eval_op_assignment, get_indexed_mut, inc_operations, op_assignment_value,
    search_scope_only, Imports, Limits, Target,
};
use rhai::error::EvalAltResult;
use rhai::immutable_string::ImmutableString;
use rhai::module::resolvers::file::{FileModuleResolver, ModuleLoad};
use rhai::module::Module;
use rhai::optimize::{OptimizationLevel, OptimizerState};
use rhai::position::Position;
use rhai::scope::Scope;
use rhai::serde::ser::DynamicSerializer;

fn module(id: &str) -> Rc<Module> {
    Rc::new(Module { id: Some(String::from(id)), qualified_fns: vec![1, 2], qualified_iters: vec![(7, 70)] })
}

#[test]
fn scope_push_and_read() {
    let mut s = Scope::new();
    assert!(s.is_empty());
    s.push(String::from("x"), Dynamic::from_int(1));
    s.push_constant(String::from("c"), Dynamic::from_int(2));
    assert_eq!(s.len(), 2);
    assert_eq!(s.get_value("x").unwrap().as_int(), Ok(1));
    assert!(s.contains("c"));
    assert!(!s.contains("y"));
    assert_eq!(s.is_constant("c"), Some(true));
    assert_eq!(s.is_constant("x"), Some(false));
    assert_eq!(s.is_constant("y"), None);
    assert!(s.get_value("y").is_none());
}

#[test]
fn scope_shadowing_and_rewind() {
    let mut s = Scope::new();
    s.push(String::from("x"), Dynamic::from_int(1));
    s.push(String::from("x"), Dynamic::from_int(2));
    assert_eq!(s.get_value("x").unwrap().as_int(), Ok(2));
    assert_eq!(s.get_index("x"), Some((1, AccessMode::ReadWrite)));
    s.rewind(1);
    assert_eq!(s.get_value("x").unwrap().as_int(), Ok(1));
    s.clear();
    assert_eq!(s.len(), 0);
}

#[test]
fn scope_set_or_push() {
    let mut s = Scope::new();
    s.set_or_push(String::from("x"), Dynamic::from_int(1));
    assert_eq!(s.len(), 1);
    s.set_or_push(String::from("x"), Dynamic::from_int(5));
    assert_eq!(s.len(), 1);
    assert_eq!(s.get_value("x").unwrap().as_int(), Ok(5));
    s.push_constant(String::from("k"), Dynamic::from_int(1));
    s.set_or_push(String::from("k"), Dynamic::from_int(9));
    assert_eq!(s.len(), 3);
    assert_eq!(s.get_value("k").unwrap().as_int(), Ok(9));
    assert_eq!(s.is_constant("k"), Some(false));
    s.set_value(String::from("x"), Dynamic::from_int(6));
    assert_eq!(s.get_value("x").unwrap().as_int(), Ok(6));
}

#[test]
fn scope_get_mut_and_iter() {
    let mut s = Scope::new();
    s.push(String::from("x"), Dynamic::from_int(1));
    s.push_constant_dynamic(String::from("c"), Dynamic::from_int(2));
    *s.get_mut("x").unwrap() = Dynamic::from_int(10);
    assert!(s.get_mut("c").is_none());
    assert_eq!(s.get_value("x").unwrap().as_int(), Ok(10));
    let entries = s.iter();
    assert_eq!(entries.len(), 2);
    assert_eq!(entries[0].0, "x");
    assert!(!entries[0].1);
    assert!(entries[1].1);
    assert_eq!(entries[1].2.as_int(), Ok(2));
    let raw = s.iter_raw();
    assert_eq!(raw[1].0, "c");
}

#[test]
fn scope_values_are_flattened_on_read() {
    let mut s = Scope::new();
    s.push_dynamic(String::from("x"), Dynamic::from_int(3).into_shared());
    let v = s.get_value("x").unwrap();
    assert!(!v.is_shared());
    assert_eq!(v.as_int(), Ok(3));
}

#[test]
fn resolver_settings() {
    let mut r = FileModuleResolver::new();
    assert_eq!(r.extension(), "rhai");
    assert!(r.base_path().is_none());
    assert!(r.is_cache_enabled());
    r.set_extension(String::from("x")).set_base_path(String::from("/scripts")).enable_cache(false);
    assert_eq!(r.extension(), "x");
    assert_eq!(r.base_path(), Some("/scripts"));
    assert!(!r.is_cache_enabled());
    let r = FileModuleResolver::new_with_path_and_extension(String::from("a"), String::from("b"));
    assert_eq!(r.base_path(), Some("a"));
    assert_eq!(r.extension(), "b");
    let r = FileModuleResolver::new_with_path(String::from("p"));
    assert_eq!(r.extension(), "rhai");
    let r = FileModuleResolver::new_with_extension(String::from("e"));
    assert!(r.base_path().is_none());
}

#[test]
fn resolver_relative_base() {
    let r = FileModuleResolver::new();
    assert_eq!(r.relative_base(Some("dir")), "dir");
    assert_eq!(r.relative_base(None), "");
    let r = FileModuleResolver::new_with_path(String::from("base"));
    assert_eq!(r.relative_base(Some("dir")), "base");
}

#[test]
fn resolver_cache() {
    let mut r = FileModuleResolver::new();
    assert!(!r.is_file_cached("a.rhai"));
    r.store_module(String::from("a.rhai"), module("a"));
    assert!(r.is_file_cached("a.rhai"));
    assert_eq!(r.cached_module("a.rhai").unwrap().id.as_deref(), Some("a"));
    r.store_module(String::from("a.rhai"), module("a2"));
    assert_eq!(r.cached_module("a.rhai").unwrap().id.as_deref(), Some("a2"));
    r.store_module(String::from("b.rhai"), module("b"));
    assert_eq!(r.clear_cache_for_file("a.rhai").unwrap().id.as_deref(), Some("a2"));
    assert!(r.clear_cache_for_file("a.rhai").is_none());
    assert!(r.is_file_cached("b.rhai"));
    r.enable_cache(false);
    assert!(!r.is_file_cached("b.rhai"));
    assert!(r.cached_module("b.rhai").is_none());
    r.store_module(String::from("c.rhai"), module("c"));
    r.enable_cache(true);
    assert!(!r.is_file_cached("c.rhai"));
    r.clear_cache();
    assert!(!r.is_file_cached("b.rhai"));
}

#[test]
fn resolver_paths_use_extension() {
    let mut r = FileModuleResolver::new_with_path(String::from("scripts"));
    assert!(r.has_usable_extension());
    assert!(!FileModuleResolver::new_with_extension(String::from("a/b")).has_usable_extension());
    let expected = std::path::Path::new("scripts").join("m.rhai").to_string_lossy().into_owned();
    r.store_module(expected.clone(), module("m"));
    assert!(r.is_cached("m", None));
    assert!(r.is_cached("m.txt", None));
    assert_eq!(r.clear_cache_for_path("m", None).unwrap().id.as_deref(), Some("m"));
    assert!(!r.is_cached("m", None));
}

#[test]
fn imports_stack() {
    let mut m = Imports::new();
    m.push(String::from("a"), module("first"));
    m.extend(vec![(String::from("b"), module("second")), (String::from("a"), module("third"))]);
    assert_eq!(m.len(), 3);
    assert_eq!(m.find("a"), Some(2));
    assert_eq!(m.find("b"), Some(1));
    assert_eq!(m.find("z"), None);
    assert_eq!(m.get(0).unwrap().id.as_deref(), Some("first"));
    assert!(m.contains_fn(2));
    assert!(!m.contains_fn(3));
    assert_eq!(m.get_iter(7), Some(70));
    let items = m.iter();
    assert_eq!(items[0].0, "a");
    assert_eq!(items[0].1.id.as_deref(), Some("third"));
    m.truncate(1);
    assert_eq!(m.find("a"), Some(0));
}

fn no_indexer(_: &Dynamic, _: &Dynamic) -> Result<Dynamic, Box<EvalAltResult>> {
    Err(Box::new(EvalAltResult::ErrorFunctionNotFound(String::from("index$get$"), Position::none())))
}

fn echo_indexer(_: &Dynamic, idx: &Dynamic) -> Result<Dynamic, Box<EvalAltResult>> {
    Ok(idx.clone())
}

#[test]
fn indexing_bits_and_chars() {
    let mut v = Dynamic::from_int(0b100);
    match get_indexed_mut(&no_indexer, &mut v, Dynamic::from_int(2), Position::none(), false, false) {
        Ok(Target::BitField(_, offset, bit)) => {
            assert_eq!(offset, 2);
            assert_eq!(bit.as_bool(), Ok(true));
        }
        _ => panic!("expected a bit field"),
    }
    let mut v = Dynamic::from_int(i64::MIN);
    match get_indexed_mut(&no_indexer, &mut v, Dynamic::from_int(-1), Position::none(), false, false) {
        Ok(Target::BitField(_, offset, bit)) => {
            assert_eq!(offset, 1);
            assert_eq!(bit.as_bool(), Ok(true));
        }
        _ => panic!("expected a bit field"),
    }
    let mut v = Dynamic::from_int(1);
    match get_indexed_mut(&no_indexer, &mut v, Dynamic::from_int(64), Position::new(1, 2), false, false) {
        Err(e) => assert_eq!(e.to_text(), "Bit-field index 64 out of bounds: only 64 bits in the bit-field (line 1, position 2)"),
        _ => panic!("expected an error"),
    }
    let mut s = Dynamic::from_string(ImmutableString::from_str("hello"));
    match get_indexed_mut(&no_indexer, &mut s, Dynamic::from_int(-1), Position::none(), false, false) {
        Ok(Target::StringChar(_, offset, c)) => {
            assert_eq!(offset, 1);
            assert_eq!(c.as_char(), Ok('o'));
        }
        _ => panic!("expected a character"),
    }
    match get_indexed_mut(&no_indexer, &mut s, Dynamic::from_int(9), Position::none(), false, false) {
        Err(e) => assert_eq!(e.to_text(), "String index 9 out of bounds: only 5 characters in the string"),
        _ => panic!("expected an error"),
    }
    match get_indexed_mut(&no_indexer, &mut s, Dynamic::from_bool(true), Position::none(), false, false) {
        Err(e) => assert_eq!(e.to_text(), "Data type is incorrect: bool (expecting i64)"),
        _ => panic!("expected an error"),
    }
}

#[test]
fn indexing_other_values() {
    let mut u = Dynamic::from_bool(true);
    match get_indexed_mut(&no_indexer, &mut u, Dynamic::from_int(0), Position::none(), false, false) {
        Err(e) => assert_eq!(e.to_text(), "Indexer not registered for 'bool [i64]'"),
        _ => panic!("expected an error"),
    }
    let e = get_indexed_mut(&no_indexer, &mut u, Dynamic::from_int(0), Position::none(), false, true).unwrap_err();
    assert!(matches!(*e, EvalAltResult::ErrorFunctionNotFound(ref f, _) if f == "index$get$"));
    let t = get_indexed_mut(&echo_indexer, &mut u, Dynamic::from_int(0), Position::none(), false, true).unwrap();
    assert!(t.is_temp_value());
    assert_eq!(t.deref().as_int(), Ok(0));
    assert_eq!(u.as_bool(), Ok(true));
}

#[test]
fn changed_bits_written_back() {
    let mut v = Dynamic::from_int(0);
    if let Ok(mut t) = get_indexed_mut(&no_indexer, &mut v, Dynamic::from_int(3), Position::none(), false, false) {
        if let Target::BitField(_, _, ref mut b) = t {
            *b = Dynamic::from_bool(true);
        }
        t.propagate_changed_value().unwrap();
    } else {
        panic!("expected a bit field");
    }
    assert_eq!(v.as_int(), Ok(8));
}

#[test]
fn data_size_limits() {
    let mut limits = Limits::default_limits();
    let long = Dynamic::from_string(ImmutableString::from_str("héllo"));
    assert!(check_data_size(&limits, &long).is_ok());
    limits.max_string_size = Some(5);
    let e = check_data_size(&limits, &long).unwrap_err();
    assert_eq!(e.to_text(), "Length of string exceeds maximum limit");
    limits.max_string_size = Some(6);
    assert!(check_data_size(&limits, &long).is_ok());
    assert!(check_return_value(&limits, Ok(Dynamic::from_int(1))).is_ok());
    let failed: Result<Dynamic, Box<EvalAltResult>> = Err(Box::new(EvalAltResult::ErrorFor(Position::none())));
    assert!(check_return_value(&limits, failed).is_err());
}

#[test]
fn optimizer_constants() {
    let mut st = OptimizerState::new(OptimizationLevel::default());
    assert_eq!(st.optimization_level, OptimizationLevel::Simple);
    assert!(!st.is_dirty());
    st.set_dirty();
    assert!(st.is_dirty());
    st.clear_dirty();
    st.push_var("c", AccessMode::ReadOnly, Some(Dynamic::from_int(1)));
    st.push_var("c", AccessMode::ReadWrite, None);
    assert_eq!(st.find_constant("c").unwrap().as_int(), Ok(1));
    st.push_var("c", AccessMode::ReadOnly, Some(Dynamic::from_int(2)));
    assert_eq!(st.find_constant("c").unwrap().as_int(), Ok(2));
    st.restore_var(1);
    assert_eq!(st.find_constant("c").unwrap().as_int(), Ok(1));
    assert!(st.find_constant("d").is_none());
    st.propagate_constants = false;
    assert!(st.find_constant("c").is_none());
}

#[test]
fn serializer_starts_empty() {
    let s = DynamicSerializer::new(Dynamic::from_int(5));
    assert!(s._key.is_unit());
    assert_eq!(s._value.as_int(), Ok(5));
}

#[test]
fn scope_clone_visible() {
    let mut s = Scope::new();
    s.push(String::from("a"), Dynamic::from_int(1));
    s.push(String::from("b"), Dynamic::from_int(2));
    s.push_constant(String::from("a"), Dynamic::from_int(3));
    let v = s.clone_visible();
    assert_eq!(v.len(), 2);
    let entries = v.iter();
    assert_eq!(entries[0].0, "a");
    assert_eq!(entries[0].2.as_int(), Ok(3));
    assert!(entries[0].1);
    assert_eq!(entries[1].0, "b");
    assert_eq!(v.get_value("a").unwrap().as_int(), Ok(3));
    *s.get_mut_by_index(1) = Dynamic::from_int(20);
    assert_eq!(s.get_value("b").unwrap().as_int(), Ok(20));
}

type Progress = fn(u64) -> Option<Dynamic>;

fn stop_at_five(n: u64) -> Option<Dynamic> {
    if n >= 5 {
        Some(Dynamic::from_int(n as i64))
    } else {
        None
    }
}

#[test]
fn progress_terminates() {
    let limits = Limits::default_limits();
    let progress: Progress = stop_at_five;
    let mut count: u64 = 3;
    assert!(inc_operations(&limits, Some(&progress), &mut count, Position::none()).is_ok());
    let e = inc_operations(&limits, Some(&progress), &mut count, Position::new(1, 9)).unwrap_err();
    assert_eq!(count, 5);
    assert!(matches!(*e, EvalAltResult::ErrorTerminated(ref t, p) if t.as_int() == Ok(5) && p == Position::new(1, 9)));
}

#[test]
fn operation_limit() {
    let mut limits = Limits::default_limits();
    let mut count: u64 = 0;
    assert!(inc_operations(&limits, None::<&Progress>, &mut count, Position::none()).is_ok());
    assert_eq!(count, 1);
    limits.set_max_operations(2);
    assert_eq!(limits.max_operations(), 2);
    assert!(inc_operations(&limits, None::<&Progress>, &mut count, Position::none()).is_ok());
    let e = inc_operations(&limits, None::<&Progress>, &mut count, Position::new(3, 4)).unwrap_err();
    assert_eq!(count, 3);
    assert!(matches!(*e, EvalAltResult::ErrorTooManyOperations(p) if p == Position::new(3, 4)));
    limits.set_max_operations(0);
    assert_eq!(limits.max_operations(), 0);
    assert!(inc_operations(&limits, None::<&Progress>, &mut count, Position::none()).is_ok());
}

#[test]
fn limit_settings() {
    let mut limits = Limits::default_limits();
    limits.set_max_call_levels(12);
    assert_eq!(limits.max_call_levels(), 12);
    limits.set_max_modules(3);
    assert_eq!(limits.max_modules(), 3);
    limits.set_max_expr_depths(10, 0);
    assert_eq!(limits.max_expr_depth(), 10);
    assert_eq!(limits.max_function_expr_depth(), 0);
    limits.set_max_string_size(100);
    assert_eq!(limits.max_string_size(), 100);
    limits.set_max_string_size(0);
    assert_eq!(limits.max_string_size(), 0);
    limits.set_max_array_size(7);
    assert_eq!(limits.max_array_size(), 7);
    limits.set_max_map_size(8);
    assert_eq!(limits.max_map_size(), 8);
}

#[test]
fn target_of_reference() {
    let mut v = Dynamic::from_int(5);
    let t = Target::from(&mut v);
    assert!(t.is_ref());
    assert_eq!(t.deref().as_int(), Ok(5));
}

fn var(short: Option<u8>, index: Option<usize>, name: &str) -> Expr {
    Expr::Variable(
        short,
        Position::new(1, 2),
        Box::new(VariableRef { index, namespace: None, name: String::from(name) }),
    )
}

type Resolver = fn(&str, usize) -> Result<Option<Dynamic>, Box<EvalAltResult>>;

fn resolve_answer(name: &str, _: usize) -> Result<Option<Dynamic>, Box<EvalAltResult>> {
    match name {
        "r" => Ok(Some(Dynamic::from_int(99))),
        "bad" => Err(Box::new(EvalAltResult::ErrorFor(Position::none()))),
        _ => Ok(None),
    }
}

#[test]
fn variable_search() {
    let mut scope = Scope::new();
    scope.push(String::from("x"), Dynamic::from_int(1));
    scope.push(String::from("y"), Dynamic::from_int(2));
    scope.push(String::from("x"), Dynamic::from_int(3));
    {
        let (t, p) = search_scope_only(None::<&Resolver>, false, &mut scope, None, &var(None, None, "x")).unwrap();
        assert_eq!(t.deref().as_int(), Ok(3));
        assert_eq!(p, Position::new(1, 2));
    }
    {
        let (t, _) = search_scope_only(None::<&Resolver>, false, &mut scope, None, &var(Some(2), None, "y")).unwrap();
        assert_eq!(t.deref().as_int(), Ok(2));
    }
    {
        let (mut t, _) = search_scope_only(None::<&Resolver>, false, &mut scope, None, &var(None, Some(3), "x")).unwrap();
        assert_eq!(t.deref().as_int(), Ok(1));
        *t.deref_mut() = Dynamic::from_int(10);
    }
    assert_eq!(scope.get_value("x").unwrap().as_int(), Ok(3));
    {
        // The recorded offset is ignored when the scope must be searched.
        let (t, _) = search_scope_only(None::<&Resolver>, true, &mut scope, None, &var(Some(2), None, "x")).unwrap();
        assert_eq!(t.deref().as_int(), Ok(3));
    }
    let e = search_scope_only(None::<&Resolver>, false, &mut scope, None, &var(None, None, "z")).unwrap_err();
    assert!(matches!(*e, EvalAltResult::ErrorVariableNotFound(ref n, p) if n == "z" && p == Position::new(1, 2)));
    let e = search_scope_only(None::<&Resolver>, false, &mut scope, None, &var(None, None, "this")).unwrap_err();
    assert!(matches!(*e, EvalAltResult::ErrorUnboundThis(p) if p == Position::new(1, 2)));
    let mut obj = Dynamic::from_int(7);
    {
        let (t, _) =
            search_scope_only(None::<&Resolver>, false, &mut scope, Some(&mut obj), &var(None, None, "this")).unwrap();
        assert_eq!(t.deref().as_int(), Ok(7));
    }
    let resolver: Resolver = resolve_answer;
    {
        let (t, _) = search_scope_only(Some(&resolver), false, &mut scope, None, &var(None, None, "r")).unwrap();
        assert!(!t.is_ref());
        assert_eq!(t.deref().as_int(), Ok(99));
        assert!(t.deref().is_read_only());
    }
    let e = search_scope_only(Some(&resolver), false, &mut scope, None, &var(None, None, "bad")).unwrap_err();
    assert!(matches!(*e, EvalAltResult::ErrorFor(p) if p == Position::new(1, 2)));
    let (t, _) = search_scope_only(Some(&resolver), false, &mut scope, None, &var(None, None, "y")).unwrap();
    assert_eq!(t.deref().as_int(), Ok(2));
}

#[test]
fn resolver_resolve_loads_once() {
    let calls = std::cell::Cell::new(0);
    let seen = std::cell::RefCell::new(Vec::new());
    let load = |p: &str| {
        calls.set(calls.get() + 1);
        seen.borrow_mut().push(String::from(p));
        match p {
            "lib/util.rhai" => ModuleLoad::Loaded(module("util")),
            "lib/broken.rhai" => ModuleLoad::Failed(Box::new(EvalAltResult::ErrorFor(Position::none()))),
            _ => ModuleLoad::NotFound,
        }
    };
    let mut r = FileModuleResolver::new();
    let m = r.resolve(&load, Some("lib/main.rhai"), "util", Position::new(1, 1)).unwrap();
    assert_eq!(m.id.as_deref(), Some("util"));
    assert_eq!(seen.borrow()[0], "lib/util.rhai");
    assert!(r.is_file_cached("lib/util.rhai"));
    let m = r.resolve(&load, Some("lib/main.rhai"), "util", Position::new(1, 1)).unwrap();
    assert_eq!(m.id.as_deref(), Some("util"));
    assert_eq!(calls.get(), 1);
    let e = r.resolve(&load, Some("lib/main.rhai"), "missing", Position::new(2, 5)).unwrap_err();
    assert!(matches!(*e, EvalAltResult::ErrorModuleNotFound(ref n, p) if n == "missing" && p == Position::new(2, 5)));
    let e = r.resolve(&load, Some("lib/main.rhai"), "broken", Position::new(3, 1)).unwrap_err();
    assert!(matches!(*e, EvalAltResult::ErrorInModule(ref n, _, p) if n == "broken" && p == Position::new(3, 1)));
    assert!(!r.is_file_cached("lib/broken.rhai"));
    let mut nocache = FileModuleResolver::new();
    nocache.enable_cache(false);
    nocache.resolve(&load, Some("lib/main.rhai"), "util", Position::none()).unwrap();
    assert!(!nocache.is_file_cached("lib/util.rhai"));
}

fn native(op: &str, _hash: u64, a: &Dynamic, b: &Dynamic) -> Result<Dynamic, Box<EvalAltResult>> {
    match op {
        "+" => Ok(Dynamic::from_int(a.as_int().unwrap() + b.as_int().unwrap())),
        "*=" => Ok(Dynamic::from_int(a.as_int().unwrap() * b.as_int().unwrap())),
        _ => Err(Box::new(EvalAltResult::ErrorFunctionNotFound(format!("{} (i64, i64)", op), Position::none()))),
    }
}

fn op(text: &'static str) -> Option<OpAssignment> {
    Some(OpAssignment { hash_op_assign: 1, hash_op: 2, op: text })
}

#[test]
fn operator_assignment() {
    let root = ("x", Position::new(4, 1));
    let mut x = Dynamic::from_int(5);
    {
        let mut t = Target::from(&mut x);
        eval_op_assignment(&native, None, &mut t, root, Dynamic::from_int(7)).unwrap();
        // `+=` is not there: the plain `+` is used.
        eval_op_assignment(&native, op("+="), &mut t, root, Dynamic::from_int(3)).unwrap();
        eval_op_assignment(&native, op("*="), &mut t, root, Dynamic::from_int(2)).unwrap();
        let e = eval_op_assignment(&native, op("-="), &mut t, root, Dynamic::from_int(1)).unwrap_err();
        assert!(matches!(*e, EvalAltResult::ErrorFunctionNotFound(ref f, _) if f == "- (i64, i64)"));
    }
    assert_eq!(x.as_int(), Ok(20));
    let mut c = Dynamic::from_int(1);
    c.set_access_mode(AccessMode::ReadOnly);
    {
        let mut t = Target::from(&mut c);
        let e = eval_op_assignment(&native, None, &mut t, root, Dynamic::from_int(2)).unwrap_err();
        assert!(matches!(*e, EvalAltResult::ErrorAssignmentToConstant(ref n, p) if n == "x" && p == Position::new(4, 1)));
    }
    assert_eq!(c.as_int(), Ok(1));
    assert_eq!(op_assignment_value(&native, op("+=").unwrap(), &Dynamic::from_int(2), &Dynamic::from_int(3)).unwrap().as_int(), Ok(5));
}

#[test]
fn operator_assignment_on_shared_and_bits() {
    let root = ("s", Position::none());
    let mut s = Dynamic::from_int(4).into_shared();
    {
        let mut t = Target::from(&mut s);
        eval_op_assignment(&native, op("*="), &mut t, root, Dynamic::from_int(3)).unwrap();
    }
    assert!(s.is_shared());
    assert_eq!(s.as_int(), Ok(12));
    let mut v = Dynamic::from_int(0);
    if let Ok(mut t) = get_indexed_mut(&no_indexer, &mut v, Dynamic::from_int(2), Position::none(), false, false) {
        eval_op_assignment(&native, None, &mut t, root, Dynamic::from_bool(true)).unwrap();
    } else {
        panic!("expected a bit field");
    }
    assert_eq!(v.as_int(), Ok(4));
}

fn int_array(items: &[i64]) -> Dynamic {
    Dynamic::from_array(items.iter().map(|i| Dynamic::from_int(*i)).collect())
}

fn array_items(d: &Dynamic) -> Vec<i64> {
    match &d.value {
        rhai::dynamic::Union::Array(a) => a.iter().map(|x| x.as_int().unwrap()).collect(),
        _ => panic!("expected an array"),
    }
}

#[test]
fn indexing_arrays() {
    let mut arr = int_array(&[10, 20, 30]);
    {
        let t = get_indexed_mut(&no_indexer, &mut arr, Dynamic::from_int(-1), Position::none(), false, false).unwrap();
        assert_eq!(t.deref().as_int(), Ok(30));
    }
    {
        let mut t = get_indexed_mut(&no_indexer, &mut arr, Dynamic::from_int(1), Position::none(), false, false).unwrap();
        *t.deref_mut() = Dynamic::from_int(99);
    }
    assert_eq!(array_items(&arr), vec![10, 99, 30]);
    let copy = arr.clone();
    {
        let mut t = get_indexed_mut(&no_indexer, &mut arr, Dynamic::from_int(-3), Position::none(), false, false).unwrap();
        *t.deref_mut() = Dynamic::from_int(1);
    }
    assert_eq!(array_items(&arr), vec![1, 99, 30]);
    assert_eq!(array_items(&copy), vec![10, 99, 30]);
    let e = get_indexed_mut(&no_indexer, &mut arr, Dynamic::from_int(3), Position::new(1, 1), false, false).unwrap_err();
    assert!(matches!(*e, EvalAltResult::ErrorArrayBounds(3, 3, _)));
    let e = get_indexed_mut(&no_indexer, &mut arr, Dynamic::from_int(-4), Position::none(), false, false).unwrap_err();
    assert!(matches!(*e, EvalAltResult::ErrorArrayBounds(3, -4, _)));
    let e = get_indexed_mut(&no_indexer, &mut arr, Dynamic::from_int(i64::MIN), Position::none(), false, false).unwrap_err();
    assert!(matches!(*e, EvalAltResult::ErrorArrayBounds(3, i64::MIN, _)));
    let e = get_indexed_mut(&no_indexer, &mut arr, Dynamic::from_bool(true), Position::none(), false, false).unwrap_err();
    assert_eq!(e.to_text(), "Data type is incorrect: bool (expecting i64)");
}

#[test]
fn indexing_maps() {
    let mut m = rhai::map::ObjectMap::new();
    m.insert(String::from("a"), Dynamic::from_int(1));
    let mut d = Dynamic::from_map(m);
    {
        let t = get_indexed_mut(&no_indexer, &mut d, Dynamic::from_string(ImmutableString::from_str("a")), Position::none(), false, false).unwrap();
        assert_eq!(t.deref().as_int(), Ok(1));
    }
    {
        let t = get_indexed_mut(&no_indexer, &mut d, Dynamic::from_string(ImmutableString::from_str("b")), Position::none(), false, false).unwrap();
        assert!(t.is_temp_value());
        assert!(t.deref().is_unit());
    }
    {
        let mut t = get_indexed_mut(&no_indexer, &mut d, Dynamic::from_string(ImmutableString::from_str("b")), Position::none(), true, false).unwrap();
        assert!(t.is_ref());
        *t.deref_mut() = Dynamic::from_int(5);
    }
    assert_eq!(d.to_text(), "#{\"a\": 1, \"b\": 5}");
    let e = get_indexed_mut(&no_indexer, &mut d, Dynamic::from_int(0), Position::none(), false, false).unwrap_err();
    assert_eq!(e.to_text(), "Data type is incorrect: i64 (expecting string)");
}

#[test]
fn nested_data_sizes() {
    let mut limits = Limits::default_limits();
    let mut inner = rhai::map::ObjectMap::new();
    inner.insert(String::from("k"), Dynamic::from_string(ImmutableString::from_str("abcd")));
    let value = Dynamic::from_array(vec![
        Dynamic::from_string(ImmutableString::from_str("xy")),
        Dynamic::from_map(inner),
        int_array(&[1, 2]),
    ]);
    assert_eq!(value.data_size(), (5, 1, 6));
    assert!(check_data_size(&limits, &value).is_ok());
    limits.max_string_size = Some(5);
    assert_eq!(check_data_size(&limits, &value).unwrap_err().to_text(), "Length of string exceeds maximum limit");
    limits.max_string_size = Some(6);
    assert!(check_data_size(&limits, &value).is_ok());
    limits.max_array_size = Some(4);
    assert_eq!(check_data_size(&limits, &value).unwrap_err().to_text(), "Size of array exceeds maximum limit");
    limits.max_array_size = None;
    limits.max_map_size = Some(0);
    assert_eq!(check_data_size(&limits, &value).unwrap_err().to_text(), "Size of object map exceeds maximum limit");
    assert_eq!(value.to_text(), "[\"xy\", #{\"k\": \"abcd\"}, [1, 2]]");
}
