use std::cell::Cell;

use rhai::ast::{Expr, Stmt, VariableRef};
use rhai::dynamic::Dynamic;
use rhai::engine::{Imports, Limits};
use rhai::error::EvalAltResult;
use rhai::eval::{eval_expr, eval_stmt};
use rhai::immutable_string::ImmutableString;
use rhai::position::Position;
use rhai::scope::Scope;

type Res = Result<Dynamic, Box<EvalAltResult>>;
type Resolver = fn(&str, usize) -> Result<Option<Dynamic>, Box<EvalAltResult>>;
type Progress = fn(u64) -> Option<Dynamic>;

fn at(pos: u16) -> Position {
    Position::new(1, pos)
}

fn num(i: i64) -> Expr {
    Expr::IntegerConstant(i, at(1))
}

fn text(s: &str) -> Expr {
    Expr::StringConstant(ImmutableString::from_str(s), at(1))
}

fn var(name: &str) -> Expr {
    Expr::Variable(None, at(2), Box::new(VariableRef { index: None, namespace: None, name: String::from(name) }))
}

fn call(name: &str, args: Vec<Expr>) -> Expr {
    Expr::FnCall(Box::new((String::from(name), args)), at(3))
}

fn functions(calls: &Cell<u32>) -> impl Fn(&str, &[Dynamic]) -> Res + '_ {
    move |name: &str, args: &[Dynamic]| {
        calls.set(calls.get() + 1);
        match name {
            "add" => Ok(Dynamic::from_int(args[0].as_int().unwrap() + args[1].as_int().unwrap())),
            "get$size" | "len" => Ok(Dynamic::from_int(args.len() as i64 * 10)),
            _ => Err(Box::new(EvalAltResult::ErrorFunctionNotFound(String::from(name), at(0)))),
        }
    }
}

fn run_expr(scope: &mut Scope, limits: &Limits, e: &Expr, calls: &Cell<u32>) -> Res {
    let call_fn = functions(calls);
    let indexer = |_: &Dynamic, _: &Dynamic| -> Res { Err(Box::new(EvalAltResult::ErrorIndexingType(String::from("x"), at(0)))) };
    let custom = |_: &Vec<Expr>| -> Res { Ok(Dynamic::from_int(99)) };
    let mut ops = 0u64;
    eval_expr(&call_fn, &indexer, &custom, None::<&Resolver>, None::<&Progress>, limits, scope, &Imports::new(), &None, &mut ops, e)
}

fn run_stmt(scope: &mut Scope, limits: &Limits, s: &Stmt) -> Res {
    let calls = Cell::new(0);
    let call_fn = functions(&calls);
    let indexer = |_: &Dynamic, _: &Dynamic| -> Res { Err(Box::new(EvalAltResult::ErrorIndexingType(String::from("x"), at(0)))) };
    let custom = |_: &Vec<Expr>| -> Res { Ok(Dynamic::unit()) };
    let mut ops = 0u64;
    let mut mods = Imports::new();
    eval_stmt(&call_fn, &indexer, &custom, None::<&Resolver>, None::<&Progress>, limits, scope, &mut mods, &None, &mut ops, s)
}

#[test]
fn literals_and_logic() {
    let calls = Cell::new(0);
    let limits = Limits::default_limits();
    let mut scope = Scope::new();
    assert_eq!(run_expr(&mut scope, &limits, &num(5), &calls).unwrap().as_int(), Ok(5));
    let e = Expr::And(Box::new((Expr::BoolConstant(false, at(1)), call("add", vec![num(1), num(2)]))), at(1));
    assert_eq!(run_expr(&mut scope, &limits, &e, &calls).unwrap().as_bool(), Ok(false));
    assert_eq!(calls.get(), 0);
    let e = Expr::Or(Box::new((Expr::BoolConstant(false, at(1)), Expr::BoolConstant(true, at(1)))), at(1));
    assert_eq!(run_expr(&mut scope, &limits, &e, &calls).unwrap().as_bool(), Ok(true));
    let e = Expr::And(Box::new((num(1), Expr::BoolConstant(true, at(1)))), at(1));
    let err = run_expr(&mut scope, &limits, &e, &calls).unwrap_err();
    assert!(matches!(*err, EvalAltResult::ErrorMismatchDataType(ref w, ref g, _) if w == "bool" && g == "i64"));
}

#[test]
fn variables_and_calls() {
    let calls = Cell::new(0);
    let limits = Limits::default_limits();
    let mut scope = Scope::new();
    scope.push(String::from("x"), Dynamic::from_int(10));
    assert_eq!(run_expr(&mut scope, &limits, &var("x"), &calls).unwrap().as_int(), Ok(10));
    let err = run_expr(&mut scope, &limits, &var("y"), &calls).unwrap_err();
    assert!(matches!(*err, EvalAltResult::ErrorVariableNotFound(ref n, _) if n == "y"));
    let r = run_expr(&mut scope, &limits, &call("add", vec![var("x"), num(5)]), &calls).unwrap();
    assert_eq!(r.as_int(), Ok(15));
    assert_eq!(calls.get(), 1);
    let err = run_expr(&mut scope, &limits, &var("this"), &calls).unwrap_err();
    assert!(matches!(*err, EvalAltResult::ErrorUnboundThis(_)));
}

#[test]
fn arrays_maps_strings_and_indexing() {
    let calls = Cell::new(0);
    let limits = Limits::default_limits();
    let mut scope = Scope::new();
    let array = Expr::Array(vec![num(1), num(2), num(3)], at(1));
    assert_eq!(run_expr(&mut scope, &limits, &array, &calls).unwrap().to_text(), "[1, 2, 3]");
    let last = Expr::Index(Box::new((array, num(-1))), at(1));
    assert_eq!(run_expr(&mut scope, &limits, &last, &calls).unwrap().as_int(), Ok(3));
    let map = Expr::MapLiteral(vec![(String::from("a"), num(7))], at(1));
    let by_key = Expr::Index(Box::new((map, text("a"))), at(1));
    assert_eq!(run_expr(&mut scope, &limits, &by_key, &calls).unwrap().as_int(), Ok(7));
    let s = Expr::InterpolatedString(vec![text("x = "), num(4), Expr::Unit(at(1))], at(1));
    assert_eq!(run_expr(&mut scope, &limits, &s, &calls).unwrap().to_text(), "x = 4");
    let bit = Expr::Index(Box::new((num(5), num(2))), at(1));
    assert_eq!(run_expr(&mut scope, &limits, &bit, &calls).unwrap().as_bool(), Ok(true));
}

#[test]
fn properties_and_methods() {
    let calls = Cell::new(0);
    let limits = Limits::default_limits();
    let mut scope = Scope::new();
    let prop = |name: &str| {
        Expr::Property(Box::new((
            (format!("get${}", name), 0),
            (format!("set${}", name), 0),
            (ImmutableString::from_str(name), at(5)),
        )))
    };
    let map = Expr::MapLiteral(vec![(String::from("a"), num(7))], at(1));
    let e = Expr::Dot(Box::new((map, prop("a"))), at(1));
    assert_eq!(run_expr(&mut scope, &limits, &e, &calls).unwrap().as_int(), Ok(7));
    let map = Expr::MapLiteral(vec![(String::from("a"), num(7))], at(1));
    let e = Expr::Dot(Box::new((map, prop("b"))), at(1));
    assert!(run_expr(&mut scope, &limits, &e, &calls).unwrap().is_unit());
    let e = Expr::Dot(Box::new((num(1), prop("size"))), at(1));
    assert_eq!(run_expr(&mut scope, &limits, &e, &calls).unwrap().as_int(), Ok(10));
    let e = Expr::Dot(Box::new((num(1), call("len", vec![num(2)]))), at(1));
    assert_eq!(run_expr(&mut scope, &limits, &e, &calls).unwrap().as_int(), Ok(20));
}

#[test]
fn statements_and_blocks() {
    let limits = Limits::default_limits();
    let mut scope = Scope::new();
    let s = Stmt::Var(num(5), String::from("x"), true, at(1));
    assert!(run_stmt(&mut scope, &limits, &s).unwrap().is_unit());
    assert_eq!(scope.len(), 1);
    assert_eq!(scope.is_constant("x"), Some(true));
    let block = Stmt::Block(vec![Stmt::Var(num(6), String::from("y"), false, at(1)), Stmt::Expr(var("y"))], at(1));
    assert_eq!(run_stmt(&mut scope, &limits, &block).unwrap().as_int(), Ok(6));
    assert_eq!(scope.len(), 1);
    let e = run_stmt(&mut scope, &limits, &Stmt::Return(Some(num(3)), at(9))).unwrap_err();
    assert!(matches!(*e, EvalAltResult::Return(ref v, p) if v.as_int() == Ok(3) && p == at(9)));
    let e = run_stmt(&mut scope, &limits, &Stmt::Break(at(4))).unwrap_err();
    assert!(matches!(*e, EvalAltResult::LoopBreak(true, p) if p == at(4)));
}

#[test]
fn conditions_and_loops() {
    let mut limits = Limits::default_limits();
    let mut scope = Scope::new();
    let s = Stmt::If(num(1), Box::new((vec![], vec![])), at(1));
    let e = run_stmt(&mut scope, &limits, &s).unwrap_err();
    assert!(matches!(*e, EvalAltResult::ErrorMismatchDataType(ref w, _, _) if w == "bool"));
    let s = Stmt::If(Expr::BoolConstant(false, at(1)), Box::new((vec![Stmt::Expr(num(1))], vec![Stmt::Expr(num(2))])), at(1));
    assert_eq!(run_stmt(&mut scope, &limits, &s).unwrap().as_int(), Ok(2));
    let s = Stmt::While(Expr::BoolConstant(true, at(1)), vec![Stmt::Break(at(2))], at(1));
    assert!(run_stmt(&mut scope, &limits, &s).unwrap().is_unit());
    let s = Stmt::While(Expr::BoolConstant(false, at(1)), vec![Stmt::Expr(num(1))], at(1));
    assert!(run_stmt(&mut scope, &limits, &s).unwrap().is_unit());
    limits.set_max_operations(50);
    let s = Stmt::While(Expr::BoolConstant(true, at(1)), vec![Stmt::Noop(at(2))], at(1));
    let e = run_stmt(&mut scope, &limits, &s).unwrap_err();
    assert!(matches!(*e, EvalAltResult::ErrorTooManyOperations(_)));
}
