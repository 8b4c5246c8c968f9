use rhai::ast::{Expr, Stmt, VariableRef};
use rhai::dynamic::{AccessMode, Dynamic};
use rhai::immutable_string::ImmutableString;
use rhai::optimize::{optimize_expr, optimize_stmt, optimize_stmt_block, optimize_top_level, OptimizationLevel, OptimizerState};
use rhai::scope::Scope;
use rhai::position::Position;

fn at(pos: u16) -> Position {
    Position::new(1, pos)
}

fn var(name: &str, pos: u16) -> Expr {
    Expr::Variable(None, at(pos), Box::new(VariableRef { index: None, namespace: None, name: String::from(name) }))
}

fn num(i: i64, pos: u16) -> Expr {
    Expr::IntegerConstant(i, at(pos))
}

fn text(s: &str, pos: u16) -> Expr {
    Expr::StringConstant(ImmutableString::from_str(s), at(pos))
}

fn index(l: Expr, r: Expr) -> Expr {
    Expr::Index(Box::new((l, r)), at(50))
}

fn run(mut e: Expr, chaining: bool) -> (Expr, OptimizerState) {
    let mut state = OptimizerState::new(OptimizationLevel::Simple);
    optimize_expr(&mut e, &mut state, chaining);
    (e, state)
}

#[test]
fn false_and_anything_is_false() {
    let e = Expr::And(Box::new((Expr::BoolConstant(false, at(3)), var("x", 9))), at(5));
    let (e, state) = run(e, false);
    assert!(matches!(e, Expr::BoolConstant(false, p) if p == at(3)));
    assert!(state.is_dirty());
}

#[test]
fn true_or_anything_is_true() {
    let e = Expr::Or(Box::new((Expr::BoolConstant(true, at(3)), var("x", 9))), at(5));
    let (e, state) = run(e, false);
    assert!(matches!(e, Expr::BoolConstant(true, p) if p == at(3)));
    assert!(state.is_dirty());
}

#[test]
fn neutral_operands_are_dropped() {
    let e = Expr::And(Box::new((Expr::BoolConstant(true, at(1)), var("x", 9))), at(5));
    let (e, _) = run(e, false);
    assert!(matches!(&e, Expr::Variable(_, p, v) if *p == at(9) && v.name == "x"));

    let e = Expr::Or(Box::new((var("y", 2), Expr::BoolConstant(false, at(8)))), at(5));
    let (e, state) = run(e, false);
    assert!(matches!(&e, Expr::Variable(_, p, v) if *p == at(2) && v.name == "y"));
    assert!(state.is_dirty());
}

#[test]
fn other_logic_is_kept() {
    let e = Expr::And(Box::new((var("a", 1), var("b", 6))), at(3));
    let (e, state) = run(e, false);
    assert!(matches!(&e, Expr::And(x, p) if *p == at(3)
        && matches!(&x.0, Expr::Variable(_, _, v) if v.name == "a")
        && matches!(&x.1, Expr::Variable(_, _, v) if v.name == "b")));
    assert!(!state.is_dirty());
}

#[test]
fn bits_of_an_integer_literal_are_folded() {
    let (e, state) = run(index(num(0b101, 4), num(2, 7)), false);
    assert!(matches!(e, Expr::BoolConstant(true, p) if p == at(4)));
    assert!(state.is_dirty());
    let (e, _) = run(index(num(0b101, 4), num(1, 7)), false);
    assert!(matches!(e, Expr::BoolConstant(false, _)));
    let (e, _) = run(index(num(i64::MIN, 4), num(-1, 7)), false);
    assert!(matches!(e, Expr::BoolConstant(true, _)));
    let (e, state) = run(index(num(5, 4), num(64, 7)), false);
    assert!(matches!(e, Expr::Index(..)));
    assert!(!state.is_dirty());
}

#[test]
fn characters_of_a_string_literal_are_folded() {
    let (e, _) = run(index(text("abc", 2), num(1, 8)), false);
    assert!(matches!(e, Expr::CharConstant('b', p) if p == at(2)));
    let (e, _) = run(index(text("abc", 2), num(-1, 8)), false);
    assert!(matches!(e, Expr::CharConstant('c', _)));
    let (e, _) = run(index(text("abc", 2), num(3, 8)), false);
    assert!(matches!(e, Expr::Index(..)));
    let (e, _) = run(index(text("abc", 2), num(-4, 8)), false);
    assert!(matches!(e, Expr::Index(..)));
}

#[test]
fn chained_indexing_is_not_folded() {
    let (e, state) = run(index(text("abc", 2), num(1, 8)), true);
    assert!(matches!(e, Expr::Index(..)));
    assert!(!state.is_dirty());
}

#[test]
fn items_of_a_pure_array_literal_are_picked() {
    let array = Expr::Array(vec![num(10, 2), var("v", 4), num(30, 6)], at(1));
    let (e, state) = run(index(array, num(-1, 9)), false);
    assert!(matches!(e, Expr::IntegerConstant(30, p) if p == at(1)));
    assert!(state.is_dirty());

    let impure = Expr::Array(vec![num(10, 2), Expr::FnCall(Box::new((String::from("f"), vec![])), at(4))], at(1));
    let (e, _) = run(index(impure, num(0, 9)), false);
    assert!(matches!(e, Expr::Index(..)));
}

#[test]
fn properties_of_a_pure_map_literal_are_picked() {
    let map = || {
        Expr::MapLiteral(vec![(String::from("a"), num(1, 3)), (String::from("b"), num(2, 5))], at(1))
    };
    let prop = |name: &str| {
        Expr::Property(Box::new((
            (String::from(name), 0),
            (String::from(name), 0),
            (ImmutableString::from_str(name), at(9)),
        )))
    };
    let (e, state) = run(Expr::Dot(Box::new((map(), prop("b"))), at(8)), false);
    assert!(matches!(e, Expr::IntegerConstant(2, p) if p == at(1)));
    assert!(state.is_dirty());
    let (e, _) = run(Expr::Dot(Box::new((map(), prop("z"))), at(8)), false);
    assert!(matches!(e, Expr::Unit(p) if p == at(1)));
}

#[test]
fn known_constants_are_propagated() {
    let mut state = OptimizerState::new(OptimizationLevel::Simple);
    state.push_var("x", AccessMode::ReadOnly, Some(Dynamic::from_int(42)));
    state.push_var("y", AccessMode::ReadWrite, None);
    let mut e = var("x", 6);
    optimize_expr(&mut e, &mut state, false);
    assert!(matches!(e, Expr::IntegerConstant(42, p) if p == at(6)));
    let mut e = var("y", 6);
    optimize_expr(&mut e, &mut state, false);
    assert!(matches!(e, Expr::Variable(..)));
    let mut e = index(var("x", 6), num(3, 9));
    optimize_expr(&mut e, &mut state, false);
    assert!(matches!(e, Expr::Index(x, _) if matches!(x.0, Expr::Variable(..))));
}

#[test]
fn eval_stops_constant_propagation() {
    let mut state = OptimizerState::new(OptimizationLevel::Simple);
    state.push_var("x", AccessMode::ReadOnly, Some(Dynamic::from_int(1)));
    let mut e = Expr::FnCall(Box::new((String::from("eval"), vec![text("x", 6)])), at(1));
    optimize_expr(&mut e, &mut state, false);
    assert!(!state.propagate_constants);
    let mut e = var("x", 3);
    optimize_expr(&mut e, &mut state, false);
    assert!(matches!(e, Expr::Variable(..)));
}

#[test]
fn arguments_and_items_are_optimized() {
    let arg = Expr::And(Box::new((Expr::BoolConstant(false, at(3)), var("q", 9))), at(5));
    let (e, state) = run(Expr::FnCall(Box::new((String::from("f"), vec![arg])), at(1)), false);
    assert!(matches!(&e, Expr::FnCall(x, _) if matches!(x.1[0], Expr::BoolConstant(false, _))));
    assert!(state.is_dirty());
}

#[test]
fn interpolated_strings_are_simplified() {
    let (e, _) = run(Expr::InterpolatedString(vec![], at(4)), false);
    assert!(matches!(&e, Expr::StringConstant(s, p) if s.as_str() == "" && *p == at(4)));
    let (e, _) = run(Expr::InterpolatedString(vec![text("hi", 5)], at(4)), false);
    assert!(matches!(&e, Expr::StringConstant(s, p) if s.as_str() == "hi" && *p == at(5)));
}

fn call(name: &str, args: Vec<Expr>) -> Expr {
    Expr::FnCall(Box::new((String::from(name), args)), at(20))
}

#[test]
fn built_in_operators_on_literals_are_evaluated() {
    let (e, state) = run(call("+", vec![num(1, 1), num(2, 3)]), false);
    assert!(matches!(e, Expr::IntegerConstant(3, p) if p == at(20)));
    assert!(state.is_dirty());
    let (e, _) = run(call("==", vec![text("a", 1), text("a", 5)]), false);
    assert!(matches!(e, Expr::BoolConstant(true, _)));
    let (e, _) = run(call("+", vec![text("ab", 1), Expr::CharConstant('c', at(5))]), false);
    assert!(matches!(&e, Expr::StringConstant(s, _) if s.as_str() == "abc"));
    let (e, state) = run(call("/", vec![num(1, 1), num(0, 3)]), false);
    assert!(matches!(e, Expr::FnCall(..)));
    assert!(!state.is_dirty());
    let (e, _) = run(call("+", vec![num(1, 1), var("x", 3)]), false);
    assert!(matches!(e, Expr::FnCall(..)));

    let mut state = OptimizerState::new(OptimizationLevel::Full);
    let mut e = call("+", vec![num(1, 1), num(2, 3)]);
    optimize_expr(&mut e, &mut state, false);
    assert!(matches!(e, Expr::IntegerConstant(3, _)));

    let mut state = OptimizerState::new(OptimizationLevel::Off);
    let mut e = call("+", vec![num(1, 1), num(2, 3)]);
    optimize_expr(&mut e, &mut state, false);
    assert!(matches!(&e, Expr::FnCall(x, p) if x.0 == "+" && x.1.len() == 2 && *p == at(20)));
}

fn stmt(mut s: Stmt, preserve_result: bool) -> (Stmt, OptimizerState) {
    let mut state = OptimizerState::new(OptimizationLevel::Simple);
    optimize_stmt(&mut s, &mut state, preserve_result);
    (s, state)
}

fn call_stmt(name: &str) -> Stmt {
    Stmt::Expr(call(name, vec![]))
}

fn if_stmt(cond: Expr, then_block: Vec<Stmt>, else_block: Vec<Stmt>) -> Stmt {
    Stmt::If(cond, Box::new((then_block, else_block)), at(30))
}

#[test]
fn if_on_a_literal_keeps_the_branch_taken() {
    let (s, state) = stmt(if_stmt(Expr::BoolConstant(false, at(2)), vec![call_stmt("f")], vec![]), false);
    assert!(matches!(s, Stmt::Noop(p) if p == at(2)));
    assert!(state.is_dirty());

    let (s, _) = stmt(if_stmt(Expr::BoolConstant(true, at(2)), vec![call_stmt("f"), call_stmt("g")], vec![call_stmt("h")]), false);
    assert!(matches!(&s, Stmt::Block(b, _) if b.len() == 2
        && matches!(&b[0], Stmt::Expr(Expr::FnCall(x, _)) if x.0 == "f")));

    let (s, _) = stmt(if_stmt(Expr::BoolConstant(false, at(2)), vec![call_stmt("f")], vec![call_stmt("h")]), false);
    assert!(matches!(&s, Stmt::Block(b, _) if b.len() == 1
        && matches!(&b[0], Stmt::Expr(Expr::FnCall(x, _)) if x.0 == "h")));
}

#[test]
fn if_with_empty_branches_keeps_its_condition() {
    let (s, state) = stmt(if_stmt(var("c", 4), vec![], vec![]), false);
    assert!(matches!(&s, Stmt::Expr(Expr::Variable(_, _, v)) if v.name == "c"));
    assert!(state.is_dirty());
    let (s, _) = stmt(if_stmt(var("c", 4), vec![], vec![]), true);
    assert!(matches!(&s, Stmt::Block(b, p) if b.len() == 2 && *p == at(4) && matches!(b[1], Stmt::Noop(_))));
}

#[test]
fn other_ifs_are_optimized_inside() {
    let cond = Expr::And(Box::new((var("c", 4), Expr::BoolConstant(true, at(9)))), at(6));
    let (s, _) = stmt(if_stmt(cond, vec![call_stmt("f")], vec![]), false);
    assert!(matches!(&s, Stmt::If(Expr::Variable(..), x, _) if x.0.len() == 1 && x.1.is_empty()));
}

#[test]
fn loops_that_never_run_or_stop_at_once_are_simplified() {
    let (s, state) = stmt(Stmt::While(Expr::BoolConstant(false, at(3)), vec![call_stmt("f")], at(1)), false);
    assert!(matches!(s, Stmt::Noop(p) if p == at(3)));
    assert!(state.is_dirty());

    let (s, _) = stmt(Stmt::While(var("c", 3), vec![Stmt::Break(at(7))], at(1)), false);
    assert!(matches!(&s, Stmt::Block(b, p) if *p == at(7) && b.len() == 1
        && matches!(&b[0], Stmt::Expr(Expr::Variable(..)))));

    let (s, _) = stmt(Stmt::While(Expr::BoolConstant(true, at(3)), vec![Stmt::Break(at(7))], at(1)), false);
    assert!(matches!(s, Stmt::Noop(p) if p == at(7)));

    let (s, _) = stmt(Stmt::While(var("c", 3), vec![call_stmt("f")], at(1)), false);
    assert!(matches!(&s, Stmt::While(_, b, _) if b.len() == 1));
}

#[test]
fn blocks_lose_dead_code_and_single_statements_are_promoted() {
    let block = Stmt::Block(vec![Stmt::Return(Some(num(1, 3)), at(2)), call_stmt("f")], at(1));
    let (s, state) = stmt(block, false);
    assert!(matches!(&s, Stmt::Return(Some(Expr::IntegerConstant(1, _)), p) if *p == at(2)));
    assert!(state.is_dirty());

    let (s, _) = stmt(Stmt::Block(vec![], at(1)), false);
    assert!(matches!(s, Stmt::Noop(p) if p == at(1)));

    let mut state = OptimizerState::new(OptimizationLevel::Simple);
    let r = optimize_stmt_block(vec![call_stmt("f"), Stmt::Break(at(5)), call_stmt("g"), call_stmt("h")], &mut state, false);
    assert_eq!(r.len(), 2);
    assert!(matches!(r[1], Stmt::Break(_)));
    assert!(state.is_dirty());
}

#[test]
fn constants_of_a_block_are_known_after_them_only() {
    let mut state = OptimizerState::new(OptimizationLevel::Simple);
    let statements = vec![
        Stmt::Var(num(5, 9), String::from("x"), true, at(1)),
        Stmt::Var(num(6, 19), String::from("y"), false, at(11)),
        Stmt::Expr(call("f", vec![var("x", 25)])),
        Stmt::Expr(var("y", 40)),
    ];
    let r = optimize_stmt_block(statements, &mut state, true);
    assert_eq!(r.len(), 4);
    assert!(matches!(&r[2], Stmt::Expr(Expr::FnCall(x, _)) if matches!(x.1[0], Expr::IntegerConstant(5, _))));
    assert!(matches!(&r[3], Stmt::Expr(Expr::Variable(_, _, v)) if v.name == "y"));
    assert!(state.variables.is_empty());
    let mut e = var("x", 3);
    optimize_expr(&mut e, &mut state, false);
    assert!(matches!(e, Expr::Variable(..)));
}

#[test]
fn pure_statements_are_removed() {
    let mut state = OptimizerState::new(OptimizationLevel::Simple);
    let statements = vec![Stmt::Expr(num(1, 1)), call_stmt("f"), Stmt::Noop(at(3)), Stmt::Expr(var("v", 4))];
    let r = optimize_stmt_block(statements, &mut state, true);
    assert_eq!(r.len(), 2);
    assert!(matches!(&r[0], Stmt::Expr(Expr::FnCall(..))));
    assert!(matches!(&r[1], Stmt::Expr(Expr::Variable(..))));
    assert!(state.is_dirty());

    let mut state = OptimizerState::new(OptimizationLevel::Simple);
    let statements = vec![call_stmt("f"), Stmt::Expr(var("v", 4))];
    let r = optimize_stmt_block(statements, &mut state, false);
    assert_eq!(r.len(), 1);
    assert!(matches!(&r[0], Stmt::Expr(Expr::FnCall(..))));

    let mut state = OptimizerState::new(OptimizationLevel::Simple);
    let statements = vec![call_stmt("f"), Stmt::Var(num(1, 5), String::from("z"), false, at(4))];
    let r = optimize_stmt_block(statements, &mut state, true);
    assert_eq!(r.len(), 2);
    assert!(matches!(r[1], Stmt::Noop(p) if p == at(4)));
}

#[test]
fn parts_of_interpolated_strings_are_merged() {
    let parts = vec![text("a", 1), text("b", 2), var("x", 3), Expr::Unit(at(4)), text("", 5), text("c", 6)];
    let (e, state) = run(Expr::InterpolatedString(parts, at(9)), false);
    assert!(matches!(&e, Expr::InterpolatedString(y, p) if *p == at(9) && y.len() == 3
        && matches!(&y[0], Expr::StringConstant(s, q) if s.as_str() == "ab" && *q == at(1))
        && matches!(&y[1], Expr::Variable(..))
        && matches!(&y[2], Expr::StringConstant(s, _) if s.as_str() == "c")));
    assert!(state.is_dirty());

    let (e, state) = run(Expr::InterpolatedString(vec![var("x", 3), text("!", 5)], at(9)), false);
    assert!(matches!(&e, Expr::InterpolatedString(y, _) if y.len() == 2));
    assert!(!state.is_dirty());
}

#[test]
fn constant_arrays_and_maps_become_values() {
    let (e, state) = run(Expr::Array(vec![num(1, 2), text("a", 4)], at(1)), false);
    assert!(matches!(&e, Expr::DynamicConstant(d, p) if *p == at(1) && d.to_text() == "[1, \"a\"]"));
    assert!(state.is_dirty());
    let map = Expr::MapLiteral(vec![(String::from("b"), num(2, 3)), (String::from("a"), Expr::BoolConstant(true, at(5)))], at(1));
    let (e, _) = run(map, false);
    assert!(matches!(&e, Expr::DynamicConstant(d, _) if d.to_text() == "#{\"a\": true, \"b\": 2}"));
    let (e, _) = run(Expr::Array(vec![num(1, 2), var("v", 4)], at(1)), false);
    assert!(matches!(&e, Expr::Array(x, _) if x.len() == 2));
}

#[test]
fn a_block_that_breaks_ends_with_its_break() {
    let mut state = OptimizerState::new(OptimizationLevel::Simple);
    let statements = vec![Stmt::Expr(num(1, 1)), Stmt::Noop(at(2)), Stmt::Return(None, at(3)), call_stmt("f")];
    let r = optimize_stmt_block(statements, &mut state, false);
    assert_eq!(r.len(), 1);
    assert!(matches!(r[0], Stmt::Return(None, p) if p == at(3)));
}

#[test]
fn type_of_and_is_shared_on_literals_are_answered() {
    let (e, state) = run(call("type_of", vec![num(1, 1)]), false);
    assert!(matches!(&e, Expr::StringConstant(s, p) if s.as_str() == "i64" && *p == at(20)));
    assert!(state.is_dirty());
    let (e, _) = run(call("is_shared", vec![text("a", 1)]), false);
    assert!(matches!(e, Expr::BoolConstant(false, p) if p == at(20)));
    let (e, _) = run(call("type_of", vec![var("x", 1)]), false);
    assert!(matches!(e, Expr::FnCall(..)));
}

#[test]
fn scripts_start_from_the_constants_of_their_scope() {
    let mut scope = Scope::new();
    scope.push_constant(String::from("x"), Dynamic::from_int(5));
    scope.push(String::from("y"), Dynamic::from_int(6));
    let statements = vec![Stmt::Expr(call("f", vec![var("x", 2), var("y", 4)]))];
    let r = optimize_top_level(statements, &scope, OptimizationLevel::Simple);
    assert_eq!(r.len(), 1);
    assert!(matches!(&r[0], Stmt::Expr(Expr::FnCall(x, _))
        if matches!(x.1[0], Expr::IntegerConstant(5, _)) && matches!(x.1[1], Expr::Variable(..))));
    let statements = vec![Stmt::Expr(var("x", 2)), Stmt::Noop(at(3))];
    let r = optimize_top_level(statements, &scope, OptimizationLevel::Off);
    assert_eq!(r.len(), 2);
    assert!(matches!(r[0], Stmt::Expr(Expr::Variable(..))));
}
