//! Evaluation of expressions and statements.
use vstd::prelude::*;
use crate::ast::{Expr, Stmt};
use crate::dynamic::{spec_flatten, spec_type_desc, AccessMode, Dynamic, Union};
use crate::engine::{
    check_data_size, check_return_value, get_indexed_mut, inc_operations, is_this_variable, scope_slot, search_scope_only, Imports, Limits,
};
use crate::error::EvalAltResult;
use crate::immutable_string::ImmutableString;
use crate::map::ObjectMap;
use std::rc::Rc;
use crate::position::Position;
use crate::scope::Scope;

verus! {

/// Is the error one of running out of operations: too many of them, or evaluation
/// stopped by the progress callback?
pub open spec fn is_limit_error(e: EvalAltResult) -> bool {
    e is ErrorTooManyOperations || e is ErrorTerminated
}

/// The value of an expression made of literals, `&&` and `||` only (short-circuiting:
/// `false && x` and `true || x` whatever `x` is); `None` for any other expression, or
/// where an operand of `&&` or `||` is not a boolean.
pub open spec fn literal_value(e: Expr) -> Option<Union>
    decreases e,
{
    match e {
        Expr::DynamicConstant(d, _) => Some(d.value),
        Expr::BoolConstant(b, _) => Some(Union::Bool(b)),
        Expr::IntegerConstant(i, _) => Some(Union::Int(i)),
        Expr::CharConstant(c, _) => Some(Union::Char(c)),
        Expr::StringConstant(s, _) => Some(Union::Str(s)),
        Expr::Unit(_) => Some(Union::Unit),
        Expr::And(x, _) => match literal_value(x.0) {
            Some(Union::Bool(false)) => Some(Union::Bool(false)),
            Some(Union::Bool(true)) => match literal_value(x.1) {
                Some(Union::Bool(b)) => Some(Union::Bool(b)),
                _ => None,
            },
            _ => None,
        },
        Expr::Or(x, _) => match literal_value(x.0) {
            Some(Union::Bool(true)) => Some(Union::Bool(true)),
            Some(Union::Bool(false)) => match literal_value(x.1) {
                Some(Union::Bool(b)) => Some(Union::Bool(b)),
                _ => None,
            },
            _ => None,
        },
        _ => None,
    }
}

/// Is the error one of running out of the evaluation's budget: operations, or the size
/// limits of values?
pub open spec fn is_budget_error(e: EvalAltResult) -> bool {
    is_limit_error(e) || e is ErrorDataTooLarge
}

/// Do all the expressions have values made of literals (see [`literal_value`])?
pub open spec fn all_literal(items: Seq<Expr>) -> bool {
    forall|i: int| 0 <= i < items.len() ==> (#[trigger] literal_value(items[i])) is Some
}

/// What reading the right side of a `.` made only of properties gives from `target`, for
/// maps that keep their order: a map's entry of that name, or `()` when it has none; for
/// a chain `a.b`, `b` read from what `a` gives. `None` where other values or other kinds
/// of parts are involved.
pub open spec fn chain_read(target: Dynamic, rhs: Expr) -> Option<Dynamic>
    decreases rhs,
{
    match rhs {
        Expr::Property(p) => match spec_flatten(target).value {
            Union::Object(m) => if m.wf() {
                if m@.contains_key(p.2.0@) {
                    Some(m@[p.2.0@])
                } else {
                    Some(Dynamic::spec_of(Union::Unit))
                }
            } else {
                None
            },
            _ => None,
        },
        Expr::Dot(x, _) => match chain_read(target, x.0) {
            Some(v) => chain_read(v, x.1),
            None => None,
        },
        _ => None,
    }
}

/// Removing sharing twice is removing it once.
proof fn lemma_flatten_twice(d: Dynamic)
    ensures
        spec_flatten(spec_flatten(d)) == spec_flatten(d),
    decreases d,
{
    match d.value {
        Union::Shared(inner) => {
            lemma_flatten_twice(*inner);
        },
        _ => {},
    }
}

/// Reading a chain does not depend on whether the target is shared.
proof fn lemma_chain_read_flat(target: Dynamic, rhs: Expr)
    ensures
        chain_read(spec_flatten(target), rhs) == chain_read(target, rhs),
    decreases rhs,
{
    lemma_flatten_twice(target);
    match rhs {
        Expr::Dot(x, _) => {
            lemma_chain_read_flat(target, x.0);
        },
        _ => {},
    }
}

/// Reading `a.b` from a map reads `b` from the map held in its property `a`: that inner
/// map's entry `b`, or `()` when it has none.
pub proof fn law_property_chain(m: ObjectMap, m2: ObjectMap, pa: Expr, pb: Expr, pos: Position)
    requires
        m.wf(),
        m2.wf(),
        pa matches Expr::Property(a) && m@.contains_key(a.2.0@) && m@[a.2.0@].value == Union::Object(Rc::new(m2)),
        pb is Property,
    ensures
        pb matches Expr::Property(b) ==> chain_read(
            Dynamic::spec_of(Union::Object(Rc::new(m))),
            Expr::Dot(Box::new((pa, pb)), pos),
        ) == Some(if m2@.contains_key(b.2.0@) {
            m2@[b.2.0@]
        } else {
            Dynamic::spec_of(Union::Unit)
        }),
{
    let target = Dynamic::spec_of(Union::Object(Rc::new(m)));
    let a = pa->Property_0;
    assert(chain_read(target, pa) == Some(m@[a.2.0@]));
    let v = m@[a.2.0@];
    assert(spec_flatten(v) == v);
    let b = pb->Property_0;
    let inner = chain_read(v, pb);
    assert(inner == Some(if m2@.contains_key(b.2.0@) {
        m2@[b.2.0@]
    } else {
        Dynamic::spec_of(Union::Unit)
    }));
    assert(chain_read(target, Expr::Dot(Box::new((pa, pb)), pos)) == inner);
}

/// A value with any sharing wrapper removed (see [`spec_flatten`]).
pub open spec fn flat_union(u: Union) -> Union {
    match u {
        Union::Shared(inner) => spec_flatten(*inner).value,
        _ => u,
    }
}

/// The value a statement is known to give before it runs: `()` for a no-op or a
/// declaration, the value (sharing removed) of an expression statement made of literals
/// (see [`literal_value`]), and for a block that of its last statement (`()` when it is
/// empty); `None` otherwise.
pub open spec fn stmt_literal_value(s: Stmt) -> Option<Union>
    decreases s,
{
    match s {
        Stmt::Noop(_) => Some(Union::Unit),
        Stmt::Var(..) => Some(Union::Unit),
        Stmt::Block(b, _) => if b@.len() == 0 {
            Some(Union::Unit)
        } else {
            stmt_literal_value(b@.last())
        },
        Stmt::Expr(e) => match literal_value(e) {
            Some(u) => Some(flat_union(u)),
            None => None,
        },
        _ => None,
    }
}

/// The error for a value of the wrong type where a boolean is needed.
pub open spec fn is_bool_mismatch(e: EvalAltResult, found: Dynamic, pos: Position) -> bool {
    e matches EvalAltResult::ErrorMismatchDataType(want, got, p) && want@ == "bool"@ && got@ == spec_type_desc(found)
        && p == pos
}

/// The room in the scope that running a statement may need: one entry for each variable
/// declared, over all the blocks it runs through.
pub open spec fn stmt_room(s: Stmt) -> int
    decreases s, 1int,
{
    match s {
        Stmt::Var(..) => 1,
        Stmt::Block(b, _) => block_room(b@),
        Stmt::If(_, x, _) => block_room(x.0@) + block_room(x.1@),
        Stmt::While(_, b, _) => block_room(b@),
        _ => 0,
    }
}

/// The room in the scope that running a block of statements may need.
pub open spec fn block_room(b: Seq<Stmt>) -> int
    decreases b, 0int,
{
    if b.len() == 0 {
        0
    } else {
        1 + stmt_room(b[0]) + block_room(b.drop_first())
    }
}

/// The room needed by a block is at least that of each of its statements.
proof fn lemma_block_room(b: Seq<Stmt>)
    ensures
        block_room(b) >= 0,
        b.len() > 0 ==> block_room(b) == 1 + stmt_room(b[0]) + block_room(b.drop_first()),
    decreases b.len(),
{
    if b.len() > 0 {
        lemma_block_room(b.drop_first());
        lemma_stmt_room_nonneg(b[0]);
    }
}

/// Rooms are never negative.
proof fn lemma_stmt_room_nonneg(s: Stmt)
    ensures
        stmt_room(s) >= 0,
    decreases s,
{
    match s {
        Stmt::Block(b, _) => {
            lemma_blocks_nonneg(b@);
        },
        Stmt::If(_, x, _) => {
            lemma_blocks_nonneg(x.0@);
            lemma_blocks_nonneg(x.1@);
        },
        Stmt::While(_, b, _) => {
            lemma_blocks_nonneg(b@);
        },
        _ => {},
    }
}

/// Rooms of blocks are never negative.
proof fn lemma_blocks_nonneg(b: Seq<Stmt>)
    ensures
        block_room(b) >= 0,
    decreases b,
{
    if b.len() > 0 {
        assert(decreases_to!(b => b[0]));
        lemma_stmt_room_nonneg(b[0]);
        lemma_blocks_nonneg(b.drop_first());
    }
}

/// Count one operation (see [`inc_operations`]); a count that has reached the largest
/// number a `u64` holds is reported as too many operations.
fn count_operation<P: Fn(u64) -> Option<Dynamic>>(limits: &Limits, progress: Option<&P>, ops: &mut u64, pos: Position) -> (r: Result<(), Box<EvalAltResult>>)
    requires
        progress matches Some(f) ==> forall|n: u64| #[trigger] f.requires((n,)),
    ensures
        r is Ok ==> *final(ops) > *old(ops),
        r is Err ==> *final(ops) >= *old(ops) && is_limit_error(*r->Err_0),
{
    if *ops == u64::MAX {
        return Err(Box::new(EvalAltResult::ErrorTooManyOperations(pos)));
    }
    inc_operations(limits, progress, ops, pos)
}

/// Can every callback of the evaluator be called on any arguments?
pub open spec fn callbacks_ready<
    F: Fn(&str, &[Dynamic]) -> Result<Dynamic, Box<EvalAltResult>>,
    G: Fn(&Dynamic, &Dynamic) -> Result<Dynamic, Box<EvalAltResult>>,
    C: Fn(&Vec<Expr>) -> Result<Dynamic, Box<EvalAltResult>>,
    R: Fn(&str, usize) -> Result<Option<Dynamic>, Box<EvalAltResult>>,
    P: Fn(u64) -> Option<Dynamic>,
>(call_fn: &F, call_indexer: &G, custom: &C, resolve_var: Option<&R>, progress: Option<&P>) -> bool {
    &&& forall|n: &str, a: &[Dynamic]| #[trigger] call_fn.requires((n, a))
    &&& forall|a: &Dynamic, b: &Dynamic| #[trigger] call_indexer.requires((a, b))
    &&& forall|x: &Vec<Expr>| #[trigger] custom.requires((x,))
    &&& resolve_var matches Some(f) ==> forall|s: &str, i: usize| #[trigger] f.requires((s, i))
    &&& progress matches Some(f) ==> forall|n: u64| #[trigger] f.requires((n,))
}

/// A possible result of calling the function `name` on `count` arguments.
pub open spec fn call_result<F: Fn(&str, &[Dynamic]) -> Result<Dynamic, Box<EvalAltResult>>>(
    call_fn: &F,
    name: Seq<char>,
    count: int,
    r: Result<Dynamic, Box<EvalAltResult>>,
) -> bool {
    exists|n: &str, a: &[Dynamic]| n@ == name && a@.len() == count && #[trigger] call_fn.ensures((n, a), r)
}

/// Evaluate an expression.
///
/// Literals give their values; a variable is found in the scope by name (the last entry
/// of that name; `this` is the object of a method call), after asking `resolve_var`
/// (see [`search_scope_only`]), and one qualified by a module name is looked up in the
/// imported modules (which hold no variables); `&&` and `||` short-circuit and need
/// booleans; arrays, maps and interpolated strings are built from the values of their
/// parts; indexing goes through [`get_indexed_mut`], a `.` through
/// [`eval_dot_index_chain_helper`]; a function call evaluates its arguments in order and
/// calls `call_fn`; a custom syntax expression is handed to `custom`. Each expression
/// counts one operation, and a value over the size limits is refused.
pub fn eval_expr<F, G, C, R, P>(
    call_fn: &F,
    call_indexer: &G,
    custom: &C,
    resolve_var: Option<&R>,
    progress: Option<&P>,
    limits: &Limits,
    scope: &mut Scope,
    mods: &Imports,
    this_ptr: &Option<Dynamic>,
    ops: &mut u64,
    expr: &Expr,
) -> (r: Result<Dynamic, Box<EvalAltResult>>) where
    F: Fn(&str, &[Dynamic]) -> Result<Dynamic, Box<EvalAltResult>>,
    G: Fn(&Dynamic, &Dynamic) -> Result<Dynamic, Box<EvalAltResult>>,
    C: Fn(&Vec<Expr>) -> Result<Dynamic, Box<EvalAltResult>>,
    R: Fn(&str, usize) -> Result<Option<Dynamic>, Box<EvalAltResult>>,
    P: Fn(u64) -> Option<Dynamic>,

    requires
        callbacks_ready(call_fn, call_indexer, custom, resolve_var, progress),
        old(scope).wf(),
        mods.wf(),
    ensures
        final(scope).wf(),
        final(scope).spec_names() == old(scope).spec_names(),
        *final(ops) >= *old(ops),
        r is Ok ==> *final(ops) > *old(ops),
        literal_value(*expr) matches Some(u) ==> (r matches Ok(d) && d.value == u) || (r matches Err(e) && (
        is_limit_error(*e) || *e is ErrorDataTooLarge)),
        is_this_variable(*expr) ==> (this_ptr is None ==> (r matches Err(e) && (is_limit_error(*e)
            || *e is ErrorUnboundThis))),
        is_this_variable(*expr) ==> (this_ptr matches Some(v) ==> (r == Ok::<Dynamic, Box<EvalAltResult>>(*v) || (r matches Err(
            e,
        ) && (is_limit_error(*e) || *e is ErrorDataTooLarge)))),
        *expr matches Expr::Variable(_, _, v) ==> (!is_this_variable(*expr) && v.namespace is None && resolve_var is None
            ==> (scope_slot(old(scope).spec_names(), *expr, true) is None ==> r is Err)),
        *expr matches Expr::Variable(_, _, v) ==> (!is_this_variable(*expr) && v.namespace is None && resolve_var is None
            ==> (scope_slot(old(scope).spec_names(), *expr, true) matches Some(i) ==> (r is Ok ==> r == Ok::<
            Dynamic,
            Box<EvalAltResult>,
        >(old(scope).spec_values()[i])))),
        *expr matches Expr::Variable(_, _, v) ==> (!is_this_variable(*expr) && v.namespace is Some ==> r is Err),
        *expr matches Expr::FnCall(x, _) ==> (r is Ok ==> call_result(call_fn, x.0@, x.1@.len() as int, r)),
        *expr matches Expr::And(x, _) ==> (literal_value(x.0) matches Some(u) && !(u is Bool) && !(u is Shared) ==> r is Err),
        *expr matches Expr::Array(items, _) ==> (r matches Ok(d) ==> (d.value matches Union::Array(a) && (*a)@.len()
            == items@.len())),
        *expr matches Expr::Array(items, _) ==> (all_literal(items@) ==> r is Ok || (r matches Err(e) && is_budget_error(*e))),
        *expr matches Expr::MapLiteral(items, _) ==> (r matches Ok(d) ==> d.value is Object),
        *expr matches Expr::InterpolatedString(parts, _) ==> (r matches Ok(d) ==> d.value is Str),
        *expr matches Expr::InterpolatedString(parts, _) ==> (all_literal(parts@) ==> r is Ok || (r matches Err(e)
            && is_budget_error(*e))),
        *expr matches Expr::Or(x, _) ==> (literal_value(x.0) matches Some(u) && !(u is Bool) && !(u is Shared) ==> r is Err),
    decreases expr,
{
    let pos = expr.position();
    match count_operation(limits, progress, ops, pos) {
        Ok(()) => {},
        Err(e) => {
            return Err(e);
        },
    }
    let result: Result<Dynamic, Box<EvalAltResult>> = match expr {
        Expr::DynamicConstant(d, _) => Ok((**d).clone()),
        Expr::BoolConstant(b, _) => Ok(Dynamic::from_bool(*b)),
        Expr::IntegerConstant(i, _) => Ok(Dynamic::from_int(*i)),
        Expr::CharConstant(c, _) => Ok(Dynamic::from_char(*c)),
        Expr::StringConstant(s, _) => Ok(Dynamic::from_string(s.clone())),
        Expr::Unit(_) => Ok(Dynamic::unit()),
        Expr::Stmt(_) => Ok(Dynamic::unit()),
        Expr::Property(x) => Err(Box::new(EvalAltResult::ErrorDotExpr(String::new(), x.2.1))),
        Expr::Variable(_, var_pos, v) => {
            if is_this(expr) {
                match this_ptr {
                    Some(t) => Ok(t.clone()),
                    None => Err(Box::new(EvalAltResult::ErrorUnboundThis(*var_pos))),
                }
            } else {
                match &v.namespace {
                    Some((names, _)) => {
                        let root = if names.len() > 0 {
                            names[0].as_str()
                        } else {
                            ""
                        };
                        match mods.find(root) {
                            Some(_) => Err(Box::new(EvalAltResult::ErrorVariableNotFound(v.name.clone(), *var_pos))),
                            None => Err(Box::new(EvalAltResult::ErrorModuleNotFound(String::from_str(root), *var_pos))),
                        }
                    },
                    None => {
                        proof {
                            crate::scope::lemma_last_index_of_range(scope.spec_names(), v.name@);
                        }
                        match search_scope_only(resolve_var, true, scope, None, expr) {
                        Ok((target, _)) => Ok(target.take_or_clone()),
                        Err(e) => Err(e),
                        }
                    },
                }
            }
        },
        Expr::And(x, _) => {
            match eval_expr(call_fn, call_indexer, custom, resolve_var, progress, limits, scope, mods, this_ptr, ops, &x.0) {
                Ok(l) => match l.as_bool() {
                    Ok(false) => Ok(Dynamic::from_bool(false)),
                    Ok(true) => match eval_expr(
                        call_fn,
                        call_indexer,
                        custom,
                        resolve_var,
                        progress,
                        limits,
                        scope,
                        mods,
                        this_ptr,
                        ops,
                        &x.1,
                    ) {
                        Ok(rv) => match rv.as_bool() {
                            Ok(b) => Ok(Dynamic::from_bool(b)),
                            Err(typ) => Err(bool_mismatch(typ, x.1.position())),
                        },
                        Err(e) => Err(e),
                    },
                    Err(typ) => Err(bool_mismatch(typ, x.0.position())),
                },
                Err(e) => Err(e),
            }
        },
        Expr::Or(x, _) => {
            match eval_expr(call_fn, call_indexer, custom, resolve_var, progress, limits, scope, mods, this_ptr, ops, &x.0) {
                Ok(l) => match l.as_bool() {
                    Ok(true) => Ok(Dynamic::from_bool(true)),
                    Ok(false) => match eval_expr(
                        call_fn,
                        call_indexer,
                        custom,
                        resolve_var,
                        progress,
                        limits,
                        scope,
                        mods,
                        this_ptr,
                        ops,
                        &x.1,
                    ) {
                        Ok(rv) => match rv.as_bool() {
                            Ok(b) => Ok(Dynamic::from_bool(b)),
                            Err(typ) => Err(bool_mismatch(typ, x.1.position())),
                        },
                        Err(e) => Err(e),
                    },
                    Err(typ) => Err(bool_mismatch(typ, x.0.position())),
                },
                Err(e) => Err(e),
            }
        },
        Expr::Array(items, _) => {
            proof {
                assert forall|j: int| 0 <= j < items@.len() implies decreases_to!(*expr => #[trigger] items@[j]) by {
                    assert(decreases_to!(*expr => *items));
                    assert(decreases_to!(*items => items@));
                    assert(decreases_to!(items@ => items@[j]));
                }
            }
            let mut values: Vec<Dynamic> = Vec::new();
            let mut i: usize = 0;
            let mut failed: Option<Box<EvalAltResult>> = None;
            while i < items.len() && failed.is_none()
                invariant
                    i <= items@.len(),
                    failed is None ==> values@.len() == i,
                    all_literal(items@) ==> (failed matches Some(e) ==> is_budget_error(*e)),
                    callbacks_ready(call_fn, call_indexer, custom, resolve_var, progress),
                    scope.wf(),
                    mods.wf(),
                    scope.spec_names() == old(scope).spec_names(),
                    *ops > *old(ops),
                    forall|j: int| 0 <= j < items@.len() ==> decreases_to!(*expr => #[trigger] items@[j]),
                decreases items@.len() - i,
            {
                match eval_expr(call_fn, call_indexer, custom, resolve_var, progress, limits, scope, mods, this_ptr, ops, &items[i]) {
                    Ok(v) => {
                        values.push(v.flatten_clone());
                    },
                    Err(e) => {
                        failed = Some(e);
                    },
                }
                i = i + 1;
            }
            match failed {
                Some(e) => Err(e),
                None => Ok(Dynamic::from_array(values)),
            }
        },
        Expr::MapLiteral(items, _) => {
            proof {
                assert forall|j: int| 0 <= j < items@.len() implies decreases_to!(*expr => #[trigger] items@[j].1) by {
                    assert(decreases_to!(*expr => *items));
                    assert(decreases_to!(*items => items@));
                    assert(decreases_to!(items@ => items@[j]));
                    assert(decreases_to!(items@[j] => items@[j].1));
                }
            }
            let mut map = ObjectMap::new();
            let mut i: usize = 0;
            let mut failed: Option<Box<EvalAltResult>> = None;
            while i < items.len() && failed.is_none()
                invariant
                    i <= items@.len(),
                    map.wf(),
                    callbacks_ready(call_fn, call_indexer, custom, resolve_var, progress),
                    scope.wf(),
                    mods.wf(),
                    scope.spec_names() == old(scope).spec_names(),
                    *ops > *old(ops),
                    forall|j: int| 0 <= j < items@.len() ==> decreases_to!(*expr => #[trigger] items@[j].1),
                decreases items@.len() - i,
            {
                match eval_expr(call_fn, call_indexer, custom, resolve_var, progress, limits, scope, mods, this_ptr, ops, &items[i].1) {
                    Ok(v) => {
                        map.insert(items[i].0.clone(), v.flatten_clone());
                    },
                    Err(e) => {
                        failed = Some(e);
                    },
                }
                i = i + 1;
            }
            match failed {
                Some(e) => Err(e),
                None => Ok(Dynamic::from_map(map)),
            }
        },
        Expr::InterpolatedString(parts, _) => {
            proof {
                assert forall|j: int| 0 <= j < parts@.len() implies decreases_to!(*expr => #[trigger] parts@[j]) by {
                    assert(decreases_to!(*expr => *parts));
                    assert(decreases_to!(*parts => parts@));
                    assert(decreases_to!(parts@ => parts@[j]));
                }
            }
            let mut text = ImmutableString::new();
            let mut i: usize = 0;
            let mut failed: Option<Box<EvalAltResult>> = None;
            while i < parts.len() && failed.is_none()
                invariant
                    i <= parts@.len(),
                    all_literal(parts@) ==> (failed matches Some(e) ==> is_budget_error(*e)),
                    callbacks_ready(call_fn, call_indexer, custom, resolve_var, progress),
                    scope.wf(),
                    mods.wf(),
                    scope.spec_names() == old(scope).spec_names(),
                    *ops > *old(ops),
                    forall|j: int| 0 <= j < parts@.len() ==> decreases_to!(*expr => #[trigger] parts@[j]),
                decreases parts@.len() - i,
            {
                match eval_expr(call_fn, call_indexer, custom, resolve_var, progress, limits, scope, mods, this_ptr, ops, &parts[i]) {
                    Ok(v) => {
                        let piece = ImmutableString::from_string(v.to_text());
                        text = text.concat(&piece);
                        let current = Dynamic::from_string(text.clone());
                        match check_data_size(limits, &current) {
                            Ok(()) => {},
                            Err(e) => {
                                failed = Some(e.fill_position(parts[i].position()));
                            },
                        }
                    },
                    Err(e) => {
                        failed = Some(e);
                    },
                }
                i = i + 1;
            }
            match failed {
                Some(e) => Err(e),
                None => Ok(Dynamic::from_string(text)),
            }
        },
        Expr::FnCall(x, _) => {
            proof {
                assert forall|j: int| 0 <= j < x.1@.len() implies decreases_to!(*expr => #[trigger] x.1@[j]) by {
                    assert(decreases_to!(*expr => *x));
                    assert(decreases_to!(*x => x.1));
                    assert(decreases_to!(x.1 => x.1@));
                    assert(decreases_to!(x.1@ => x.1@[j]));
                }
            }
            match eval_args(call_fn, call_indexer, custom, resolve_var, progress, limits, scope, mods, this_ptr, ops, &x.1, Ghost(*expr), Vec::new()) {
                Ok(args) => {
                    let n = x.0.as_str();
                    let a = args.as_slice();
                    let c = call_fn(n, a);
                    assert(call_fn.ensures((n, a), c));
                    assert(call_result(call_fn, x.0@, x.1@.len() as int, c));
                    c
                },
                Err(e) => Err(e),
            }
        },
        Expr::Index(x, _) => {
            match eval_expr(call_fn, call_indexer, custom, resolve_var, progress, limits, scope, mods, this_ptr, ops, &x.0) {
                Ok(target) => match eval_expr(call_fn, call_indexer, custom, resolve_var, progress, limits, scope, mods, this_ptr, ops, &x.1) {
                    Ok(idx) => index_value(call_indexer, target.flatten_clone(), idx, x.1.position()),
                    Err(e) => Err(e),
                },
                Err(e) => Err(e),
            }
        },
        Expr::Dot(x, _) => {
            match eval_expr(call_fn, call_indexer, custom, resolve_var, progress, limits, scope, mods, this_ptr, ops, &x.0) {
                Ok(target) => eval_dot_index_chain_helper(
                    call_fn,
                    call_indexer,
                    custom,
                    resolve_var,
                    progress,
                    limits,
                    scope,
                    mods,
                    this_ptr,
                    ops,
                    target.flatten_clone(),
                    &x.1,
                ),
                Err(e) => Err(e),
            }
        },
        Expr::Custom(inputs, _) => custom(inputs),
    };
    match result {
        Ok(v) => check_return_value(limits, Ok(v)),
        Err(e) => Err(e),
    }
}

/// Is the expression the variable `this` (see [`is_this_variable`])?
fn is_this(expr: &Expr) -> (r: bool)
    ensures
        r == is_this_variable(*expr),
{
    match expr {
        Expr::Variable(None, _, v) => v.index.is_none() && crate::text::str_eq(v.name.as_str(), "this"),
        _ => false,
    }
}

/// The error for a value of the wrong type where a boolean is needed.
fn bool_mismatch(typ: &str, pos: Position) -> (r: Box<EvalAltResult>)
    ensures
        *r matches EvalAltResult::ErrorMismatchDataType(want, got, p) && want@ == "bool"@ && got@ == typ@ && p == pos,
{
    Box::new(EvalAltResult::ErrorMismatchDataType(String::from_str("bool"), String::from_str(typ), pos))
}

/// Evaluate the arguments of a call in order, after the values already in `first`.
fn eval_args<F, G, C, R, P>(
    call_fn: &F,
    call_indexer: &G,
    custom: &C,
    resolve_var: Option<&R>,
    progress: Option<&P>,
    limits: &Limits,
    scope: &mut Scope,
    mods: &Imports,
    this_ptr: &Option<Dynamic>,
    ops: &mut u64,
    args: &Vec<Expr>,
    Ghost(parent): Ghost<Expr>,
    first: Vec<Dynamic>,
) -> (r: Result<Vec<Dynamic>, Box<EvalAltResult>>) where
    F: Fn(&str, &[Dynamic]) -> Result<Dynamic, Box<EvalAltResult>>,
    G: Fn(&Dynamic, &Dynamic) -> Result<Dynamic, Box<EvalAltResult>>,
    C: Fn(&Vec<Expr>) -> Result<Dynamic, Box<EvalAltResult>>,
    R: Fn(&str, usize) -> Result<Option<Dynamic>, Box<EvalAltResult>>,
    P: Fn(u64) -> Option<Dynamic>,

    requires
        callbacks_ready(call_fn, call_indexer, custom, resolve_var, progress),
        old(scope).wf(),
        mods.wf(),
        forall|j: int| 0 <= j < args@.len() ==> decreases_to!(parent => #[trigger] args@[j]),
    ensures
        final(scope).wf(),
        final(scope).spec_names() == old(scope).spec_names(),
        *final(ops) >= *old(ops),
        r matches Ok(v) ==> v@.len() == first@.len() + args@.len(),
    decreases parent, 0int,
{
    let mut values = first;
    let mut i: usize = 0;
    while i < args.len()
        invariant
            i <= args@.len(),
            values@.len() == first@.len() + i,
            callbacks_ready(call_fn, call_indexer, custom, resolve_var, progress),
            scope.wf(),
            mods.wf(),
            scope.spec_names() == old(scope).spec_names(),
            *ops >= *old(ops),
            forall|j: int| 0 <= j < args@.len() ==> decreases_to!(parent => #[trigger] args@[j]),
        decreases args@.len() - i,
    {
        match eval_expr(call_fn, call_indexer, custom, resolve_var, progress, limits, scope, mods, this_ptr, ops, &args[i]) {
            Ok(v) => {
                values.push(v.flatten_clone());
            },
            Err(e) => {
                return Err(e);
            },
        }
        i = i + 1;
    }
    Ok(values)
}

/// Index a value and give the value reached: a map by a property name (its entry, or
/// `()`), anything else through [`get_indexed_mut`].
fn index_value<G: Fn(&Dynamic, &Dynamic) -> Result<Dynamic, Box<EvalAltResult>>>(
    call_indexer: &G,
    target: Dynamic,
    idx: Dynamic,
    idx_pos: Position,
) -> (r: Result<Dynamic, Box<EvalAltResult>>)
    requires
        forall|a: &Dynamic, b: &Dynamic| #[trigger] call_indexer.requires((a, b)),
{
    let target = target.flatten_clone();
    match &target.value {
        Union::Object(m) => {
            let key = idx.flatten_clone();
            return match &key.value {
                Union::Str(k) => match m.find_value(k.as_str()) {
                    Some(v) => Ok(v.clone()),
                    None => Ok(Dynamic::unit()),
                },
                _ => Err(Box::new(EvalAltResult::ErrorMismatchDataType(
                    String::from_str("string"),
                    String::from_str(idx.type_desc()),
                    idx_pos,
                ))),
            };
        },
        _ => {},
    }
    let mut target = target;
    match get_indexed_mut(call_indexer, &mut target, idx, idx_pos, false, true) {
        Ok(t) => Ok(t.take_or_clone()),
        Err(e) => Err(e),
    }
}

/// Read the right side of a `.` from a value: a property (of a map, its entry or `()`;
/// of any other value, what its getter gives), a method call (the value first, then the
/// arguments), or a property or method followed by more of the chain (`.` or `[]`).
pub fn eval_dot_index_chain_helper<F, G, C, R, P>(
    call_fn: &F,
    call_indexer: &G,
    custom: &C,
    resolve_var: Option<&R>,
    progress: Option<&P>,
    limits: &Limits,
    scope: &mut Scope,
    mods: &Imports,
    this_ptr: &Option<Dynamic>,
    ops: &mut u64,
    target: Dynamic,
    rhs: &Expr,
) -> (r: Result<Dynamic, Box<EvalAltResult>>) where
    F: Fn(&str, &[Dynamic]) -> Result<Dynamic, Box<EvalAltResult>>,
    G: Fn(&Dynamic, &Dynamic) -> Result<Dynamic, Box<EvalAltResult>>,
    C: Fn(&Vec<Expr>) -> Result<Dynamic, Box<EvalAltResult>>,
    R: Fn(&str, usize) -> Result<Option<Dynamic>, Box<EvalAltResult>>,
    P: Fn(u64) -> Option<Dynamic>,

    requires
        callbacks_ready(call_fn, call_indexer, custom, resolve_var, progress),
        old(scope).wf(),
        mods.wf(),
    ensures
        final(scope).wf(),
        final(scope).spec_names() == old(scope).spec_names(),
        *final(ops) >= *old(ops),
        rhs matches Expr::Property(p) ==> (spec_flatten(target).value is Object ==> r is Ok),
        chain_read(target, *rhs) matches Some(v) ==> r == Ok::<Dynamic, Box<EvalAltResult>>(v),
        rhs matches Expr::Property(p) ==> (!(spec_flatten(target).value is Object) ==> (r is Ok ==> call_result(call_fn, p.0.0@, 1, r))),
        rhs matches Expr::FnCall(x, _) ==> (r is Ok ==> call_result(call_fn, x.0@, x.1@.len() + 1int, r)),
    decreases rhs,
{
    match rhs {
        Expr::Property(p) => {
            let flat = target.flatten_clone();
            let is_map = match &flat.value {
                Union::Object(_) => true,
                _ => false,
            };
            if is_map {
                match &flat.value {
                    Union::Object(m) => match m.find_value(p.2.0.as_str()) {
                        Some(v) => Ok(v.clone()),
                        None => Ok(Dynamic::unit()),
                    },
                    _ => Ok(Dynamic::unit()),
                }
            } else {
                let mut args: Vec<Dynamic> = Vec::new();
                args.push(target);
                let n = p.0.0.as_str();
                let a = args.as_slice();
                let c = call_fn(n, a);
                assert(call_fn.ensures((n, a), c));
                assert(call_result(call_fn, p.0.0@, 1, c));
                c
            }
        },
        Expr::FnCall(x, _) => {
            proof {
                assert forall|j: int| 0 <= j < x.1@.len() implies decreases_to!(*rhs => #[trigger] x.1@[j]) by {
                    assert(decreases_to!(*rhs => *x));
                    assert(decreases_to!(*x => x.1));
                    assert(decreases_to!(x.1 => x.1@));
                    assert(decreases_to!(x.1@ => x.1@[j]));
                }
            }
            let mut first: Vec<Dynamic> = Vec::new();
            first.push(target);
            match eval_args(call_fn, call_indexer, custom, resolve_var, progress, limits, scope, mods, this_ptr, ops, &x.1, Ghost(*rhs), first) {
                Ok(args) => {
                    let n = x.0.as_str();
                    let a = args.as_slice();
                    let c = call_fn(n, a);
                    assert(call_fn.ensures((n, a), c));
                    assert(call_result(call_fn, x.0@, x.1@.len() + 1int, c));
                    c
                },
                Err(e) => Err(e),
            }
        },
        Expr::Dot(x, _) => {
            match eval_dot_index_chain_helper(call_fn, call_indexer, custom, resolve_var, progress, limits, scope, mods, this_ptr, ops, target, &x.0) {
                Ok(v) => {
                    proof {
                        lemma_chain_read_flat(v, x.1);
                    }
                    eval_dot_index_chain_helper(call_fn, call_indexer, custom, resolve_var, progress, limits, scope, mods, this_ptr, ops, v.flatten_clone(), &x.1)
                },
                Err(e) => Err(e),
            }
        },
        Expr::Index(x, _) => {
            match eval_dot_index_chain_helper(call_fn, call_indexer, custom, resolve_var, progress, limits, scope, mods, this_ptr, ops, target, &x.0) {
                Ok(v) => match eval_expr(call_fn, call_indexer, custom, resolve_var, progress, limits, scope, mods, this_ptr, ops, &x.1) {
                    Ok(idx) => index_value(call_indexer, v.flatten_clone(), idx, x.1.position()),
                    Err(e) => Err(e),
                },
                Err(e) => Err(e),
            }
        },
        _ => Err(Box::new(EvalAltResult::ErrorDotExpr(String::new(), rhs.position()))),
    }
}

/// Evaluate a statement.
///
/// A no-op gives `()`; an expression gives its value; `let` and `const` evaluate the value
/// and add it to the scope (a constant read-only); a block runs its statements in order
/// and then forgets the variables and imports it added; `if` and `while` need a boolean
/// condition (`while` ends on `false` or `break`, and goes on after `continue`);
/// `return` and `break` give their pseudo-errors. Each statement counts one operation.
pub fn eval_stmt<F, G, C, R, P>(
    call_fn: &F,
    call_indexer: &G,
    custom: &C,
    resolve_var: Option<&R>,
    progress: Option<&P>,
    limits: &Limits,
    scope: &mut Scope,
    mods: &mut Imports,
    this_ptr: &Option<Dynamic>,
    ops: &mut u64,
    stmt: &Stmt,
) -> (r: Result<Dynamic, Box<EvalAltResult>>) where
    F: Fn(&str, &[Dynamic]) -> Result<Dynamic, Box<EvalAltResult>>,
    G: Fn(&Dynamic, &Dynamic) -> Result<Dynamic, Box<EvalAltResult>>,
    C: Fn(&Vec<Expr>) -> Result<Dynamic, Box<EvalAltResult>>,
    R: Fn(&str, usize) -> Result<Option<Dynamic>, Box<EvalAltResult>>,
    P: Fn(u64) -> Option<Dynamic>,

    requires
        callbacks_ready(call_fn, call_indexer, custom, resolve_var, progress),
        old(scope).wf(),
        old(mods).wf(),
        old(scope).spec_names().len() + stmt_room(*stmt) <= 0x8000_0000_0000_0000,
    ensures
        final(scope).wf(),
        final(mods).wf(),
        final(mods).names() == old(mods).names(),
        *final(ops) >= *old(ops),
        !(*stmt is Var) ==> final(scope).spec_names() == old(scope).spec_names(),
        *stmt matches Stmt::Var(_, name, c, _) ==> (r is Ok ==> r == Ok::<Dynamic, Box<EvalAltResult>>(Dynamic::spec_of(
            Union::Unit,
        )) && final(scope).spec_names() == old(scope).spec_names().push(name) && final(scope).spec_values().last().access
            == (if c {
            AccessMode::ReadOnly
        } else {
            AccessMode::ReadWrite
        })),
        *stmt is Var ==> (r is Err ==> final(scope).spec_names() == old(scope).spec_names()),
        stmt_literal_value(*stmt) matches Some(u) ==> (r matches Ok(d) ==> d.value == u),
        *stmt matches Stmt::Block(b, _) ==> (b@.len() > 0 ==> (r matches Ok(v) ==> (stmt_literal_value(b@.last()) matches Some(
            u,
        ) ==> v.value == u))),
        *stmt matches Stmt::Var(e, _, _, _) ==> (literal_value(e) is Some ==> r is Ok || (r matches Err(err) && is_budget_error(
            *err,
        ))),
        *stmt matches Stmt::If(c, x, _) ==> (literal_value(c) == Some(Union::Bool(true)) && x.0@.len() == 0 ==> r == Ok::<
            Dynamic,
            Box<EvalAltResult>,
        >(Dynamic::spec_of(Union::Unit)) || (r matches Err(err) && is_budget_error(*err))),
        *stmt matches Stmt::If(c, x, _) ==> (literal_value(c) == Some(Union::Bool(false)) && x.1@.len() == 0 ==> r == Ok::<
            Dynamic,
            Box<EvalAltResult>,
        >(Dynamic::spec_of(Union::Unit)) || (r matches Err(err) && is_budget_error(*err))),
        *stmt is Noop ==> r == Ok::<Dynamic, Box<EvalAltResult>>(Dynamic::spec_of(Union::Unit)) || (r matches Err(e)
            && is_limit_error(*e)),
        *stmt matches Stmt::Break(p) ==> (r matches Err(e) && (*e == EvalAltResult::LoopBreak(true, p) || is_limit_error(*e))),
        *stmt matches Stmt::Return(v, p) ==> (r matches Err(e) && (*e matches EvalAltResult::Return(_, q) && q == p
            || is_limit_error(*e) || *e is ErrorDataTooLarge || v is Some)),
        *stmt matches Stmt::If(c, _, _) ==> (literal_value(c) matches Some(u) && !(u is Bool) && !(u is Shared) ==> r is Err),
        *stmt matches Stmt::While(c, _, _) ==> (literal_value(c) matches Some(u) && !(u is Bool) && !(u is Shared) ==> r is Err),
        *stmt matches Stmt::While(c, _, _) ==> (literal_value(c) == Some(Union::Bool(false)) ==> r == Ok::<
            Dynamic,
            Box<EvalAltResult>,
        >(Dynamic::spec_of(Union::Unit)) || (r matches Err(e) && (is_limit_error(*e) || *e is ErrorDataTooLarge))),
    decreases stmt, 1int,
{
    let pos = stmt.position();
    match count_operation(limits, progress, ops, pos) {
        Ok(()) => {},
        Err(e) => {
            return Err(e);
        },
    }
    match stmt {
        Stmt::Noop(_) => Ok(Dynamic::unit()),
        Stmt::Break(p) => Err(Box::new(EvalAltResult::LoopBreak(true, *p))),
        Stmt::Return(v, p) => match v {
            Some(e) => match eval_expr(call_fn, call_indexer, custom, resolve_var, progress, limits, scope, mods, this_ptr, ops, e) {
                Ok(value) => Err(Box::new(EvalAltResult::Return(value.flatten_clone(), *p))),
                Err(err) => Err(err),
            },
            None => Err(Box::new(EvalAltResult::Return(Dynamic::unit(), *p))),
        },
        Stmt::Expr(e) => match eval_expr(call_fn, call_indexer, custom, resolve_var, progress, limits, scope, mods, this_ptr, ops, e) {
            Ok(value) => Ok(value.flatten_clone()),
            Err(err) => Err(err),
        },
        Stmt::Var(e, name, is_const, _) => {
            match eval_expr(call_fn, call_indexer, custom, resolve_var, progress, limits, scope, mods, this_ptr, ops, e) {
                Ok(value) => {
                    let access = if *is_const {
                        AccessMode::ReadOnly
                    } else {
                        AccessMode::ReadWrite
                    };
                    scope.push_dynamic_value(name.clone(), access, value.flatten_clone());
                    Ok(Dynamic::unit())
                },
                Err(err) => Err(err),
            }
        },
        Stmt::Block(b, _) => {
            proof {
                assert forall|j: int| 0 <= j < b@.len() implies decreases_to!(*stmt => #[trigger] b@[j]) by {
                    assert(decreases_to!(*stmt => *b));
                    assert(decreases_to!(*b => b@));
                    assert(decreases_to!(b@ => b@[j]));
                }
            }
            eval_stmt_block(call_fn, call_indexer, custom, resolve_var, progress, limits, scope, mods, this_ptr, ops, b, Ghost(*stmt))
        },
        Stmt::If(c, x, _) => {
            proof {
                lemma_blocks_nonneg(x.0@);
                lemma_blocks_nonneg(x.1@);
                assert forall|j: int| 0 <= j < x.0@.len() implies decreases_to!(*stmt => #[trigger] x.0@[j]) by {
                    assert(decreases_to!(*stmt => *x));
                    assert(decreases_to!(*x => x.0));
                    assert(decreases_to!(x.0 => x.0@));
                    assert(decreases_to!(x.0@ => x.0@[j]));
                }
                assert forall|j: int| 0 <= j < x.1@.len() implies decreases_to!(*stmt => #[trigger] x.1@[j]) by {
                    assert(decreases_to!(*stmt => *x));
                    assert(decreases_to!(*x => x.1));
                    assert(decreases_to!(x.1 => x.1@));
                    assert(decreases_to!(x.1@ => x.1@[j]));
                }
            }
            match eval_expr(call_fn, call_indexer, custom, resolve_var, progress, limits, scope, mods, this_ptr, ops, c) {
                Ok(guard) => match guard.as_bool() {
                    Ok(true) => eval_stmt_block(call_fn, call_indexer, custom, resolve_var, progress, limits, scope, mods, this_ptr, ops, &x.0, Ghost(*stmt)),
                    Ok(false) => eval_stmt_block(call_fn, call_indexer, custom, resolve_var, progress, limits, scope, mods, this_ptr, ops, &x.1, Ghost(*stmt)),
                    Err(typ) => Err(bool_mismatch(typ, c.position())),
                },
                Err(err) => Err(err),
            }
        },
        Stmt::While(c, body, _) => {
            proof {
                lemma_blocks_nonneg(body@);
                assert forall|j: int| 0 <= j < body@.len() implies decreases_to!(*stmt => #[trigger] body@[j]) by {
                    assert(decreases_to!(*stmt => *body));
                    assert(decreases_to!(*body => body@));
                    assert(decreases_to!(body@ => body@[j]));
                }
            }
            let ghost names0 = scope.spec_names();
            loop
                invariant
                    callbacks_ready(call_fn, call_indexer, custom, resolve_var, progress),
                    scope.wf(),
                    mods.wf(),
                    mods.names() == old(mods).names(),
                    scope.spec_names() == names0,
                    names0 == old(scope).spec_names(),
                    *stmt matches Stmt::While(c2, b2, _) && c2 == *c && b2 == *body,
                    scope.spec_names().len() + block_room(body@) <= 0x8000_0000_0000_0000,
                    *ops >= *old(ops),
                    forall|j: int| 0 <= j < body@.len() ==> decreases_to!(*stmt => #[trigger] body@[j]),
                decreases u64::MAX - *ops,
            {
                let ghost before = *ops;
                let guard = match eval_expr(call_fn, call_indexer, custom, resolve_var, progress, limits, scope, mods, this_ptr, ops, c) {
                    Ok(g) => g,
                    Err(err) => {
                        return Err(err);
                    },
                };
                match guard.as_bool() {
                    Ok(true) => {},
                    Ok(false) => {
                        return Ok(Dynamic::unit());
                    },
                    Err(typ) => {
                        return Err(bool_mismatch(typ, c.position()));
                    },
                }
                match eval_stmt_block(call_fn, call_indexer, custom, resolve_var, progress, limits, scope, mods, this_ptr, ops, body, Ghost(*stmt)) {
                    Ok(_) => {},
                    Err(err) => {
                        let go_on = match *err {
                            EvalAltResult::LoopBreak(false, _) => 1u8,
                            EvalAltResult::LoopBreak(true, _) => 2u8,
                            _ => 0u8,
                        };
                        if go_on == 2 {
                            return Ok(Dynamic::unit());
                        } else if go_on == 0 {
                            return Err(err);
                        }
                    },
                }
                assert(*ops > before);
            }
        },
    }
}

/// Run a block of statements in order, giving the value of the last one (`()` for an
/// empty block) or the first error; afterwards the scope and the imports are cut back to
/// what they were.
fn eval_stmt_block<F, G, C, R, P>(
    call_fn: &F,
    call_indexer: &G,
    custom: &C,
    resolve_var: Option<&R>,
    progress: Option<&P>,
    limits: &Limits,
    scope: &mut Scope,
    mods: &mut Imports,
    this_ptr: &Option<Dynamic>,
    ops: &mut u64,
    statements: &Vec<Stmt>,
    Ghost(parent): Ghost<Stmt>,
) -> (r: Result<Dynamic, Box<EvalAltResult>>) where
    F: Fn(&str, &[Dynamic]) -> Result<Dynamic, Box<EvalAltResult>>,
    G: Fn(&Dynamic, &Dynamic) -> Result<Dynamic, Box<EvalAltResult>>,
    C: Fn(&Vec<Expr>) -> Result<Dynamic, Box<EvalAltResult>>,
    R: Fn(&str, usize) -> Result<Option<Dynamic>, Box<EvalAltResult>>,
    P: Fn(u64) -> Option<Dynamic>,

    requires
        callbacks_ready(call_fn, call_indexer, custom, resolve_var, progress),
        old(scope).wf(),
        old(mods).wf(),
        old(scope).spec_names().len() + block_room(statements@) <= 0x8000_0000_0000_0000,
        forall|j: int| 0 <= j < statements@.len() ==> decreases_to!(parent => #[trigger] statements@[j]),
    ensures
        final(scope).wf(),
        final(mods).wf(),
        final(mods).names() == old(mods).names(),
        final(scope).spec_names() == old(scope).spec_names(),
        *final(ops) >= *old(ops),
        statements@.len() == 0 ==> r == Ok::<Dynamic, Box<EvalAltResult>>(Dynamic::spec_of(Union::Unit)),
        statements@.len() > 0 ==> (r matches Ok(v) ==> (stmt_literal_value(statements@.last()) matches Some(u) ==> v.value
            == u)),
    decreases parent, 0int,
{
    let prev_len = scope.len();
    let prev_mods = mods.len();
    let ghost names0 = scope.spec_names();
    let mut last = Dynamic::unit();
    let mut i: usize = 0;
    assert(statements@.skip(0) =~= statements@);
    while i < statements.len()
        invariant
            i <= statements@.len(),
            callbacks_ready(call_fn, call_indexer, custom, resolve_var, progress),
            scope.wf(),
            mods.wf(),
            mods.names() == old(mods).names(),
            prev_mods == old(mods).names().len(),
            names0 == old(scope).spec_names(),
            prev_len == names0.len(),
            scope.spec_names().len() >= prev_len,
            scope.spec_names().take(prev_len as int) == names0,
            scope.spec_names().len() + block_room(statements@.skip(i as int)) <= 0x8000_0000_0000_0000,
            *ops >= *old(ops),
            statements@.len() == 0 ==> last == Dynamic::spec_of(Union::Unit),
            i > 0 ==> (stmt_literal_value(statements@[i - 1]) matches Some(u) ==> last.value == u),
            forall|j: int| 0 <= j < statements@.len() ==> decreases_to!(parent => #[trigger] statements@[j]),
        decreases statements@.len() - i,
    {
        let ghost rest = statements@.skip(i as int);
        proof {
            lemma_block_room(rest);
            assert(rest[0] == statements@[i as int]);
            assert(rest.drop_first() =~= statements@.skip(i + 1));
            lemma_stmt_room_nonneg(rest[0]);
            lemma_blocks_nonneg(rest.drop_first());
        }
        let ghost names_before = scope.spec_names();
        match eval_stmt(call_fn, call_indexer, custom, resolve_var, progress, limits, scope, mods, this_ptr, ops, &statements[i]) {
            Ok(v) => {
                last = v;
            },
            Err(e) => {
                scope.rewind(prev_len);
                mods.truncate(prev_mods);
                assert(scope.spec_names() =~= names0);
                return Err(e);
            },
        }
        assert(scope.spec_names().take(prev_len as int) =~= names0) by {
            if scope.spec_names() != names_before {
                assert(scope.spec_names().take(prev_len as int) =~= names_before.take(prev_len as int));
            }
        }
        i = i + 1;
    }
    scope.rewind(prev_len);
    mods.truncate(prev_mods);
    assert(scope.spec_names() =~= names0);
    Ok(last)
}

} // verus!
