//! Optimization settings of scripts.
use vstd::prelude::*;
use crate::ast::{spec_stmt_position, stmt_returns_value, expr_has_literal, expr_is_constant, literal_matches, spec_expr_position, stmt_breaks_flow, stmt_is_internally_pure, stmt_is_pure, Stmt, expr_from_dynamic, expr_is_literal, expr_is_pure, literal_dynamic, with_position, Expr};
use crate::error::EvalAltResult;
use crate::fn_builtin::{builtin_binary_op, builtin_binary_result, call_builtin_binary_op, get_builtin_binary_op_fn, law_builtin_binary_op_fits, BuiltinOp};
use crate::dynamic::{spec_flatten, spec_type_desc, AccessMode, Dynamic, Union};
use crate::scope::Scope;
use crate::engine::array_slot;
use crate::immutable_string::ImmutableString;
use crate::packages::logic::{bit_of, bit_position, get_bit};
use crate::position::Position;
use crate::text::{str_chars, str_eq};
use crate::INT;

verus! {

/// Level of optimization performed on a script.
#[derive(Debug, Clone, Copy, PartialEq, Eq, Structural, Hash)]
pub enum OptimizationLevel {
    /// No optimization performed.
    Off,
    /// Only perform simple optimizations without evaluating functions.
    Simple,
    /// Full optimizations performed, including evaluating functions (of those, the optimizer
    /// knows the built-in operators, which it evaluates on literal arguments).
    Full,
}

impl Default for OptimizationLevel {
    /// Simple optimization is the default.
    fn default() -> (r: Self)
        ensures
            r == OptimizationLevel::Simple,
    {
        OptimizationLevel::Simple
    }
}

/// The constant that a name refers to in a list of variables, searched from the most
/// recent: the first entry of that name that is a constant with a known value. (An entry
/// of that name that is not such a constant does not stop the search.)
pub open spec fn constant_of(variables: Seq<(String, AccessMode, Option<Dynamic>)>, name: Seq<char>) -> Option<Dynamic>
    decreases variables.len(),
{
    if variables.len() == 0 {
        None
    } else if variables.last().0@ == name && variables.last().1 == AccessMode::ReadOnly
        && variables.last().2 is Some {
        variables.last().2
    } else {
        constant_of(variables.drop_last(), name)
    }
}

/// The state kept through an optimization pass: whether anything changed, and the
/// variables seen so far (with the values of the constants among them).
pub struct OptimizerState {
    /// Has the script been changed during this pass?
    pub changed: bool,
    /// The variables seen so far: name, access mode and value (if known).
    pub variables: Vec<(String, AccessMode, Option<Dynamic>)>,
    /// Are constants propagated?
    pub propagate_constants: bool,
    /// The optimization level.
    pub optimization_level: OptimizationLevel,
}

impl OptimizerState {
    /// A new state: nothing changed, no variables, constants propagated.
    pub fn new(optimization_level: OptimizationLevel) -> (r: Self)
        ensures
            r == (OptimizerState {
                changed: false,
                variables: r.variables,
                propagate_constants: true,
                optimization_level: optimization_level,
            }),
            r.variables@ == Seq::<(String, AccessMode, Option<Dynamic>)>::empty(),
    {
        OptimizerState { changed: false, variables: Vec::new(), propagate_constants: true, optimization_level }
    }

    /// Mark the script as changed.
    pub fn set_dirty(&mut self)
        ensures
            *final(self) == (OptimizerState { changed: true, ..*old(self) }),
    {
        self.changed = true;
    }

    /// Mark the script as unchanged.
    pub fn clear_dirty(&mut self)
        ensures
            *final(self) == (OptimizerState { changed: false, ..*old(self) }),
    {
        self.changed = false;
    }

    /// Has the script been changed?
    pub fn is_dirty(&self) -> (r: bool)
        ensures
            r == self.changed,
    {
        self.changed
    }

    /// Forget the variables beyond the first `len`.
    pub fn restore_var(&mut self, len: usize)
        ensures
            final(self).changed == old(self).changed,
            final(self).propagate_constants == old(self).propagate_constants,
            final(self).optimization_level == old(self).optimization_level,
            final(self).variables@ == if len < old(self).variables@.len() {
                old(self).variables@.take(len as int)
            } else {
                old(self).variables@
            },
    {
        self.variables.truncate(len);
    }

    /// Add a variable.
    pub fn push_var(&mut self, name: &str, access: AccessMode, value: Option<Dynamic>)
        ensures
            final(self).changed == old(self).changed,
            final(self).propagate_constants == old(self).propagate_constants,
            final(self).optimization_level == old(self).optimization_level,
            final(self).variables@.len() == old(self).variables@.len() + 1,
            final(self).variables@.drop_last() == old(self).variables@,
            final(self).variables@.last().0@ == name@,
            final(self).variables@.last().1 == access,
            final(self).variables@.last().2 == value,
    {
        self.variables.push((String::from_str(name), access, value));
        assert(self.variables@.drop_last() == old(self).variables@);
    }

    /// The value of the constant that `name` refers to, if constants are propagated and
    /// there is one.
    pub fn find_constant(&self, name: &str) -> (r: Option<&Dynamic>)
        ensures
            !self.propagate_constants ==> r is None,
            self.propagate_constants ==> match constant_of(self.variables@, name@) {
                Some(v) => r matches Some(d) && *d == v,
                None => r is None,
            },
    {
        if !self.propagate_constants {
            return None;
        }
        let mut i = self.variables.len();
        assert(self.variables@.take(i as int) == self.variables@);
        while i > 0
            invariant
                i <= self.variables@.len(),
                self.propagate_constants,
                constant_of(self.variables@, name@) == constant_of(self.variables@.take(i as int), name@),
            decreases i,
        {
            let entry = &self.variables[i - 1];
            assert(self.variables@.take(i as int).drop_last() == self.variables@.take(i - 1));
            assert(self.variables@.take(i as int).last() == self.variables@[i - 1]);
            if str_eq(entry.0.as_str(), name) {
                match (&entry.1, &entry.2) {
                    (AccessMode::ReadOnly, Some(v)) => {
                        return Some(v);
                    },
                    _ => {},
                }
            }
            i = i - 1;
        }
        None
    }
}


/// The value that an expression is known to have before the script runs, given the
/// variables seen so far: literals, constants, `&&`, `||`, and indexing of an integer
/// (a bit) or a string (a character) by an integer; `None` where it is not known.
pub open spec fn const_value(e: Expr, vars: Seq<(String, AccessMode, Option<Dynamic>)>) -> Option<Union>
    decreases e,
{
    match e {
        Expr::DynamicConstant(d, _) => Some(d.value),
        Expr::BoolConstant(b, _) => Some(Union::Bool(b)),
        Expr::IntegerConstant(i, _) => Some(Union::Int(i)),
        Expr::CharConstant(c, _) => Some(Union::Char(c)),
        Expr::StringConstant(s, _) => Some(Union::Str(s)),
        Expr::Unit(_) => Some(Union::Unit),
        Expr::Variable(_, _, v) => if v.namespace is None {
            match constant_of(vars, v.name@) {
                Some(d) => Some(d.value),
                None => None,
            }
        } else {
            None
        },
        Expr::And(x, _) => match const_value(x.0, vars) {
            Some(Union::Bool(false)) => Some(Union::Bool(false)),
            Some(Union::Bool(true)) => match const_value(x.1, vars) {
                Some(Union::Bool(b)) => Some(Union::Bool(b)),
                _ => None,
            },
            _ => None,
        },
        Expr::Or(x, _) => match const_value(x.0, vars) {
            Some(Union::Bool(true)) => Some(Union::Bool(true)),
            Some(Union::Bool(false)) => match const_value(x.1, vars) {
                Some(Union::Bool(b)) => Some(Union::Bool(b)),
                _ => None,
            },
            _ => None,
        },
        Expr::Index(x, _) => match (const_value(x.0, vars), const_value(x.1, vars)) {
            (Some(Union::Int(n)), Some(Union::Int(i))) => match bit_position(i) {
                Some(k) => Some(Union::Bool(bit_of(n, k))),
                None => None,
            },
            (Some(Union::Str(s)), Some(Union::Int(i))) => match array_slot(s@.len() as int, i) {
                Some(k) => Some(Union::Char(s@[k])),
                None => None,
            },
            _ => None,
        },
        _ => None,
    }
}

/// Does `after` have the value that `before` is known to have, wherever that is known?
pub open spec fn keeps_value(before: Expr, after: Expr, vars: Seq<(String, AccessMode, Option<Dynamic>)>) -> bool {
    const_value(before, vars) is Some ==> const_value(after, vars) == const_value(before, vars)
}

/// Does every expression of `after` keep the value of the one at the same place in
/// `before` (see [`keeps_value`])?
pub open spec fn items_keep_values(before: Seq<Expr>, after: Seq<Expr>, vars: Seq<(String, AccessMode, Option<Dynamic>)>) -> bool {
    &&& after.len() == before.len()
    &&& forall|i: int| 0 <= i < before.len() ==> keeps_value(#[trigger] before[i], after[i], vars)
}

/// Is `after` an optimized form of `before`: it keeps its value, and a call other than
/// `eval` stays a call of the same function at the same place with as many arguments, each
/// keeping its value, unless it is a built-in operator on literals (see [`builtin_call`]).
pub open spec fn expr_kept(before: Expr, after: Expr, vars: Seq<(String, AccessMode, Option<Dynamic>)>,
    level: OptimizationLevel) -> bool {
    &&& keeps_value(before, after, vars)
    &&& before matches Expr::FnCall(x, p) ==> (builtin_call(x.0@, x.1@, level) is Some || keyword_call(x.0@, x.1@, level)
        || (after matches Expr::FnCall(
        y,
        q,
    ) && y.0 == x.0 && q == p && items_keep_values(x.1@, y.1@, vars)))
}

/// What an optimization keeps of the state: the variables and the level; once changed
/// the script stays changed, and once constants stop being propagated they stay so.
pub open spec fn state_kept(before: OptimizerState, after: OptimizerState) -> bool {
    &&& after.variables@ == before.variables@
    &&& after.optimization_level == before.optimization_level
    &&& before.changed ==> after.changed
    &&& after.propagate_constants ==> before.propagate_constants
}

/// The built-in operator that optimization (simple or full) evaluates for a call of `name` on
/// `args`: a call with two literal arguments (other than `eval`) whose name is that of a
/// built-in binary operator for their types.
pub open spec fn builtin_call(name: Seq<char>, args: Seq<Expr>, level: OptimizationLevel) -> Option<BuiltinOp> {
    if level != OptimizationLevel::Off && name != "eval"@ && args.len() == 2 && expr_is_literal(args[0])
        && expr_is_literal(args[1]) {
        builtin_binary_op(name, literal_dynamic(args[0]), literal_dynamic(args[1]))
    } else {
        None
    }
}

/// The call that optimization (simple or full) answers for a call of `name` on `args`:
/// `type_of` and `is_shared` of one literal.
pub open spec fn keyword_call(name: Seq<char>, args: Seq<Expr>, level: OptimizationLevel) -> bool {
    level != OptimizationLevel::Off && args.len() == 1 && expr_is_literal(args[0]) && (name == "type_of"@ || name
        == "is_shared"@)
}

/// Is `k` the first entry of `m` with the name `name`?
pub open spec fn is_first_named(m: Seq<(String, Expr)>, name: Seq<char>, k: int) -> bool {
    &&& 0 <= k < m.len()
    &&& m[k].0@ == name
    &&& forall|j: int| 0 <= j < k ==> (#[trigger] m[j]).0@ != name
}

/// The index of the first entry of `m` with the name `name`, if any.
pub open spec fn first_named(m: Seq<(String, Expr)>, name: Seq<char>) -> Option<int> {
    if exists|k: int| is_first_named(m, name, k) {
        Some(choose|k: int| is_first_named(m, name, k))
    } else {
        None
    }
}

/// The expression that the optimizer puts in place of `e` directly, without looking inside
/// it first (`chaining`: `e` is itself the right side of a `.` or `[]`):
/// `false && ..` and `true || ..`; a variable that names a known constant; an integer or
/// string literal indexed by an integer literal in range (a bit, a character); an array
/// literal of pure items indexed by an integer literal in range (that item); a property of
/// a map literal of pure values (the first value of that name, or `()`).
pub open spec fn direct_fold(e: Expr, chaining: bool, propagate: bool,
    vars: Seq<(String, AccessMode, Option<Dynamic>)>) -> Option<Expr> {
    match e {
        Expr::And(x, _) => match x.0 {
            Expr::BoolConstant(false, p) => Some(Expr::BoolConstant(false, p)),
            _ => None,
        },
        Expr::Or(x, _) => match x.0 {
            Expr::BoolConstant(true, p) => Some(Expr::BoolConstant(true, p)),
            _ => None,
        },
        Expr::Variable(_, pos, v) => if propagate && v.namespace is None {
            match constant_of(vars, v.name@) {
                Some(d) => Some(expr_from_dynamic(d, pos)),
                None => None,
            }
        } else {
            None
        },
        Expr::Dot(x, _) => if chaining {
            None
        } else {
            match (x.0, x.1) {
                (Expr::MapLiteral(m, pos), Expr::Property(p)) => if forall|j: int| 0 <= j < m@.len()
                    ==> expr_is_pure(#[trigger] m@[j].1) {
                    match first_named(m@, p.2.0@) {
                        Some(k) => Some(with_position(m@[k].1, pos)),
                        None => Some(Expr::Unit(pos)),
                    }
                } else {
                    None
                },
                _ => None,
            }
        },
        Expr::Index(x, _) => if chaining {
            None
        } else {
            match (x.0, x.1) {
                (Expr::IntegerConstant(n, pos), Expr::IntegerConstant(i, _)) => match bit_position(i) {
                    Some(k) => Some(Expr::BoolConstant(bit_of(n, k), pos)),
                    None => None,
                },
                (Expr::StringConstant(s, pos), Expr::IntegerConstant(i, _)) => match array_slot(s@.len() as int, i) {
                    Some(k) => Some(Expr::CharConstant(s@[k], pos)),
                    None => None,
                },
                (Expr::Array(a, pos), Expr::IntegerConstant(i, _)) => match array_slot(a@.len() as int, i) {
                    Some(k) => if forall|j: int| 0 <= j < a@.len() ==> expr_is_pure(#[trigger] a@[j]) {
                        Some(with_position(a@[k], pos))
                    } else {
                        None
                    },
                    None => None,
                },
                _ => None,
            }
        },
        _ => None,
    }
}

/// The direct folds of the optimizer keep the value of the expression wherever it is known
/// before the script runs.
pub proof fn law_direct_fold_keeps_value(e: Expr, chaining: bool, propagate: bool,
    vars: Seq<(String, AccessMode, Option<Dynamic>)>)
    requires
        direct_fold(e, chaining, propagate, vars) is Some,
    ensures
        keeps_value(e, direct_fold(e, chaining, propagate, vars)->Some_0, vars),
{
    match e {
        Expr::And(x, _) => {
            assert(const_value(x.0, vars) == Some(Union::Bool(false)));
        },
        Expr::Or(x, _) => {
            assert(const_value(x.0, vars) == Some(Union::Bool(true)));
        },
        Expr::Index(x, _) => {
            let l = const_value(x.0, vars);
            let r = const_value(x.1, vars);
            if x.0 is Array {
                assert(l is None);
            }
        },
        _ => {},
    }
}

/// The slot of `index` in a sequence of `len` items, counted from the end when negative.
fn slot_of(len: usize, index: INT) -> (r: Option<usize>)
    ensures
        match array_slot(len as int, index) {
            Some(k) => r == Some(k as usize),
            None => r is None,
        },
{
    if index >= 0 {
        if (index as u64) < (len as u64) {
            Some(index as usize)
        } else {
            None
        }
    } else if index == INT::MIN {
        None
    } else {
        let back = (-index) as u64;
        if back > len as u64 {
            None
        } else {
            Some(len - back as usize)
        }
    }
}

/// Are all the expressions of a list pure?
fn all_pure(items: &Vec<Expr>) -> (r: bool)
    ensures
        r == (forall|j: int| 0 <= j < items@.len() ==> expr_is_pure(#[trigger] items@[j])),
{
    let mut i: usize = 0;
    while i < items.len()
        invariant
            i <= items@.len(),
            forall|j: int| 0 <= j < i ==> expr_is_pure(#[trigger] items@[j]),
        decreases items@.len() - i,
    {
        if !items[i].is_pure() {
            return false;
        }
        i = i + 1;
    }
    true
}

/// Optimize an expression in place: fold what is known before the script runs (see
/// [`direct_fold`]); drop `true &&`, `&& true`, `false ||` and `|| false` around what is
/// left; turn an array or map literal of constants into its value, an empty interpolated
/// string into an empty string, one made of a single string into that string, and merge
/// the parts of any other (see [`parts_merge`]); evaluate (under simple optimization) a
/// built-in operator on two literals when it succeeds (see [`builtin_call`]), and answer
/// `type_of` and `is_shared` of a literal (see [`keyword_call`]); and optimize
/// the parts of the rest. A call of `eval` stops constants from being propagated from then
/// on. `chaining`: the expression is the right side of a `.` or `[]`.
pub fn optimize_expr(expr: &mut Expr, state: &mut OptimizerState, chaining: bool)
    ensures
        state_kept(*old(state), *final(state)),
        keeps_value(*old(expr), *final(expr), old(state).variables@),
        direct_fold(*old(expr), chaining, old(state).propagate_constants, old(state).variables@) matches Some(f)
            ==> *final(expr) == f && final(state).changed,
        expr_is_literal(*old(expr)) ==> *final(expr) == *old(expr) && *final(state) == *old(state),
        (*old(expr) is Array || *old(expr) is MapLiteral) ==> (expr_is_constant(*old(expr)) && expr_has_literal(*old(expr))
            ==> (*final(expr) matches Expr::DynamicConstant(d, p) && p == spec_expr_position(*old(expr)) && literal_matches(
            *old(expr),
            *d,
        ) && final(state).changed)),
        expr_kept(*old(expr), *final(expr), old(state).variables@, old(state).optimization_level),
        *old(expr) is Variable && direct_fold(*old(expr), chaining, old(state).propagate_constants, old(state).variables@)
            is None ==> *final(expr) == *old(expr),
        *old(expr) matches Expr::Dot(x, p) ==> (direct_fold(*old(expr), chaining, old(state).propagate_constants, old(state).variables@) is None ==> (*final(expr) matches Expr::Dot(y, q) && q == p && keeps_value(x.0, y.0, old(state).variables@)
            && keeps_value(x.1, y.1, old(state).variables@))),
        *old(expr) matches Expr::Index(x, p) ==> (direct_fold(*old(expr), chaining, old(state).propagate_constants, old(state).variables@) is None ==> (*final(expr) matches Expr::Index(y, q) && q == p && keeps_value(x.0, y.0, old(state).variables@)
            && keeps_value(x.1, y.1, old(state).variables@))),
        *old(expr) matches Expr::Custom(x, p) ==> (*final(expr) matches Expr::Custom(y, q) && q == p && items_keep_values(
            x@,
            y@,
            old(state).variables@,
        )),
        *old(expr) matches Expr::Array(x, p) ==> (!(expr_is_constant(*old(expr)) && expr_has_literal(*old(expr))) ==> (
        *final(expr) matches Expr::Array(y, q) && q == p && items_keep_values(x@, y@, old(state).variables@))),
        *old(expr) matches Expr::MapLiteral(x, p) ==> (!(expr_is_constant(*old(expr)) && expr_has_literal(*old(expr))) ==> (
        *final(expr) matches Expr::MapLiteral(y, q) && q == p && y@.len() == x@.len() && forall|i: int|
            0 <= i < x@.len() ==> (#[trigger] y@[i]).0 == x@[i].0 && keeps_value(x@[i].1, y@[i].1, old(state).variables@))),
        *old(expr) matches Expr::FnCall(x, _) ==> (x.0@ == "eval"@ ==> !final(state).propagate_constants
            && *final(expr) == *old(expr)),
        *old(expr) matches Expr::FnCall(x, pos) ==> (builtin_call(x.0@, x.1@, old(state).optimization_level) matches Some(f)
            ==> exists|r: Result<Dynamic, Box<EvalAltResult>>| #[trigger] builtin_binary_result(f,
            literal_dynamic(x.1@[0]), literal_dynamic(x.1@[1]), r) && (r matches Ok(v) ==> *final(expr)
            == expr_from_dynamic(v, pos) && final(state).changed)),
        *old(expr) matches Expr::InterpolatedString(x, pos) ==> (x@.len() == 0 ==> (*final(expr) matches Expr::StringConstant(s, p)
            && s@.len() == 0 && p == pos && final(state).changed)),
        *old(expr) matches Expr::InterpolatedString(x, _) ==> (x@.len() == 1 && x@[0] is StringConstant ==> *final(expr)
            == x@[0] && final(state).changed),
        *old(expr) matches Expr::InterpolatedString(x, pos) ==> (x@.len() > 0 && !(x@.len() == 1 && x@[0] is StringConstant)
            ==> (*final(expr) matches Expr::InterpolatedString(y, p) && p == pos && 0 < y@.len() <= x@.len() && parts_merged(
            y@,
        ) && (y@.len() < x@.len() ==> final(state).changed) && code_parts(y@) == code_parts(x@) && text_runs(y@)
            == text_runs(x@))),
    decreases *old(expr), 2int,
{
    let mut e = Expr::Unit(Position::none());
    std::mem::swap(&mut e, expr);
    let ghost e0 = e;
    let literal: Option<Dynamic> = match &e {
        Expr::Array(..) | Expr::MapLiteral(..) => if e.is_constant() {
            e.get_literal_value()
        } else {
            None
        },
        _ => None,
    };
    match literal {
        Some(d) => {
            let p = e.position();
            state.set_dirty();
            *expr = Expr::DynamicConstant(Box::new(d), p);
            return;
        },
        None => {},
    }
    match e {
        Expr::Variable(short, pos, v) => {
            if v.namespace.is_none() {
                match state.find_constant(v.name.as_str()) {
                    Some(d) => {
                        let value = d.clone();
                        *expr = Expr::from_dynamic(value, pos);
                        state.set_dirty();
                        return;
                    },
                    None => {},
                }
            }
            *expr = Expr::Variable(short, pos, v);
        },
        Expr::And(x, pos) => {
            let (l, r) = *x;
            *expr = optimize_and(l, r, pos, state, Ghost(e0));
        },
        Expr::Or(x, pos) => {
            let (l, r) = *x;
            *expr = optimize_or(l, r, pos, state, Ghost(e0));
        },
        Expr::Index(x, pos) => {
            let (l, r) = *x;
            *expr = optimize_index(l, r, pos, state, chaining, Ghost(e0));
        },
        Expr::Dot(x, pos) => {
            let (l, r) = *x;
            *expr = optimize_dot(l, r, pos, state, chaining, Ghost(e0));
        },
        Expr::Array(items, pos) => {
            proof {
                assert forall|j: int| 0 <= j < items@.len() implies decreases_to!(e0 => #[trigger] items@[j]) by {
                    assert(decreases_to!(e0 => items));
                    assert(decreases_to!(items => items@));
                    assert(decreases_to!(items@ => items@[j]));
                }
            }
            let items = optimize_list(items, state, Ghost(e0));
            *expr = Expr::Array(items, pos);
        },
        Expr::Custom(items, pos) => {
            proof {
                assert forall|j: int| 0 <= j < items@.len() implies decreases_to!(e0 => #[trigger] items@[j]) by {
                    assert(decreases_to!(e0 => items));
                    assert(decreases_to!(items => items@));
                    assert(decreases_to!(items@ => items@[j]));
                }
            }
            let items = optimize_list(items, state, Ghost(e0));
            *expr = Expr::Custom(items, pos);
        },
        Expr::MapLiteral(items, pos) => {
            proof {
                assert forall|j: int| 0 <= j < items@.len() implies decreases_to!(e0 => #[trigger] items@[j].1) by {
                    assert(decreases_to!(e0 => items));
                    assert(decreases_to!(items => items@));
                    assert(decreases_to!(items@ => items@[j]));
                    assert(decreases_to!(items@[j] => items@[j].1));
                }
            }
            let items = optimize_entries(items, state, Ghost(e0));
            *expr = Expr::MapLiteral(items, pos);
        },
        Expr::FnCall(x, pos) => {
            let (name, args) = *x;
            proof {
                assert forall|j: int| 0 <= j < args@.len() implies decreases_to!(e0 => #[trigger] args@[j]) by {
                    assert(decreases_to!(e0 => args));
                    assert(decreases_to!(args => args@));
                    assert(decreases_to!(args@ => args@[j]));
                }
            }
            *expr = optimize_fn_call(name, args, pos, state, Ghost(e0));
        },
        Expr::InterpolatedString(parts, pos) => {
            if parts.len() == 0 {
                state.set_dirty();
                *expr = Expr::StringConstant(ImmutableString::new(), pos);
            } else if parts.len() == 1 && (match &parts[0] {
                Expr::StringConstant(..) => true,
                _ => false,
            }) {
                let mut parts = parts;
                let only = parts.remove(0);
                state.set_dirty();
                *expr = only;
            } else {
                let parts = merge_parts(parts, state);
                *expr = Expr::InterpolatedString(parts, pos);
            }
        },
        other => {
            *expr = other;
        },
    }
}

/// Optimize `l && r`; see [`optimize_expr`].
fn optimize_and(l: Expr, r: Expr, pos: Position, state: &mut OptimizerState, Ghost(parent): Ghost<Expr>) -> (res: Expr)
    requires
        decreases_to!(parent => l),
        decreases_to!(parent => r),
    ensures
        state_kept(*old(state), *final(state)),
        keeps_value(Expr::And(Box::new((l, r)), pos), res, old(state).variables@),
        l matches Expr::BoolConstant(false, p) ==> res == Expr::BoolConstant(false, p) && final(state).changed,
    decreases parent, 0int,
{
    let mut l = l;
    let mut r = r;
    let lb: Option<(bool, Position)> = match &l {
        Expr::BoolConstant(b, p) => Some((*b, *p)),
        _ => None,
    };
    let r_true = match &r {
        Expr::BoolConstant(b, _) => *b,
        _ => false,
    };
    match lb {
        Some((true, _)) => {
            state.set_dirty();
            optimize_expr(&mut r, state, false);
            return r;
        },
        Some((false, p)) => {
            state.set_dirty();
            return Expr::BoolConstant(false, p);
        },
        None => {
            if r_true {
                state.set_dirty();
                optimize_expr(&mut l, state, false);
                return l;
            } else {
                optimize_expr(&mut l, state, false);
                optimize_expr(&mut r, state, false);
                return Expr::And(Box::new((l, r)), pos);
            }
        },
    }
}

/// Optimize `l || r`; see [`optimize_expr`].
fn optimize_or(l: Expr, r: Expr, pos: Position, state: &mut OptimizerState, Ghost(parent): Ghost<Expr>) -> (res: Expr)
    requires
        decreases_to!(parent => l),
        decreases_to!(parent => r),
    ensures
        state_kept(*old(state), *final(state)),
        keeps_value(Expr::Or(Box::new((l, r)), pos), res, old(state).variables@),
        l matches Expr::BoolConstant(true, p) ==> res == Expr::BoolConstant(true, p) && final(state).changed,
    decreases parent, 0int,
{
    let mut l = l;
    let mut r = r;
    let lb: Option<(bool, Position)> = match &l {
        Expr::BoolConstant(b, p) => Some((*b, *p)),
        _ => None,
    };
    let r_false = match &r {
        Expr::BoolConstant(b, _) => !*b,
        _ => false,
    };
    match lb {
        Some((false, _)) => {
            state.set_dirty();
            optimize_expr(&mut r, state, false);
            return r;
        },
        Some((true, p)) => {
            state.set_dirty();
            return Expr::BoolConstant(true, p);
        },
        None => {
            if r_false {
                state.set_dirty();
                optimize_expr(&mut l, state, false);
                return l;
            } else {
                optimize_expr(&mut l, state, false);
                optimize_expr(&mut r, state, false);
                return Expr::Or(Box::new((l, r)), pos);
            }
        },
    }
}

/// Optimize `l[r]`; see [`optimize_expr`].
fn optimize_index(l: Expr, r: Expr, pos: Position, state: &mut OptimizerState, chaining: bool,
    Ghost(parent): Ghost<Expr>) -> (res: Expr)
    requires
        decreases_to!(parent => l),
        decreases_to!(parent => r),
    ensures
        state_kept(*old(state), *final(state)),
        keeps_value(Expr::Index(Box::new((l, r)), pos), res, old(state).variables@),
        direct_fold(Expr::Index(Box::new((l, r)), pos), chaining, old(state).propagate_constants, old(state).variables@)
            matches Some(f) ==> res == f && final(state).changed,
        direct_fold(Expr::Index(Box::new((l, r)), pos), chaining, old(state).propagate_constants, old(state).variables@)
            is None ==> (res matches Expr::Index(y, q) && q == pos && keeps_value(l, y.0, old(state).variables@)
            && keeps_value(r, y.1, old(state).variables@)),
    decreases parent, 0int,
{
    let mut l = l;
    let mut r = r;
    if !chaining {
        let ri: Option<INT> = match &r {
            Expr::IntegerConstant(i, _) => Some(*i),
            _ => None,
        };
        match ri {
            Some(i) => {
                let folded: Option<Expr> = match &l {
                    Expr::IntegerConstant(n, lp) => match get_bit(*n, i) {
                        Ok(b) => Some(Expr::BoolConstant(b, *lp)),
                        Err(_) => None,
                    },
                    Expr::StringConstant(s, lp) => {
                        let chars = str_chars(s.as_str());
                        match slot_of(chars.len(), i) {
                            Some(k) => Some(Expr::CharConstant(chars[k], *lp)),
                            None => None,
                        }
                    },
                    _ => None,
                };
                match folded {
                    Some(f) => {
                        state.set_dirty();
                        return f;
                    },
                    None => {},
                }
                let pick: Option<usize> = match &l {
                    Expr::Array(a, _) => match slot_of(a.len(), i) {
                        Some(k) => if all_pure(a) {
                            Some(k)
                        } else {
                            None
                        },
                        None => None,
                    },
                    _ => None,
                };
                match pick {
                    Some(k) => match l {
                        Expr::Array(mut a, lp) => {
                            let mut item = a.remove(k);
                            item.set_position(lp);
                            state.set_dirty();
                            return item;
                        },
                        other => {
                            l = other;
                        },
                    },
                    None => {},
                }
            },
            None => {},
        }
        let l_var = match &l {
            Expr::Variable(..) => true,
            _ => false,
        };
        if !l_var {
            optimize_expr(&mut l, state, false);
        }
        optimize_expr(&mut r, state, true);
    } else {
        optimize_expr(&mut l, state, false);
        optimize_expr(&mut r, state, true);
    }
    Expr::Index(Box::new((l, r)), pos)
}

/// The index of the first entry of `m` with the name `name`, if any.
fn find_named(m: &Vec<(String, Expr)>, name: &str) -> (r: Option<usize>)
    ensures
        match first_named(m@, name@) {
            Some(k) => r == Some(k as usize),
            None => r is None,
        },
{
    let mut i: usize = 0;
    while i < m.len()
        invariant
            i <= m@.len(),
            forall|j: int| 0 <= j < i ==> (#[trigger] m@[j]).0@ != name@,
        decreases m@.len() - i,
    {
        if str_eq(m[i].0.as_str(), name) {
            proof {
                assert(is_first_named(m@, name@, i as int));
                let c = choose|k: int| is_first_named(m@, name@, k);
                assert(is_first_named(m@, name@, c));
                if c < i {
                    assert(m@[c].0@ != name@);
                }
                if c > i {
                    assert(m@[i as int].0@ != name@);
                }
            }
            return Some(i);
        }
        i = i + 1;
    }
    proof {
        assert forall|k: int| !is_first_named(m@, name@, k) by {
            if 0 <= k < m@.len() {
                assert(m@[k].0@ != name@);
            }
        }
    }
    None
}

/// Optimize `l.r`; see [`optimize_expr`].
fn optimize_dot(l: Expr, r: Expr, pos: Position, state: &mut OptimizerState, chaining: bool,
    Ghost(parent): Ghost<Expr>) -> (res: Expr)
    requires
        decreases_to!(parent => l),
        decreases_to!(parent => r),
    ensures
        state_kept(*old(state), *final(state)),
        keeps_value(Expr::Dot(Box::new((l, r)), pos), res, old(state).variables@),
        direct_fold(Expr::Dot(Box::new((l, r)), pos), chaining, old(state).propagate_constants, old(state).variables@)
            matches Some(f) ==> res == f && final(state).changed,
        direct_fold(Expr::Dot(Box::new((l, r)), pos), chaining, old(state).propagate_constants, old(state).variables@)
            is None ==> (res matches Expr::Dot(y, q) && q == pos && keeps_value(l, y.0, old(state).variables@)
            && keeps_value(r, y.1, old(state).variables@)),
    decreases parent, 0int,
{
    let mut l = l;
    let mut r = r;
    if !chaining {
        let pick: Option<Option<usize>> = match (&l, &r) {
            (Expr::MapLiteral(m, _), Expr::Property(p)) => {
                let mut all = true;
                let mut i: usize = 0;
                while i < m.len()
                    invariant
                        i <= m@.len(),
                        all == (forall|j: int| 0 <= j < i ==> expr_is_pure(#[trigger] m@[j].1)),
                    decreases m@.len() - i,
                {
                    if !m[i].1.is_pure() {
                        all = false;
                    }
                    i = i + 1;
                }
                if all {
                    Some(find_named(m, p.2.0.as_str()))
                } else {
                    None
                }
            },
            _ => None,
        };
        match pick {
            Some(found) => match l {
                Expr::MapLiteral(mut m, mpos) => {
                    state.set_dirty();
                    match found {
                        Some(k) => {
                            let (_, mut v) = m.remove(k);
                            v.set_position(mpos);
                            return v;
                        },
                        None => {
                            return Expr::Unit(mpos);
                        },
                    }
                },
                other => {
                    l = other;
                },
            },
            None => {},
        }
    }
    let l_var = match &l {
        Expr::Variable(..) => true,
        _ => false,
    };
    if chaining || !l_var {
        optimize_expr(&mut l, state, false);
    }
    optimize_expr(&mut r, state, true);
    Expr::Dot(Box::new((l, r)), pos)
}

/// Optimize a call of `name` on `args`; see [`optimize_expr`].
fn optimize_fn_call(name: String, args: Vec<Expr>, pos: Position, state: &mut OptimizerState,
    Ghost(parent): Ghost<Expr>) -> (res: Expr)
    requires
        forall|j: int| 0 <= j < args@.len() ==> decreases_to!(parent => #[trigger] args@[j]),
    ensures
        state_kept(*old(state), *final(state)),
        name@ == "eval"@ ==> !final(state).propagate_constants && res == Expr::FnCall(Box::new((name, args)), pos),
        builtin_call(name@, args@, old(state).optimization_level) matches Some(f) ==> exists|r: Result<
            Dynamic,
            Box<EvalAltResult>,
        >| #[trigger] builtin_binary_result(f, literal_dynamic(args@[0]), literal_dynamic(args@[1]), r) && (r matches Ok(
            v,
        ) ==> res == expr_from_dynamic(v, pos) && final(state).changed),
        keyword_call(name@, args@, old(state).optimization_level) ==> final(state).changed && (name@ == "type_of"@ ==> (
        res matches Expr::StringConstant(t, q) && q == pos && t@ == spec_type_desc(literal_dynamic(args@[0])))) && (name@
            == "is_shared"@ ==> res == Expr::BoolConstant(false, pos)),
        name@ != "eval"@ && builtin_call(name@, args@, old(state).optimization_level) is None && !keyword_call(
            name@,
            args@,
            old(state).optimization_level,
        ) ==> (res matches Expr::FnCall(
            y,
            q,
        ) && y.0 == name && q == pos && items_keep_values(args@, y.1@, old(state).variables@)),
    decreases parent, 1int,
{
    proof {
        reveal_strlit("eval");
        reveal_strlit("type_of");
        reveal_strlit("is_shared");
        assert("eval"@.len() == 4 && "type_of"@.len() == 7 && "is_shared"@.len() == 9);
    }
    if str_eq(name.as_str(), "eval") {
        state.propagate_constants = false;
        return Expr::FnCall(Box::new((name, args)), pos);
    }
    if state.optimization_level != OptimizationLevel::Off && args.len() == 1 && args[0].is_literal() {
        if str_eq(name.as_str(), "type_of") {
            match args[0].get_literal_value() {
                Some(v) => {
                    state.set_dirty();
                    assert(v == literal_dynamic(args@[0]));
                    return Expr::StringConstant(ImmutableString::from_str(v.type_desc()), pos);
                },
                None => {},
            }
        } else if str_eq(name.as_str(), "is_shared") {
            state.set_dirty();
            return Expr::BoolConstant(false, pos);
        }
    }
    if state.optimization_level != OptimizationLevel::Off && args.len() == 2 && args[0].is_literal() && args[1].is_literal() {
        match (args[0].get_literal_value(), args[1].get_literal_value()) {
            (Some(a), Some(b)) => match get_builtin_binary_op_fn(name.as_str(), &a, &b) {
                Some(f) => {
                    proof {
                        law_builtin_binary_op_fits(name@, a, b);
                    }
                    let r = call_builtin_binary_op(f, &a, &b);
                    assert(builtin_binary_result(f, a, b, r));
                    match r {
                        Ok(v) => {
                            state.set_dirty();
                            return Expr::from_dynamic(v, pos);
                        },
                        Err(_) => {},
                    }
                },
                None => {},
            },
            _ => {},
        }
    }
    let args = optimize_list(args, state, Ghost(parent));
    Expr::FnCall(Box::new((name, args)), pos)
}

/// The statement that a block optimized to `block` stands for: nothing (`Noop`) when it is
/// empty, else a block at `pos`.
pub open spec fn block_or_noop(block: Seq<Stmt>, stmt: Stmt, pos: Position) -> bool {
    if block.len() == 0 {
        stmt == Stmt::Noop(pos)
    } else {
        stmt matches Stmt::Block(b, p) && b@ == block && p == pos
    }
}

/// Is nothing in the block after a statement that breaks the control flow?
pub open spec fn no_dead_code(block: Seq<Stmt>) -> bool {
    forall|i: int| 0 <= i < block.len() - 1 ==> !stmt_breaks_flow(#[trigger] block[i])
}

/// Does the list of variables `w` extend `vars` (with the variables declared after them)?
pub open spec fn extends_vars(w: Seq<(String, AccessMode, Option<Dynamic>)>, vars: Seq<(String, AccessMode, Option<Dynamic>)>) -> bool {
    w.len() >= vars.len() && w.take(vars.len() as int) == vars
}

/// Is `after` an optimized form of the statement `before`, given the variables `vars`?
/// Expressions are optimized in place (see [`expr_kept`]); `return`, `break` and no-ops
/// stay as they are; an `if` becomes a no-op, a block, its condition or an `if` at its
/// place; a `while` becomes a no-op, a block or a `while` at its place.
pub open spec fn stmt_refines(before: Stmt, after: Stmt, vars: Seq<(String, AccessMode, Option<Dynamic>)>,
    level: OptimizationLevel) -> bool {
    match before {
        Stmt::Noop(_) => after == before,
        Stmt::Break(_) => after == before,
        Stmt::Return(v, p) => after matches Stmt::Return(v2, q) && q == p && v2 is Some == v is Some && (v matches Some(e)
            ==> expr_kept(e, v2->Some_0, vars, level)),
        Stmt::Var(e, n, c, p) => after matches Stmt::Var(e2, n2, c2, q) && n2 == n && c2 == c && q == p && expr_kept(
            e,
            e2,
            vars,
            level,
        ),
        Stmt::Expr(e) => after matches Stmt::Expr(e2) && expr_kept(e, e2, vars, level),
        Stmt::If(c, _, p) => after is Noop || after is Block || (after matches Stmt::Expr(c2) && expr_kept(c, c2, vars, level))
            || (after matches Stmt::If(c2, _, q) && q == p && expr_kept(c, c2, vars, level)),
        Stmt::While(c, _, p) => after is Noop || after is Block || (after matches Stmt::While(c2, _, q) && q == p && (c2 is Unit
            || expr_kept(c, c2, vars, level))),
        Stmt::Block(_, _) => true,
    }
}

/// Is `after` an optimized form of `before` under some variables that extend `vars`?
pub open spec fn refined_by(before: Stmt, after: Stmt, vars: Seq<(String, AccessMode, Option<Dynamic>)>,
    level: OptimizationLevel) -> bool {
    exists|w: Seq<(String, AccessMode, Option<Dynamic>)>| extends_vars(w, vars) && #[trigger] stmt_refines(before, after, w, level)
}

/// Is `after` the no-op left in place of an optimized form of `before` that is pure within
/// its block and gives no value?
pub open spec fn noop_for(before: Stmt, after: Stmt, vars: Seq<(String, AccessMode, Option<Dynamic>)>,
    level: OptimizationLevel) -> bool {
    exists|w: Seq<(String, AccessMode, Option<Dynamic>)>, s2: Stmt| extends_vars(w, vars) && #[trigger] stmt_refines(before, s2, w, level)
        && stmt_is_internally_pure(s2) && !stmt_returns_value(s2) && after == Stmt::Noop(spec_stmt_position(s2))
}

/// Can the statement be dropped from its block: is an optimized form of it pure within the
/// block?
pub open spec fn droppable(before: Stmt, vars: Seq<(String, AccessMode, Option<Dynamic>)>, level: OptimizationLevel) -> bool {
    exists|w: Seq<(String, AccessMode, Option<Dynamic>)>, s2: Stmt| extends_vars(w, vars) && #[trigger] stmt_refines(before, s2, w, level)
        && stmt_is_internally_pure(s2)
}

/// Does `idx` map the statements of `after` to those of `before` they come from, in order,
/// each an optimized form of its statement (or the no-op left for it), with every statement
/// of `before` not kept either droppable or after the statement that ends `after` by
/// breaking the control flow?
pub open spec fn kept_at(before: Seq<Stmt>, after: Seq<Stmt>, idx: Seq<int>, vars: Seq<(String, AccessMode, Option<Dynamic>)>,
    level: OptimizationLevel) -> bool {
    &&& idx.len() == after.len()
    &&& forall|k: int| 0 <= k < idx.len() ==> 0 <= #[trigger] idx[k] < before.len()
    &&& forall|k: int, l: int| 0 <= k < l < idx.len() ==> #[trigger] idx[k] < #[trigger] idx[l]
    &&& forall|k: int| 0 <= k < idx.len() ==> refined_by(before[idx[k]], #[trigger] after[k], vars, level) || noop_for(
        before[idx[k]],
        after[k],
        vars,
        level,
    )
    &&& forall|j: int| 0 <= j < before.len() && !idx.contains(j) ==> droppable(#[trigger] before[j], vars, level) || (after.len()
        > 0 && stmt_breaks_flow(after.last()) && idx.last() < j)
}

/// Is `after` the block `before` optimized: its statements, in order, as their optimized
/// forms, less only statements that are pure within the block or follow one that breaks
/// the control flow? See [`kept_at`].
pub open spec fn block_optimized(before: Seq<Stmt>, after: Seq<Stmt>, vars: Seq<(String, AccessMode, Option<Dynamic>)>,
    level: OptimizationLevel) -> bool {
    exists|idx: Seq<int>| #[trigger] kept_at(before, after, idx, vars, level)
}

/// The statement that a block optimized to `block` becomes: a no-op at `pos` when empty,
/// its one statement, or a block at `pos`.
pub open spec fn block_result(block: Seq<Stmt>, stmt: Stmt, pos: Position) -> bool {
    &&& block.len() == 0 ==> stmt == Stmt::Noop(pos)
    &&& block.len() == 1 ==> stmt == block[0]
    &&& block.len() > 1 ==> (stmt matches Stmt::Block(b, p) && b@ == block && p == pos)
}

/// Dropping a statement that is pure within its block keeps the mapping.
proof fn lemma_kept_at_remove(before: Seq<Stmt>, after: Seq<Stmt>, idx: Seq<int>,
    vars: Seq<(String, AccessMode, Option<Dynamic>)>, level: OptimizationLevel, i: int)
    requires
        kept_at(before, after, idx, vars, level),
        0 <= i < after.len(),
        stmt_is_internally_pure(after[i]),
    ensures
        kept_at(before, after.remove(i), idx.remove(i), vars, level),
{
    let a2 = after.remove(i);
    let i2 = idx.remove(i);
    let j0 = idx[i];
    assert(!stmt_breaks_flow(after[i]));
    assert(droppable(before[j0], vars, level)) by {
        if refined_by(before[j0], after[i], vars, level) {
            let w = choose|w: Seq<(String, AccessMode, Option<Dynamic>)>| extends_vars(w, vars) && #[trigger] stmt_refines(before[j0], after[i], w, level);
            assert(stmt_refines(before[j0], after[i], w, level));
        } else {
            assert(noop_for(before[j0], after[i], vars, level));
        }
    }
    assert forall|k: int| 0 <= k < i2.len() implies 0 <= #[trigger] i2[k] < before.len() by {
        if k < i { assert(i2[k] == idx[k]); } else { assert(i2[k] == idx[k + 1]); }
    }
    assert forall|k: int, l: int| 0 <= k < l < i2.len() implies #[trigger] i2[k] < #[trigger] i2[l] by {
        let k1 = if k < i { k } else { k + 1 };
        let l1 = if l < i { l } else { l + 1 };
        assert(i2[k] == idx[k1] && i2[l] == idx[l1]);
    }
    assert forall|k: int| 0 <= k < i2.len() implies refined_by(before[i2[k]], #[trigger] a2[k], vars, level) || noop_for(
        before[i2[k]],
        a2[k],
        vars,
        level,
    ) by {
        let k1 = if k < i { k } else { k + 1 };
        assert(i2[k] == idx[k1] && a2[k] == after[k1]);
    }
    assert forall|j: int| 0 <= j < before.len() && !i2.contains(j) implies droppable(#[trigger] before[j], vars, level) || (
    a2.len() > 0 && stmt_breaks_flow(a2.last()) && i2.last() < j) by {
        if j != j0 {
            if idx.contains(j) {
                let k = choose|k: int| 0 <= k < idx.len() && idx[k] == j;
                let k2 = if k < i { k } else { k - 1 };
                assert(k != i);
                assert(i2[k2] == j);
            }
            if !droppable(before[j], vars, level) {
                assert(after.len() > 0 && stmt_breaks_flow(after.last()) && idx.last() < j);
                assert(i != after.len() - 1);
                assert(a2.last() == after.last());
                assert(i2.last() == idx.last());
            }
        }
    }
}

/// Leaving a no-op in place of the last statement, when it is pure within its block, is
/// not a no-op, and gives no value, keeps the mapping.
proof fn lemma_kept_at_noop(before: Seq<Stmt>, after: Seq<Stmt>, idx: Seq<int>,
    vars: Seq<(String, AccessMode, Option<Dynamic>)>, level: OptimizationLevel)
    requires
        kept_at(before, after, idx, vars, level),
        after.len() > 0,
        stmt_is_internally_pure(after.last()),
        !stmt_returns_value(after.last()),
        !(after.last() is Noop),
    ensures
        kept_at(before, after.update(after.len() - 1, Stmt::Noop(spec_stmt_position(after.last()))), idx, vars, level),
{
    let i = after.len() - 1;
    let a2 = after.update(i, Stmt::Noop(spec_stmt_position(after.last())));
    let j0 = idx[i];
    assert(refined_by(before[j0], after[i], vars, level)) by {
        if !refined_by(before[j0], after[i], vars, level) {
            assert(noop_for(before[j0], after[i], vars, level));
        }
    }
    let w = choose|w: Seq<(String, AccessMode, Option<Dynamic>)>| extends_vars(w, vars) && #[trigger] stmt_refines(before[j0], after[i], w, level);
    assert(stmt_refines(before[j0], after[i], w, level));
    assert(noop_for(before[j0], a2[i], vars, level));
    assert forall|k: int| 0 <= k < idx.len() implies refined_by(before[idx[k]], #[trigger] a2[k], vars, level) || noop_for(
        before[idx[k]],
        a2[k],
        vars,
        level,
    ) by {
        if k != i {
            assert(a2[k] == after[k]);
        }
    }
    assert(!stmt_breaks_flow(after.last()));
}

/// Optimize a statement in place: `if` on a boolean literal becomes the branch taken (or
/// nothing), `if` with two empty branches becomes its condition, `while false` becomes
/// nothing, a `while` whose body is only `break` runs its condition once, a block is
/// optimized and one of no or one statement is replaced by that; the expressions in the
/// statement are optimized with [`optimize_expr`]. `preserve_result`: the value of the
/// statement is used.
pub fn optimize_stmt(stmt: &mut Stmt, state: &mut OptimizerState, preserve_result: bool)
    ensures
        state_kept(*old(state), *final(state)),
        *old(stmt) matches Stmt::If(c, x, pos) ==> (c matches Expr::BoolConstant(false, p) ==> (x.1@.len() == 0 && x.0@.len()
            > 0 ==> *final(stmt) == Stmt::Noop(p) && final(state).changed)),
        *old(stmt) matches Stmt::If(c, x, pos) ==> (c matches Expr::BoolConstant(b, _) ==> (x.0@.len() > 0 || x.1@.len() > 0
            ==> (b || x.1@.len() > 0) ==> final(state).changed && (*final(stmt) is Noop || *final(stmt) is Block))),
        *old(stmt) matches Stmt::If(c, x, pos) ==> (x.0@.len() == 0 && x.1@.len() == 0 ==> final(state).changed && (
        !preserve_result ==> (*final(stmt) matches Stmt::Expr(e) && keeps_value(c, e, old(state).variables@)))),
        *old(stmt) matches Stmt::While(Expr::BoolConstant(false, p), _, _) ==> *final(stmt) == Stmt::Noop(p)
            && final(state).changed,
        *old(stmt) matches Stmt::Expr(e) ==> (*final(stmt) matches Stmt::Expr(e2) && keeps_value(
            e,
            e2,
            old(state).variables@,
        )),
        *old(stmt) matches Stmt::Var(e, n, c, p) ==> (*final(stmt) matches Stmt::Var(e2, n2, c2, p2) && n2 == n && c2 == c
            && p2 == p && keeps_value(e, e2, old(state).variables@)),
        *old(stmt) matches Stmt::Return(v, p) ==> (*final(stmt) matches Stmt::Return(v2, p2) && p2 == p && v2 is Some
            == v is Some && (v matches Some(e) ==> keeps_value(e, v2->Some_0, old(state).variables@))),
        *old(stmt) is Noop || *old(stmt) is Break ==> *final(stmt) == *old(stmt) && *final(state) == *old(state),
        *old(stmt) matches Stmt::Block(b, _) ==> (b@.len() == 0 ==> *final(stmt) is Noop),
        stmt_breaks_flow(*final(stmt)) ==> stmt_breaks_flow(*old(stmt)) || *old(stmt) is Block,
        stmt_breaks_flow(*old(stmt)) ==> stmt_breaks_flow(*final(stmt)),
        stmt_refines(*old(stmt), *final(stmt), old(state).variables@, old(state).optimization_level),
        *old(stmt) matches Stmt::Block(b, pos) ==> exists|r: Seq<Stmt>| #[trigger] block_optimized(
            b@,
            r,
            old(state).variables@,
            old(state).optimization_level,
        ) && block_result(r, *final(stmt), pos) && (r.len() <= 1 ==> final(state).changed),
        *old(stmt) matches Stmt::If(c, x, pos) ==> (c matches Expr::BoolConstant(true, _) ==> (x.0@.len() > 0 || x.1@.len() > 0
            ==> exists|r: Seq<Stmt>| #[trigger] block_optimized(x.0@, r, old(state).variables@, old(state).optimization_level)
            && block_or_noop(r, *final(stmt), pos))),
        *old(stmt) matches Stmt::If(c, x, pos) ==> (c matches Expr::BoolConstant(false, _) ==> (x.1@.len() > 0 ==> exists|
            r: Seq<Stmt>,
        | #[trigger] block_optimized(x.1@, r, old(state).variables@, old(state).optimization_level) && block_or_noop(
            r,
            *final(stmt),
            pos,
        ))),
        *old(stmt) matches Stmt::If(c, x, pos) ==> (!(c is BoolConstant) && (x.0@.len() > 0 || x.1@.len() > 0) ==> (
        *final(stmt) matches Stmt::If(c2, y, q) && q == pos && expr_kept(c, c2, old(state).variables@, old(state).optimization_level) && block_optimized(x.0@, y.0@, old(state).variables@, old(state).optimization_level)
            && block_optimized(x.1@, y.1@, old(state).variables@, old(state).optimization_level))),
        *old(stmt) matches Stmt::While(c, body, pos) ==> (!(c matches Expr::BoolConstant(false, _)) ==> exists|r: Seq<Stmt>|
            #[trigger] block_optimized(body@, r, old(state).variables@, old(state).optimization_level) && ((*final(stmt) matches Stmt::While(c2, b2, q) && q == pos && b2@ == r) || (r.len() == 1 && r[0] is Break && (*final(stmt) is Noop
            || *final(stmt) is Block)))),
    decreases *old(stmt), 2int,
{
    let mut s = Stmt::Noop(Position::none());
    std::mem::swap(&mut s, stmt);
    let ghost s0 = s;
    match s {
        Stmt::If(cond, x, pos) => {
            let (then_block, else_block) = *x;
            proof {
                assert forall|j: int| 0 <= j < then_block@.len() implies decreases_to!(s0 => #[trigger] then_block@[j]) by {
                    assert(decreases_to!(s0 => x));
                    assert(decreases_to!(x => then_block));
                    assert(decreases_to!(then_block => then_block@));
                    assert(decreases_to!(then_block@ => then_block@[j]));
                }
                assert forall|j: int| 0 <= j < else_block@.len() implies decreases_to!(s0 => #[trigger] else_block@[j]) by {
                    assert(decreases_to!(s0 => x));
                    assert(decreases_to!(x => else_block));
                    assert(decreases_to!(else_block => else_block@));
                    assert(decreases_to!(else_block@ => else_block@[j]));
                }
            }
            *stmt = optimize_if(cond, then_block, else_block, pos, state, preserve_result, Ghost(s0));
        },
        Stmt::While(cond, body, pos) => {
            let c_false: Option<Position> = match &cond {
                Expr::BoolConstant(false, p) => Some(*p),
                _ => None,
            };
            match c_false {
                Some(p) => {
                    state.set_dirty();
                    *stmt = Stmt::Noop(p);
                    return;
                },
                None => {},
            }
            let mut cond = cond;
            optimize_expr(&mut cond, state, false);
            let c_true: Option<Position> = match &cond {
                Expr::BoolConstant(true, p) => Some(*p),
                _ => None,
            };
            match c_true {
                Some(p) => {
                    cond = Expr::Unit(p);
                },
                None => {},
            }
            proof {
                assert forall|j: int| 0 <= j < body@.len() implies decreases_to!(s0 => #[trigger] body@[j]) by {
                    assert(decreases_to!(s0 => body));
                    assert(decreases_to!(body => body@));
                    assert(decreases_to!(body@ => body@[j]));
                }
            }
            let body = optimize_block(body, state, false, Ghost(s0));
            let only_break: Option<Position> = if body.len() == 1 {
                match &body[0] {
                    Stmt::Break(p) => Some(*p),
                    _ => None,
                }
            } else {
                None
            };
            match only_break {
                Some(p) => {
                    state.set_dirty();
                    let is_unit = match &cond {
                        Expr::Unit(_) => true,
                        _ => false,
                    };
                    if is_unit {
                        *stmt = Stmt::Noop(p);
                    } else {
                        let mut statements: Vec<Stmt> = Vec::new();
                        statements.push(Stmt::Expr(cond));
                        if preserve_result {
                            statements.push(Stmt::Noop(p));
                        }
                        *stmt = Stmt::Block(statements, p);
                    }
                },
                None => {
                    *stmt = Stmt::While(cond, body, pos);
                },
            }
        },
        Stmt::Var(e, name, is_const, pos) => {
            let mut e = e;
            if !is_const {
                optimize_expr(&mut e, state, false);
            }
            *stmt = Stmt::Var(e, name, is_const, pos);
        },
        Stmt::Block(statements, pos) => {
            proof {
                assert forall|j: int| 0 <= j < statements@.len() implies decreases_to!(s0 => #[trigger] statements@[j]) by {
                    assert(decreases_to!(s0 => statements));
                    assert(decreases_to!(statements => statements@));
                    assert(decreases_to!(statements@ => statements@[j]));
                }
            }
            let mut block = optimize_block(statements, state, preserve_result, Ghost(s0));
            if block.len() == 0 {
                state.set_dirty();
                *stmt = Stmt::Noop(pos);
            } else if block.len() == 1 {
                state.set_dirty();
                *stmt = block.remove(0);
            } else {
                *stmt = Stmt::Block(block, pos);
            }
        },
        Stmt::Expr(e) => {
            let mut e = e;
            optimize_expr(&mut e, state, false);
            *stmt = Stmt::Expr(e);
        },
        Stmt::Return(v, pos) => {
            match v {
                Some(e) => {
                    let mut e = e;
                    optimize_expr(&mut e, state, false);
                    *stmt = Stmt::Return(Some(e), pos);
                },
                None => {
                    *stmt = Stmt::Return(None, pos);
                },
            }
        },
        other => {
            *stmt = other;
        },
    }
}

/// Optimize `if cond { then_block } else { else_block }`; see [`optimize_stmt`].
fn optimize_if(cond: Expr, then_block: Vec<Stmt>, else_block: Vec<Stmt>, pos: Position, state: &mut OptimizerState,
    preserve_result: bool, Ghost(parent): Ghost<Stmt>) -> (res: Stmt)
    requires
        forall|j: int| 0 <= j < then_block@.len() ==> decreases_to!(parent => #[trigger] then_block@[j]),
        forall|j: int| 0 <= j < else_block@.len() ==> decreases_to!(parent => #[trigger] else_block@[j]),
    ensures
        state_kept(*old(state), *final(state)),
        cond matches Expr::BoolConstant(false, p) ==> (else_block@.len() == 0 && then_block@.len() > 0 ==> res == Stmt::Noop(p)
            && final(state).changed),
        cond matches Expr::BoolConstant(b, _) ==> (then_block@.len() > 0 || else_block@.len() > 0 ==> (b || else_block@.len()
            > 0) ==> final(state).changed && (res is Noop || res is Block)),
        then_block@.len() == 0 && else_block@.len() == 0 ==> final(state).changed && (!preserve_result ==> (res matches Stmt::Expr(
            e,
        ) && keeps_value(cond, e, old(state).variables@))),
        !stmt_breaks_flow(res),
        stmt_refines(Stmt::If(cond, Box::new((then_block, else_block)), pos), res, old(state).variables@, old(state).optimization_level),
        cond matches Expr::BoolConstant(true, _) ==> (then_block@.len() > 0 || else_block@.len() > 0 ==> exists|r: Seq<Stmt>|
            #[trigger] block_optimized(then_block@, r, old(state).variables@, old(state).optimization_level) && block_or_noop(
            r,
            res,
            pos,
        )),
        cond matches Expr::BoolConstant(false, _) ==> (else_block@.len() > 0 ==> exists|r: Seq<Stmt>| #[trigger] block_optimized(
            else_block@,
            r,
            old(state).variables@,
            old(state).optimization_level,
        ) && block_or_noop(r, res, pos)),
        !(cond is BoolConstant) && (then_block@.len() > 0 || else_block@.len() > 0) ==> (res matches Stmt::If(c2, y, q) && q
            == pos && expr_kept(cond, c2, old(state).variables@, old(state).optimization_level) && block_optimized(
            then_block@,
            y.0@,
            old(state).variables@,
            old(state).optimization_level,
        ) && block_optimized(else_block@, y.1@, old(state).variables@, old(state).optimization_level)),
    decreases parent, 1int,
{
    let mut cond = cond;
    if then_block.len() == 0 && else_block.len() == 0 {
        state.set_dirty();
        let cpos = cond.position();
        optimize_expr(&mut cond, state, false);
        if preserve_result {
            let mut statements: Vec<Stmt> = Vec::new();
            statements.push(Stmt::Expr(cond));
            statements.push(Stmt::Noop(cpos));
            return Stmt::Block(statements, cpos);
        } else {
            return Stmt::Expr(cond);
        }
    }
    let literal: Option<(bool, Position)> = match &cond {
        Expr::BoolConstant(b, p) => Some((*b, *p)),
        _ => None,
    };
    match literal {
        Some((false, p)) => {
            state.set_dirty();
            if else_block.len() == 0 {
                return Stmt::Noop(p);
            }
            let block = optimize_block(else_block, state, preserve_result, Ghost(parent));
            if block.len() == 0 {
                Stmt::Noop(pos)
            } else {
                Stmt::Block(block, pos)
            }
        },
        Some((true, _)) => {
            state.set_dirty();
            let block = optimize_block(then_block, state, preserve_result, Ghost(parent));
            if block.len() == 0 {
                Stmt::Noop(pos)
            } else {
                Stmt::Block(block, pos)
            }
        },
        None => {
            optimize_expr(&mut cond, state, false);
            let then_block = optimize_block(then_block, state, preserve_result, Ghost(parent));
            let else_block = optimize_block(else_block, state, preserve_result, Ghost(parent));
            Stmt::If(cond, Box::new((then_block, else_block)), pos)
        },
    }
}

/// Optimize a block of statements within an enclosing statement `parent`; see
/// [`optimize_stmt_block`].
fn optimize_block(statements: Vec<Stmt>, state: &mut OptimizerState, preserve_result: bool,
    Ghost(parent): Ghost<Stmt>) -> (r: Vec<Stmt>)
    requires
        forall|j: int| 0 <= j < statements@.len() ==> decreases_to!(parent => #[trigger] statements@[j]),
    ensures
        state_kept(*old(state), *final(state)),
        final(state).propagate_constants == old(state).propagate_constants,
        r@.len() <= statements@.len(),
        no_dead_code(r@),
        r@.len() < statements@.len() ==> final(state).changed,
        forall|i: int| 0 <= i < r@.len() - 1 ==> !stmt_is_pure(#[trigger] r@[i]),
        !preserve_result && r@.len() > 0 ==> !stmt_is_internally_pure(r@.last()),
        (exists|i: int| 0 <= i < statements@.len() && stmt_breaks_flow(#[trigger] statements@[i])) ==> r@.len() > 0
            && stmt_breaks_flow(r@.last()),
        block_optimized(statements@, r@, old(state).variables@, old(state).optimization_level),
        statements@.len() == 0 ==> r@.len() == 0 && *final(state) == *old(state),
    decreases parent, 0int,
{
    if statements.len() == 0 {
        proof {
            assert(kept_at(statements@, statements@, Seq::<int>::empty(), state.variables@, state.optimization_level));
        }
        return statements;
    }
    let orig_len = state.variables.len();
    let orig_propagate = state.propagate_constants;
    let ghost start = *state;
    let mut rest = statements;
    let mut done: Vec<Stmt> = Vec::new();
    let mut stopped = false;
    while rest.len() > 0 && !stopped
        invariant
            start == *old(state),
            orig_len == start.variables@.len(),
            orig_propagate == start.propagate_constants,
            state.variables@.len() >= orig_len,
            state.variables@.take(orig_len as int) == start.variables@,
            state.optimization_level == start.optimization_level,
            start.changed ==> state.changed,
            state.propagate_constants ==> start.propagate_constants,
            done@.len() + rest@.len() == statements@.len(),
            !stopped ==> rest@ == statements@.skip(done@.len() as int),
            stopped && rest@.len() > 0 ==> state.changed,
            no_dead_code(done@),
            !stopped && done@.len() > 0 ==> !stmt_breaks_flow(done@.last()),
            !stopped ==> forall|j: int| 0 <= j < done@.len() ==> !stmt_breaks_flow(#[trigger] statements@[j]),
            stopped ==> done@.len() > 0 && stmt_breaks_flow(done@.last()),
            forall|j: int| 0 <= j < statements@.len() ==> decreases_to!(parent => #[trigger] statements@[j]),
            forall|k: int| 0 <= k < done@.len() ==> refined_by(statements@[k], #[trigger] done@[k], start.variables@,
                start.optimization_level),
        decreases rest@.len(), if stopped { 0int } else { 1int },
    {
        let ghost i = done@.len() as int;
        let mut s = rest.remove(0);
        assert(s == statements@[i]);
        assert(rest@ == statements@.skip(i + 1));
        let ghost w = state.variables@;
        let ghost s_old = s;
        match s {
            Stmt::Var(value, name, is_const, pos) => {
                let mut value = value;
                optimize_expr(&mut value, state, false);
                if is_const {
                    let literal = value.get_literal_value();
                    if literal.is_some() {
                        state.push_var(name.as_str(), AccessMode::ReadOnly, literal);
                    }
                } else {
                    state.push_var(name.as_str(), AccessMode::ReadWrite, None);
                }
                assert(state.variables@.take(orig_len as int) == start.variables@);
                s = Stmt::Var(value, name, is_const, pos);
            },
            other => {
                let mut other = other;
                optimize_stmt(&mut other, state, preserve_result);
                s = other;
            },
        }
        proof {
            assert(extends_vars(w, start.variables@));
            assert(stmt_refines(s_old, s, w, start.optimization_level));
            assert(refined_by(s_old, s, start.variables@, start.optimization_level));
        }
        let breaks = s.is_control_flow_break();
        let ghost before_push = done@;
        done.push(s);
        assert(no_dead_code(done@));
        assert forall|k: int| 0 <= k < done@.len() implies refined_by(statements@[k], #[trigger] done@[k], start.variables@,
            start.optimization_level) by {
            if k < i {
                assert(done@[k] == before_push[k]);
            }
        }
        if breaks {
            if rest.len() > 0 {
                state.set_dirty();
            }
            stopped = true;
        }
    }
    let ghost vars = start.variables@;
    let ghost level = start.optimization_level;
    let ghost mut idx: Seq<int> = Seq::new(done@.len(), |k: int| k);
    proof {
        assert forall|j: int| 0 <= j < statements@.len() && !idx.contains(j) implies droppable(#[trigger] statements@[j], vars, level)
            || (done@.len() > 0 && stmt_breaks_flow(done@.last()) && idx.last() < j) by {
            if j < done@.len() {
                assert(idx[j] == j);
            }
        }
        assert(kept_at(statements@, done@, idx, vars, level));
    }
    let ghost ends_with_break = exists|i: int| 0 <= i < statements@.len() && stmt_breaks_flow(#[trigger] statements@[i]);
    assert(ends_with_break ==> done@.len() > 0 && stmt_breaks_flow(done@.last()));
    // the last statement whose value is not a constant (or that is not pure)
    let mut first_non_constant: usize = 0;
    let mut j: usize = done.len();
    let mut found = false;
    while j > 0 && !found
        invariant
            j <= done@.len(),
        decreases j,
    {
        j = j - 1;
        let not_constant = match &done[j] {
            Stmt::Var(e, _, _, _) => !e.is_constant(),
            Stmt::Expr(e) => !e.is_constant(),
            _ => false,
        };
        if not_constant || !done[j].is_internally_pure() {
            first_non_constant = j;
            found = true;
        }
    }
    // remove the pure statements (all of them but the last, when the result is used)
    let mut index: usize = 0;
    while index < done.len() && !(preserve_result && index + 1 >= done.len())
        invariant
            index <= done@.len(),
            forall|k: int| 0 <= k < index ==> !stmt_is_pure(#[trigger] done@[k]),
            no_dead_code(done@),
            kept_at(statements@, done@, idx, vars, level),
            ends_with_break ==> done@.len() > 0 && stmt_breaks_flow(done@.last()),
            done@.len() <= statements@.len(),
            done@.len() < statements@.len() ==> state.changed,
            state.variables@.len() >= orig_len,
            state.variables@.take(orig_len as int) == start.variables@,
            state.optimization_level == start.optimization_level,
            start.changed ==> state.changed,
        decreases done@.len() - index,
    {
        let removable = done[index].is_internally_pure() && index >= first_non_constant;
        if removable || done[index].is_pure() {
            if !removable && index < first_non_constant {
                first_non_constant = first_non_constant - 1;
            }
            state.set_dirty();
            let ghost before = done@;
            proof {
                lemma_kept_at_remove(statements@, done@, idx, vars, level, index as int);
                idx = idx.remove(index as int);
            }
            done.remove(index);
            assert forall|k: int| 0 <= k < done@.len() - 1 implies !stmt_breaks_flow(#[trigger] done@[k]) by {
                if k < index {
                    assert(done@[k] == before[k]);
                } else {
                    assert(done@[k] == before[k + 1]);
                }
            }
            assert forall|k: int| 0 <= k < index implies !stmt_is_pure(#[trigger] done@[k]) by {
                assert(done@[k] == before[k]);
            }
        } else {
            index = index + 1;
        }
    }
    // drop what is pure and gives no value at the end
    if preserve_result {
        let mut stop = false;
        while !stop
            invariant
                forall|k: int| 0 <= k < done@.len() - 1 ==> !stmt_is_pure(#[trigger] done@[k]),
                no_dead_code(done@),
                kept_at(statements@, done@, idx, vars, level),
            ends_with_break ==> done@.len() > 0 && stmt_breaks_flow(done@.last()),
                done@.len() <= statements@.len(),
                done@.len() < statements@.len() ==> state.changed,
                state.variables@.len() >= orig_len,
                state.variables@.take(orig_len as int) == start.variables@,
                state.optimization_level == start.optimization_level,
                start.changed ==> state.changed,
            decreases done@.len() * 3 + (if done@.len() > 0 && done@.last() is Noop { 0int } else { 1int }) + (if stop {
                0int
            } else {
                1int
            }),
        {
            let n = done.len();
            if n == 0 {
                stop = true;
            } else if n == 1 {
                if !done[0].returns_value() && done[0].is_internally_pure() {
                    state.set_dirty();
                    proof {
                        lemma_kept_at_remove(statements@, done@, idx, vars, level, 0);
                        idx = idx.remove(0);
                        assert(done@.remove(0) =~= done@.drop_last());
                    }
                    done.pop();
                }
                stop = true;
            } else {
                let last_noop = match &done[n - 1] {
                    Stmt::Noop(_) => true,
                    _ => false,
                };
                let second_returns = done[n - 2].returns_value();
                if last_noop && second_returns {
                    stop = true;
                } else if !done[n - 1].returns_value() && done[n - 1].is_internally_pure() {
                    state.set_dirty();
                    if second_returns {
                        let p = done[n - 1].position();
                        let ghost before = done@;
                        proof {
                            lemma_kept_at_noop(statements@, done@, idx, vars, level);
                        }
                        done.set(n - 1, Stmt::Noop(p));
                        assert forall|k: int| 0 <= k < done@.len() - 1 implies !stmt_breaks_flow(#[trigger] done@[k])
                            && !stmt_is_pure(done@[k]) by {
                            assert(done@[k] == before[k]);
                        }
                    } else {
                        let ghost before = done@;
                        proof {
                            lemma_kept_at_remove(statements@, done@, idx, vars, level, n - 1);
                            idx = idx.remove(n - 1);
                            assert(done@.remove(n - 1) =~= done@.drop_last());
                        }
                        done.pop();
                        assert forall|k: int| 0 <= k < done@.len() - 1 implies !stmt_breaks_flow(#[trigger] done@[k])
                            && !stmt_is_pure(done@[k]) by {
                            assert(done@[k] == before[k]);
                        }
                    }
                } else {
                    stop = true;
                }
            }
        }
    } else {
        while done.len() > 0 && done[done.len() - 1].is_internally_pure()
            invariant
                forall|k: int| 0 <= k < done@.len() - 1 ==> !stmt_is_pure(#[trigger] done@[k]),
                no_dead_code(done@),
                kept_at(statements@, done@, idx, vars, level),
            ends_with_break ==> done@.len() > 0 && stmt_breaks_flow(done@.last()),
                done@.len() <= statements@.len(),
                done@.len() < statements@.len() ==> state.changed,
                state.variables@.len() >= orig_len,
                state.variables@.take(orig_len as int) == start.variables@,
                state.optimization_level == start.optimization_level,
                start.changed ==> state.changed,
            decreases done@.len(),
        {
            state.set_dirty();
            let ghost before = done@;
            proof {
                lemma_kept_at_remove(statements@, done@, idx, vars, level, done@.len() - 1);
                idx = idx.remove(done@.len() - 1);
                assert(done@.remove(done@.len() - 1) =~= done@.drop_last());
            }
            done.pop();
            assert forall|k: int| 0 <= k < done@.len() - 1 implies !stmt_breaks_flow(#[trigger] done@[k])
                && !stmt_is_pure(done@[k]) by {
                assert(done@[k] == before[k]);
            }
        }
    }
    state.restore_var(orig_len);
    state.propagate_constants = orig_propagate;
    assert(state.variables@ =~= start.variables@);
    done
}

/// Optimize a block of statements: the statements after one that breaks the control flow
/// are dropped; each statement is optimized with [`optimize_stmt`] (the value of a
/// variable with [`optimize_expr`]), and the constants declared in the block with a
/// literal value are known to the statements after them (and forgotten at its end). Then
/// the pure statements are removed (all but the last when the value of the block is used;
/// a variable with a pure value only after the last statement whose value is not a
/// constant), and at the end what is pure and gives no value is dropped (or, after a
/// statement that gives the value of the block, replaced by a no-op).
pub fn optimize_stmt_block(statements: Vec<Stmt>, state: &mut OptimizerState, preserve_result: bool) -> (r: Vec<Stmt>)
    ensures
        state_kept(*old(state), *final(state)),
        r@.len() <= statements@.len(),
        no_dead_code(r@),
        r@.len() < statements@.len() ==> final(state).changed,
        final(state).propagate_constants == old(state).propagate_constants,
        forall|i: int| 0 <= i < r@.len() - 1 ==> !stmt_is_pure(#[trigger] r@[i]),
        !preserve_result && r@.len() > 0 ==> !stmt_is_internally_pure(r@.last()),
        (exists|i: int| 0 <= i < statements@.len() && stmt_breaks_flow(#[trigger] statements@[i])) ==> r@.len() > 0
            && stmt_breaks_flow(r@.last()),
        block_optimized(statements@, r@, old(state).variables@, old(state).optimization_level),
        statements@.len() == 0 ==> r@.len() == 0 && *final(state) == *old(state),
{
    let ghost parent = Stmt::Block(statements, Position::spec_none());
    proof {
        assert forall|j: int| 0 <= j < statements@.len() implies decreases_to!(parent => #[trigger] statements@[j]) by {
            assert(decreases_to!(parent => parent->Block_0));
            assert(parent->Block_0 == statements);
            assert(decreases_to!(statements => statements@));
            assert(decreases_to!(statements@ => statements@[j]));
        }
    }
    optimize_block(statements, state, preserve_result, Ghost(parent))
}

/// Can two neighbouring parts of an interpolated string be merged: two string literals
/// (joined), or a `()` or an empty string literal next to anything (dropped)?
pub open spec fn parts_merge(a: Expr, b: Expr) -> bool {
    ||| a is StringConstant && b is StringConstant
    ||| a is Unit
    ||| b is Unit
    ||| a matches Expr::StringConstant(s, _) && s@.len() == 0
    ||| b matches Expr::StringConstant(s, _) && s@.len() == 0
}

/// Are no two neighbouring parts mergeable?
pub open spec fn parts_merged(parts: Seq<Expr>) -> bool {
    forall|i: int| 0 <= i < parts.len() - 1 ==> !parts_merge(#[trigger] parts[i], parts[i + 1])
}

/// Is the part of an interpolated string a literal text: a string literal or `()` (which
/// shows as nothing)?
pub open spec fn is_text_part(e: Expr) -> bool {
    e is StringConstant || e is Unit
}

/// The text of a literal part of an interpolated string.
pub open spec fn part_text(e: Expr) -> Seq<char> {
    match e {
        Expr::StringConstant(s, _) => s@,
        _ => Seq::empty(),
    }
}

/// The parts of an interpolated string that are not literal texts, in order.
pub open spec fn code_parts(parts: Seq<Expr>) -> Seq<Expr>
    decreases parts.len(),
{
    if parts.len() == 0 {
        Seq::empty()
    } else if is_text_part(parts[0]) {
        code_parts(parts.drop_first())
    } else {
        seq![parts[0]] + code_parts(parts.drop_first())
    }
}

/// The literal text around the other parts of an interpolated string: the text before
/// the first of them, between each two, and after the last (one more than there are).
pub open spec fn text_runs(parts: Seq<Expr>) -> Seq<Seq<char>>
    decreases parts.len(),
{
    if parts.len() == 0 {
        seq![Seq::<char>::empty()]
    } else {
        let rest = text_runs(parts.drop_first());
        if is_text_part(parts[0]) {
            rest.update(0, part_text(parts[0]) + rest[0])
        } else {
            seq![Seq::<char>::empty()] + rest
        }
    }
}

/// The runs of text of two lists of parts put one after the other: the last run of the
/// first joins the first run of the second.
pub open spec fn join_runs(x: Seq<Seq<char>>, y: Seq<Seq<char>>) -> Seq<Seq<char>> {
    x.drop_last() + seq![x.last() + y[0]] + y.drop_first()
}

/// There is one more run of text than other parts.
proof fn lemma_text_runs_len(parts: Seq<Expr>)
    ensures
        text_runs(parts).len() == code_parts(parts).len() + 1,
    decreases parts.len(),
{
    if parts.len() > 0 {
        lemma_text_runs_len(parts.drop_first());
    }
}

/// The other parts of two lists put together are those of the first, then the second.
proof fn lemma_code_parts_concat(a: Seq<Expr>, b: Seq<Expr>)
    ensures
        code_parts(a + b) == code_parts(a) + code_parts(b),
    decreases a.len(),
{
    if a.len() == 0 {
        assert(a + b =~= b);
        assert(code_parts(a) + code_parts(b) =~= code_parts(b));
    } else {
        assert((a + b)[0] == a[0]);
        assert((a + b).drop_first() =~= a.drop_first() + b);
        lemma_code_parts_concat(a.drop_first(), b);
        if !is_text_part(a[0]) {
            assert(seq![a[0]] + (code_parts(a.drop_first()) + code_parts(b)) =~= (seq![a[0]] + code_parts(a.drop_first()))
                + code_parts(b));
        }
    }
}

/// The runs of text of two lists put together join the last run of the first to the
/// first run of the second.
proof fn lemma_text_runs_concat(a: Seq<Expr>, b: Seq<Expr>)
    ensures
        text_runs(a + b) == join_runs(text_runs(a), text_runs(b)),
    decreases a.len(),
{
    lemma_text_runs_len(b);
    let rb = text_runs(b);
    if a.len() == 0 {
        assert(a + b =~= b);
        assert(Seq::<char>::empty() + rb[0] =~= rb[0]);
        assert(join_runs(text_runs(a), rb) =~= rb);
    } else {
        let a1 = a.drop_first();
        assert((a + b)[0] == a[0]);
        assert((a + b).drop_first() =~= a1 + b);
        lemma_text_runs_concat(a1, b);
        lemma_text_runs_len(a1);
        let ra1 = text_runs(a1);
        let j = join_runs(ra1, rb);
        if is_text_part(a[0]) {
            let t = part_text(a[0]);
            let ra = ra1.update(0, t + ra1[0]);
            if ra1.len() == 1 {
                assert(j[0] == ra1[0] + rb[0]);
                assert(t + (ra1[0] + rb[0]) =~= (t + ra1[0]) + rb[0]);
                assert(j.update(0, t + j[0]) =~= join_runs(ra, rb));
            } else {
                assert(j[0] == ra1[0]);
                assert(j.update(0, t + j[0]) =~= join_runs(ra, rb));
            }
        } else {
            let ra = seq![Seq::<char>::empty()] + ra1;
            assert(seq![Seq::<char>::empty()] + j =~= join_runs(ra, rb));
        }
    }
}

/// Replacing a stretch of parts by one with the same other parts and the same runs of
/// text keeps both for the whole list.
proof fn lemma_parts_replace(a: Seq<Expr>, x: Seq<Expr>, y: Seq<Expr>, b: Seq<Expr>)
    requires
        code_parts(x) == code_parts(y),
        text_runs(x) == text_runs(y),
    ensures
        code_parts(a + x + b) == code_parts(a + y + b),
        text_runs(a + x + b) == text_runs(a + y + b),
{
    lemma_code_parts_concat(a, x);
    lemma_code_parts_concat(a, y);
    lemma_code_parts_concat(a + x, b);
    lemma_code_parts_concat(a + y, b);
    lemma_text_runs_concat(a, x);
    lemma_text_runs_concat(a, y);
    lemma_text_runs_concat(a + x, b);
    lemma_text_runs_concat(a + y, b);
}

/// The text that an interpolated string shows, where `shown` gives the text of each part
/// that is not a literal: the parts' texts one after the other.
pub open spec fn interpolated_text(parts: Seq<Expr>, shown: spec_fn(Expr) -> Seq<char>) -> Seq<char>
    decreases parts.len(),
{
    if parts.len() == 0 {
        Seq::empty()
    } else {
        let first = if is_text_part(parts[0]) {
            part_text(parts[0])
        } else {
            shown(parts[0])
        };
        first + interpolated_text(parts.drop_first(), shown)
    }
}

/// Runs of text with the shown texts of the other parts between them.
pub open spec fn weave(runs: Seq<Seq<char>>, codes: Seq<Expr>, shown: spec_fn(Expr) -> Seq<char>) -> Seq<char>
    decreases codes.len(),
{
    if codes.len() == 0 {
        runs[0]
    } else {
        runs[0] + shown(codes[0]) + weave(runs.drop_first(), codes.drop_first(), shown)
    }
}

/// What an interpolated string shows is its runs of text woven with its other parts.
proof fn lemma_interpolated_weave(parts: Seq<Expr>, shown: spec_fn(Expr) -> Seq<char>)
    ensures
        interpolated_text(parts, shown) == weave(text_runs(parts), code_parts(parts), shown),
    decreases parts.len(),
{
    lemma_text_runs_len(parts);
    if parts.len() == 0 {
        assert(weave(text_runs(parts), code_parts(parts), shown) =~= Seq::<char>::empty());
    } else {
        let rest = parts.drop_first();
        lemma_interpolated_weave(rest, shown);
        lemma_text_runs_len(rest);
        let r = text_runs(rest);
        let c = code_parts(rest);
        if is_text_part(parts[0]) {
            let t = part_text(parts[0]);
            let r2 = r.update(0, t + r[0]);
            assert(r2[0] == t + r[0]);
            if c.len() == 0 {
                assert(weave(r2, c, shown) == t + r[0]);
            } else {
                assert(r2.drop_first() =~= r.drop_first());
                let w = weave(r.drop_first(), c.drop_first(), shown);
                assert(weave(r2, c, shown) == (t + r[0]) + shown(c[0]) + w);
                assert((t + r[0]) + shown(c[0]) + w =~= t + (r[0] + shown(c[0]) + w));
            }
        } else {
            let r2 = seq![Seq::<char>::empty()] + r;
            let c2 = seq![parts[0]] + c;
            assert(r2.drop_first() =~= r);
            assert(c2.drop_first() =~= c);
            assert(weave(r2, c2, shown) == Seq::<char>::empty() + shown(parts[0]) + weave(r, c, shown));
            assert(Seq::<char>::empty() + shown(parts[0]) =~= shown(parts[0]));
        }
    }
}

/// Two lists of parts of an interpolated string with the same other parts, in order, and
/// the same literal text around them show the same text, whatever the other parts show.
/// Merging the parts of an interpolated string (see [`optimize_expr`]) keeps both, so the
/// optimized string shows what the original one did.
pub proof fn law_same_parts_same_text(x: Seq<Expr>, y: Seq<Expr>, shown: spec_fn(Expr) -> Seq<char>)
    requires
        code_parts(x) == code_parts(y),
        text_runs(x) == text_runs(y),
    ensures
        interpolated_text(x, shown) == interpolated_text(y, shown),
{
    lemma_interpolated_weave(x, shown);
    lemma_interpolated_weave(y, shown);
}

/// Two neighbouring parts that merge into one keep the other parts and the runs of text.
proof fn lemma_pair_merge(cur: Expr, next: Expr, m: Expr)
    requires
        (is_text_part(cur) && is_text_part(next) && is_text_part(m) && part_text(m) == part_text(cur) + part_text(
            next)) || (is_text_part(next) && part_text(next).len() == 0 && m == cur) || (is_text_part(cur)
            && part_text(cur).len() == 0 && m == next),
    ensures
        code_parts(seq![cur, next]) == code_parts(seq![m]),
        text_runs(seq![cur, next]) == text_runs(seq![m]),
{
    let x = seq![cur, next];
    let y = seq![m];
    reveal_with_fuel(code_parts, 3);
    reveal_with_fuel(text_runs, 3);
    assert(x.drop_first() =~= seq![next]);
    assert(x.drop_first().drop_first() =~= Seq::<Expr>::empty());
    assert(y.drop_first() =~= Seq::<Expr>::empty());
    let e = Seq::<char>::empty();
    if is_text_part(cur) && is_text_part(next) {
        assert(part_text(cur) + (part_text(next) + e) =~= part_text(cur) + part_text(next));
        assert(part_text(m) + e =~= part_text(m));
        assert(text_runs(x) =~= text_runs(y));
    } else if is_text_part(next) && part_text(next).len() == 0 && m == cur {
        assert(part_text(next) + e =~= e);
        assert(text_runs(x) =~= text_runs(y));
    } else {
        assert(part_text(cur) + text_runs(seq![next])[0] =~= text_runs(seq![next])[0]);
        assert(text_runs(x) =~= text_runs(y));
        assert(code_parts(x) =~= code_parts(y));
    }
}

/// Merge the neighbouring parts of an interpolated string, from the first: two string
/// literals are joined (at the position of the first), and a `()` or an empty string
/// literal is dropped.
fn merge_parts(parts: Vec<Expr>, state: &mut OptimizerState) -> (r: Vec<Expr>)
    requires
        parts@.len() > 0,
    ensures
        state_kept(*old(state), *final(state)),
        final(state).propagate_constants == old(state).propagate_constants,
        0 < r@.len() <= parts@.len(),
        r@.len() < parts@.len() ==> final(state).changed,
        parts_merged(r@),
        code_parts(r@) == code_parts(parts@),
        text_runs(r@) == text_runs(parts@),
{
    let mut rest = parts;
    let mut current = rest.remove(0);
    let mut out: Vec<Expr> = Vec::new();
    proof {
        assert(out@ + seq![current] + rest@ =~= parts@);
    }
    while rest.len() > 0
        invariant
            state_kept(*old(state), *state),
            state.propagate_constants == old(state).propagate_constants,
            out@.len() + 1 + rest@.len() <= parts@.len(),
            out@.len() + 1 + rest@.len() < parts@.len() ==> state.changed,
            parts_merged(out@),
            out@.len() > 0 ==> !parts_merge(out@.last(), current),
            code_parts(out@ + seq![current] + rest@) == code_parts(parts@),
            text_runs(out@ + seq![current] + rest@) == text_runs(parts@),
        decreases rest@.len(),
    {
        let ghost out0 = out@;
        let ghost cur0 = current;
        let ghost rest0 = rest@;
        let next = rest.remove(0);
        proof {
            assert(out0 + seq![cur0] + rest0 =~= out0 + seq![cur0, next] + rest@);
        }
        let (cur_str, cur_empty, cur_unit) = match &current {
            Expr::StringConstant(s, _) => (true, s.is_empty(), false),
            Expr::Unit(_) => (false, false, true),
            _ => (false, false, false),
        };
        let (next_str, next_empty, next_unit) = match &next {
            Expr::StringConstant(s, _) => (true, s.is_empty(), false),
            Expr::Unit(_) => (false, false, true),
            _ => (false, false, false),
        };
        if cur_str && next_str {
            state.set_dirty();
            current = match (current, next) {
                (Expr::StringConstant(a, p), Expr::StringConstant(b, _)) => Expr::StringConstant(a.concat(&b), p),
                (a, _) => a,
            };
            proof {
                lemma_pair_merge(cur0, next, current);
                lemma_parts_replace(out0, seq![cur0, next], seq![current], rest@);
            }
        } else if next_unit || next_empty {
            state.set_dirty();
            proof {
                lemma_pair_merge(cur0, next, current);
                lemma_parts_replace(out0, seq![cur0, next], seq![current], rest@);
            }
        } else if cur_unit || cur_empty {
            state.set_dirty();
            current = next;
            proof {
                lemma_pair_merge(cur0, next, current);
                lemma_parts_replace(out0, seq![cur0, next], seq![current], rest@);
            }
        } else {
            let ghost before = out@;
            out.push(current);
            assert(parts_merged(out@)) by {
                assert forall|i: int| 0 <= i < out@.len() - 1 implies !parts_merge(#[trigger] out@[i], out@[i + 1]) by {
                    if i < out@.len() - 2 {
                        assert(out@[i] == before[i] && out@[i + 1] == before[i + 1]);
                    }
                }
            }
            current = next;
            proof {
                assert(out@ + seq![current] + rest@ =~= out0 + seq![cur0, next] + rest@);
            }
        }
    }
    proof {
        assert(out@ + seq![current] + rest@ =~= out@ + seq![current]);
    }
    let ghost before = out@;
    let ghost last = current;
    out.push(current);
    assert(out@ =~= before + seq![last]);
    assert(parts_merged(out@)) by {
        assert forall|i: int| 0 <= i < out@.len() - 1 implies !parts_merge(#[trigger] out@[i], out@[i + 1]) by {
            if i < out@.len() - 2 {
                assert(out@[i] == before[i] && out@[i + 1] == before[i + 1]);
            }
        }
    }
    out
}

/// Are `vars` the variables that optimizing a script starts from in this scope: each entry
/// in order, a constant with its value (shared values flattened), a variable with none?
pub open spec fn vars_of_scope(scope: Scope, vars: Seq<(String, AccessMode, Option<Dynamic>)>) -> bool {
    &&& vars.len() == scope.spec_names().len()
    &&& forall|i: int| 0 <= i < vars.len() ==> (#[trigger] vars[i]).0@ == scope.spec_names()[i]@ && (if scope.spec_values()[i].access
        == AccessMode::ReadOnly {
        vars[i].1 == AccessMode::ReadOnly && vars[i].2 == Some(spec_flatten(scope.spec_values()[i]))
    } else {
        vars[i].1 == AccessMode::ReadWrite && vars[i].2 is None
    })
}

/// Optimize the statements of a script run in `scope`: nothing is done with optimization
/// off; otherwise the constants of the scope are known (see [`vars_of_scope`]) and the
/// statements are optimized as a block whose value is used (see [`optimize_stmt_block`]).
pub fn optimize_top_level(statements: Vec<Stmt>, scope: &Scope, optimization_level: OptimizationLevel) -> (r: Vec<Stmt>)
    requires
        scope.wf(),
    ensures
        optimization_level == OptimizationLevel::Off ==> r@ == statements@,
        optimization_level != OptimizationLevel::Off ==> exists|vars: Seq<(String, AccessMode, Option<Dynamic>)>|
            #[trigger] vars_of_scope(*scope, vars) && block_optimized(statements@, r@, vars, optimization_level),
{
    if optimization_level == OptimizationLevel::Off {
        return statements;
    }
    let mut state = OptimizerState::new(optimization_level);
    let entries = scope.iter();
    let mut i: usize = 0;
    while i < entries.len()
        invariant
            i <= entries@.len(),
            entries@.len() == scope.spec_names().len(),
            forall|k: int| 0 <= k < entries@.len() ==> (#[trigger] entries@[k]).0@ == scope.spec_names()[k]@ && entries@[k].1 == (
            scope.spec_values()[k].access == AccessMode::ReadOnly) && entries@[k].2 == spec_flatten(scope.spec_values()[k]),
            state.optimization_level == optimization_level,
            state.variables@.len() == i,
            forall|k: int| 0 <= k < i ==> (#[trigger] state.variables@[k]).0@ == scope.spec_names()[k]@ && (if scope.spec_values()[k].access
                == AccessMode::ReadOnly {
                state.variables@[k].1 == AccessMode::ReadOnly && state.variables@[k].2 == Some(spec_flatten(scope.spec_values()[k]))
            } else {
                state.variables@[k].1 == AccessMode::ReadWrite && state.variables@[k].2 is None
            }),
        decreases entries@.len() - i,
    {
        let ghost before = state.variables@;
        let ghost e = entries@[i as int];
        if entries[i].1 {
            state.push_var(entries[i].0, AccessMode::ReadOnly, Some(entries[i].2.clone()));
        } else {
            state.push_var(entries[i].0, AccessMode::ReadWrite, None);
        }
        assert forall|k: int| 0 <= k < i + 1 implies (#[trigger] state.variables@[k]).0@ == scope.spec_names()[k]@ && (if scope.spec_values()[k].access
            == AccessMode::ReadOnly {
            state.variables@[k].1 == AccessMode::ReadOnly && state.variables@[k].2 == Some(spec_flatten(scope.spec_values()[k]))
        } else {
            state.variables@[k].1 == AccessMode::ReadWrite && state.variables@[k].2 is None
        }) by {
            if k < i {
                assert(state.variables@.drop_last()[k] == state.variables@[k]);
                assert(before[k] == state.variables@[k]);
            } else {
                assert(state.variables@.last() == state.variables@[k]);
            }
        }
        i = i + 1;
    }
    let ghost vars = state.variables@;
    let r = optimize_stmt_block(statements, &mut state, true);
    assert(vars_of_scope(*scope, vars));
    r
}

/// Optimize each expression of a list in turn.
fn optimize_list(items: Vec<Expr>, state: &mut OptimizerState, Ghost(parent): Ghost<Expr>) -> (r: Vec<Expr>)
    requires
        forall|j: int| 0 <= j < items@.len() ==> decreases_to!(parent => #[trigger] items@[j]),
    ensures
        state_kept(*old(state), *final(state)),
        r@.len() == items@.len(),
        forall|j: int| 0 <= j < items@.len() ==> keeps_value(#[trigger] items@[j], r@[j], old(state).variables@),
    decreases parent, 0int,
{
    let mut rest = items;
    let mut done: Vec<Expr> = Vec::new();
    let ghost start = *state;
    while rest.len() > 0
        invariant
            state_kept(start, *state),
            start == *old(state),
            rest@ == items@.skip(done@.len() as int),
            done@.len() <= items@.len(),
            forall|j: int| 0 <= j < items@.len() ==> decreases_to!(parent => #[trigger] items@[j]),
            forall|j: int| 0 <= j < done@.len() ==> keeps_value(#[trigger] items@[j], done@[j], start.variables@),
        decreases rest@.len(),
    {
        let ghost i = done@.len() as int;
        let mut e = rest.remove(0);
        assert(e == items@[i]);
        assert(rest@ == items@.skip(i + 1));
        optimize_expr(&mut e, state, false);
        done.push(e);
    }
    done
}

/// Optimize each value of a list of named values in turn.
fn optimize_entries(items: Vec<(String, Expr)>, state: &mut OptimizerState, Ghost(parent): Ghost<Expr>) -> (r: Vec<(String, Expr)>)
    requires
        forall|j: int| 0 <= j < items@.len() ==> decreases_to!(parent => #[trigger] items@[j].1),
    ensures
        state_kept(*old(state), *final(state)),
        r@.len() == items@.len(),
        forall|j: int| 0 <= j < items@.len() ==> r@[j].0 == #[trigger] items@[j].0
            && keeps_value(items@[j].1, r@[j].1, old(state).variables@),
    decreases parent, 0int,
{
    let mut rest = items;
    let mut done: Vec<(String, Expr)> = Vec::new();
    let ghost start = *state;
    while rest.len() > 0
        invariant
            state_kept(start, *state),
            start == *old(state),
            rest@ == items@.skip(done@.len() as int),
            done@.len() <= items@.len(),
            forall|j: int| 0 <= j < items@.len() ==> decreases_to!(parent => #[trigger] items@[j].1),
            forall|j: int| 0 <= j < done@.len() ==> done@[j].0 == #[trigger] items@[j].0
                && keeps_value(items@[j].1, done@[j].1, start.variables@),
        decreases rest@.len(),
    {
        let ghost i = done@.len() as int;
        let (name, mut e) = rest.remove(0);
        assert(e == items@[i].1);
        assert(rest@ == items@.skip(i + 1));
        optimize_expr(&mut e, state, false);
        done.push((name, e));
    }
    done
}

} // verus!
