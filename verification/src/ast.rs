//! Expressions of the abstract syntax tree, as far as the library inspects them.
use vstd::prelude::*;
use crate::dynamic::{AccessMode, Dynamic, Union};
use crate::map::ObjectMap;
use crate::immutable_string::ImmutableString;
use crate::position::Position;
use crate::INT;

verus! {

/// A variable reference: its offset in the scope (if known), its namespace and the
/// hash key of the qualified name (if qualified), and its name.
#[derive(Debug)]
pub struct VariableRef {
    pub index: Option<usize>,
    pub namespace: Option<(Vec<String>, u64)>,
    pub name: String,
}

/// An operator-assignment such as `+=`: the hash keys of the operator-assignment function
/// and of the plain operator, and the text of the operator-assignment.
#[derive(Clone, Copy, Debug)]
pub struct OpAssignment {
    pub hash_op_assign: u64,
    pub hash_op: u64,
    pub op: &'static str,
}

/// An expression.
#[derive(Debug)]
pub enum Expr {
    /// A constant of any type.
    DynamicConstant(Box<Dynamic>, Position),
    /// A boolean constant.
    BoolConstant(bool, Position),
    /// An integer constant.
    IntegerConstant(INT, Position),
    /// A character constant.
    CharConstant(char, Position),
    /// A string constant.
    StringConstant(ImmutableString, Position),
    /// An interpolated string: its parts.
    InterpolatedString(Vec<Expr>, Position),
    /// An array literal: its items.
    Array(Vec<Expr>, Position),
    /// An object map literal: property names and values.
    MapLiteral(Vec<(String, Expr)>, Position),
    /// The unit value `()`.
    Unit(Position),
    /// A variable access: the short index into the scope (if any), its position and the reference.
    Variable(Option<u8>, Position, Box<VariableRef>),
    /// A property access: the property name and its position.
    Property(Box<((String, u64), (String, u64), (ImmutableString, Position))>),
    /// A statement block, at a position.
    Stmt(Position),
    /// A function call: the function name and the arguments.
    FnCall(Box<(String, Vec<Expr>)>, Position),
    /// A dot access `lhs.rhs`.
    Dot(Box<(Expr, Expr)>, Position),
    /// An index access `lhs[rhs]`.
    Index(Box<(Expr, Expr)>, Position),
    /// `lhs && rhs`.
    And(Box<(Expr, Expr)>, Position),
    /// `lhs || rhs`.
    Or(Box<(Expr, Expr)>, Position),
    /// A custom syntax expression: its inputs.
    Custom(Vec<Expr>, Position),
}

/// A statement.
#[derive(Debug)]
pub enum Stmt {
    /// No operation, at a position.
    Noop(Position),
    /// `if` condition `{` then-block `}` `else {` else-block `}`.
    If(Expr, Box<(Vec<Stmt>, Vec<Stmt>)>, Position),
    /// `while` condition `{` body `}`.
    While(Expr, Vec<Stmt>, Position),
    /// `let name = value;`, or `const name = value;` when the flag is set.
    Var(Expr, String, bool, Position),
    /// A block of statements.
    Block(Vec<Stmt>, Position),
    /// An expression as a statement.
    Expr(Expr),
    /// `return`, with or without a value.
    Return(Option<Expr>, Position),
    /// `break`.
    Break(Position),
}

/// Does the statement break the control flow (`return` or `break`), so that nothing after
/// it in its block runs?
pub open spec fn stmt_breaks_flow(s: Stmt) -> bool {
    s is Return || s is Break
}


/// Is running the statement free of side effects (and sure to end)? A no-op, a pure
/// expression, an `if` with a pure condition and pure branches, `while false`, or a block
/// of pure statements.
pub open spec fn stmt_is_pure(s: Stmt) -> bool
    decreases s,
{
    match s {
        Stmt::Noop(_) => true,
        Stmt::Expr(e) => expr_is_pure(e),
        Stmt::If(c, x, _) => expr_is_pure(c) && (forall|i: int| 0 <= i < x.0@.len() ==> stmt_is_pure(#[trigger] x.0@[i]))
            && (forall|i: int| 0 <= i < x.1@.len() ==> stmt_is_pure(#[trigger] x.1@[i])),
        Stmt::While(c, _, _) => c matches Expr::BoolConstant(false, _),
        Stmt::Block(b, _) => forall|i: int| 0 <= i < b@.len() ==> stmt_is_pure(#[trigger] b@[i]),
        _ => false,
    }
}

/// Is the statement pure within its block: a pure statement, or a variable declared with
/// a pure value (which nothing outside the block sees)?
pub open spec fn stmt_is_internally_pure(s: Stmt) -> bool {
    match s {
        Stmt::Var(e, _, _, _) => expr_is_pure(e),
        _ => stmt_is_pure(s),
    }
}

/// Does the statement give a value (`if`, a block, an expression)?
pub open spec fn stmt_returns_value(s: Stmt) -> bool {
    s is If || s is Block || s is Expr
}

/// The position of a statement.
pub open spec fn spec_stmt_position(s: Stmt) -> Position {
    match s {
        Stmt::Noop(p) => p,
        Stmt::If(_, _, p) => p,
        Stmt::While(_, _, p) => p,
        Stmt::Var(_, _, _, p) => p,
        Stmt::Block(_, p) => p,
        Stmt::Expr(e) => spec_expr_position(e),
        Stmt::Return(_, p) => p,
        Stmt::Break(p) => p,
    }
}

impl Stmt {
    /// The position of the statement.
    pub fn position(&self) -> (r: Position)
        ensures
            r == spec_stmt_position(*self),
    {
        match self {
            Stmt::Noop(p) => *p,
            Stmt::If(_, _, p) => *p,
            Stmt::While(_, _, p) => *p,
            Stmt::Var(_, _, _, p) => *p,
            Stmt::Block(_, p) => *p,
            Stmt::Expr(e) => e.position(),
            Stmt::Return(_, p) => *p,
            Stmt::Break(p) => *p,
        }
    }

    /// Does the statement give a value? See [`stmt_returns_value`].
    pub fn returns_value(&self) -> (r: bool)
        ensures
            r == stmt_returns_value(*self),
    {
        match self {
            Stmt::If(..) | Stmt::Block(..) | Stmt::Expr(..) => true,
            _ => false,
        }
    }

    /// Is the statement pure within its block? See [`stmt_is_internally_pure`].
    pub fn is_internally_pure(&self) -> (r: bool)
        ensures
            r == stmt_is_internally_pure(*self),
    {
        match self {
            Stmt::Var(e, _, _, _) => e.is_pure(),
            _ => self.is_pure(),
        }
    }

    /// Is running the statement free of side effects? See [`stmt_is_pure`].
    pub fn is_pure(&self) -> (r: bool)
        ensures
            r == stmt_is_pure(*self),
        decreases self,
    {
        match self {
            Stmt::Noop(_) => true,
            Stmt::Expr(e) => e.is_pure(),
            Stmt::If(c, x, _) => {
                if !c.is_pure() {
                    return false;
                }
                proof {
                    assert forall|j: int| 0 <= j < x.0@.len() implies decreases_to!(*self => #[trigger] x.0@[j]) by {
                        assert(decreases_to!(*self => *x));
                        assert(decreases_to!(*x => x.0));
                        assert(decreases_to!(x.0 => x.0@));
                        assert(decreases_to!(x.0@ => x.0@[j]));
                    }
                    assert forall|j: int| 0 <= j < x.1@.len() implies decreases_to!(*self => #[trigger] x.1@[j]) by {
                        assert(decreases_to!(*self => *x));
                        assert(decreases_to!(*x => x.1));
                        assert(decreases_to!(x.1 => x.1@));
                        assert(decreases_to!(x.1@ => x.1@[j]));
                    }
                }
                let mut i: usize = 0;
                while i < x.0.len()
                    invariant
                        i <= x.0@.len(),
                        forall|j: int| 0 <= j < x.0@.len() ==> decreases_to!(*self => #[trigger] x.0@[j]),
                        forall|j: int| 0 <= j < i ==> stmt_is_pure(#[trigger] x.0@[j]),
                        stmt_is_pure(*self) ==> forall|j: int| 0 <= j < x.0@.len() ==> stmt_is_pure(#[trigger] x.0@[j]),
                    decreases x.0@.len() - i,
                {
                    if !x.0[i].is_pure() {
                        return false;
                    }
                    i = i + 1;
                }
                let mut k: usize = 0;
                while k < x.1.len()
                    invariant
                        k <= x.1@.len(),
                        forall|j: int| 0 <= j < x.1@.len() ==> decreases_to!(*self => #[trigger] x.1@[j]),
                        forall|j: int| 0 <= j < k ==> stmt_is_pure(#[trigger] x.1@[j]),
                        stmt_is_pure(*self) ==> forall|j: int| 0 <= j < x.1@.len() ==> stmt_is_pure(#[trigger] x.1@[j]),
                    decreases x.1@.len() - k,
                {
                    if !x.1[k].is_pure() {
                        return false;
                    }
                    k = k + 1;
                }
                true
            },
            Stmt::While(c, _, _) => match c {
                Expr::BoolConstant(false, _) => true,
                _ => false,
            },
            Stmt::Block(b, _) => {
                proof {
                    assert forall|j: int| 0 <= j < b@.len() implies decreases_to!(*self => #[trigger] b@[j]) by {
                        assert(decreases_to!(*self => *b));
                        assert(decreases_to!(*b => b@));
                        assert(decreases_to!(b@ => b@[j]));
                    }
                }
                let mut i: usize = 0;
                while i < b.len()
                    invariant
                        i <= b@.len(),
                        forall|j: int| 0 <= j < b@.len() ==> decreases_to!(*self => #[trigger] b@[j]),
                        forall|j: int| 0 <= j < i ==> stmt_is_pure(#[trigger] b@[j]),
                        stmt_is_pure(*self) ==> forall|j: int| 0 <= j < b@.len() ==> stmt_is_pure(#[trigger] b@[j]),
                    decreases b@.len() - i,
                {
                    if !b[i].is_pure() {
                        return false;
                    }
                    i = i + 1;
                }
                true
            },
            _ => false,
        }
    }

    /// Does the statement break the control flow? See [`stmt_breaks_flow`].
    pub fn is_control_flow_break(&self) -> (r: bool)
        ensures
            r == stmt_breaks_flow(*self),
    {
        match self {
            Stmt::Return(..) | Stmt::Break(..) => true,
            _ => false,
        }
    }
}

/// The position of an expression; binary expressions are at their left operand.
pub open spec fn spec_expr_position(e: Expr) -> Position
    decreases e,
{
    match e {
        Expr::DynamicConstant(_, pos) => pos,
        Expr::BoolConstant(_, pos) => pos,
        Expr::IntegerConstant(_, pos) => pos,
        Expr::CharConstant(_, pos) => pos,
        Expr::StringConstant(_, pos) => pos,
        Expr::InterpolatedString(_, pos) => pos,
        Expr::Array(_, pos) => pos,
        Expr::MapLiteral(_, pos) => pos,
        Expr::Unit(pos) => pos,
        Expr::Variable(_, pos, _) => pos,
        Expr::Property(x) => x.2.1,
        Expr::Stmt(pos) => pos,
        Expr::FnCall(_, pos) => pos,
        Expr::Dot(x, _) => spec_expr_position(x.0),
        Expr::Index(x, _) => spec_expr_position(x.0),
        Expr::And(x, _) => spec_expr_position(x.0),
        Expr::Or(x, _) => spec_expr_position(x.0),
        Expr::Custom(_, pos) => pos,
    }
}

impl Expr {
    /// The position of the expression.
    pub fn position(&self) -> (r: Position)
        ensures
            r == spec_expr_position(*self),
        decreases self,
    {
        match self {
            Expr::DynamicConstant(_, pos) => *pos,
            Expr::BoolConstant(_, pos) => *pos,
            Expr::IntegerConstant(_, pos) => *pos,
            Expr::CharConstant(_, pos) => *pos,
            Expr::StringConstant(_, pos) => *pos,
            Expr::InterpolatedString(_, pos) => *pos,
            Expr::Array(_, pos) => *pos,
            Expr::MapLiteral(_, pos) => *pos,
            Expr::Unit(pos) => *pos,
            Expr::Variable(_, pos, _) => *pos,
            Expr::Property(x) => x.2.1,
            Expr::Stmt(pos) => *pos,
            Expr::FnCall(_, pos) => *pos,
            Expr::Dot(x, _) => x.0.position(),
            Expr::Index(x, _) => x.0.position(),
            Expr::And(x, _) => x.0.position(),
            Expr::Or(x, _) => x.0.position(),
            Expr::Custom(_, pos) => *pos,
        }
    }

    /// The name of a variable expression (a namespace-qualified one only if
    /// `non_qualified` is false); `None` for any other expression.
    pub fn get_variable_name(&self, non_qualified: bool) -> (r: Option<&str>)
        ensures
            r matches Some(n) ==> (*self matches Expr::Variable(_, _, v) && n@ == v.name@ && (!non_qualified
                || v.namespace is None)),
            r is None ==> !(*self matches Expr::Variable(_, _, v) && (!non_qualified || v.namespace is None)),
    {
        match self {
            Expr::Variable(_, _, x) => {
                if !non_qualified || x.namespace.is_none() {
                    Some(x.name.as_str())
                } else {
                    None
                }
            },
            _ => None,
        }
    }
}

/// Is the expression a literal value (including a [`Expr::DynamicConstant`])?
pub open spec fn expr_is_literal(e: Expr) -> bool {
    match e {
        Expr::DynamicConstant(..) | Expr::BoolConstant(..) | Expr::IntegerConstant(..)
        | Expr::CharConstant(..) | Expr::StringConstant(..) | Expr::Unit(..) => true,
        _ => false,
    }
}

/// The value of a literal expression (see [`expr_is_literal`]).
pub open spec fn literal_dynamic(e: Expr) -> Dynamic {
    match e {
        Expr::DynamicConstant(d, _) => *d,
        Expr::BoolConstant(b, _) => Dynamic::spec_of(Union::Bool(b)),
        Expr::IntegerConstant(i, _) => Dynamic::spec_of(Union::Int(i)),
        Expr::CharConstant(c, _) => Dynamic::spec_of(Union::Char(c)),
        Expr::StringConstant(s, _) => Dynamic::spec_of(Union::Str(s)),
        _ => Dynamic::spec_of(Union::Unit),
    }
}

/// Does the expression have a value of its own: a literal, or an array or map literal
/// whose items all have one?
pub open spec fn expr_has_literal(e: Expr) -> bool
    decreases e,
{
    match e {
        Expr::Array(x, _) => forall|i: int| 0 <= i < x@.len() ==> expr_has_literal(#[trigger] x@[i]),
        Expr::MapLiteral(x, _) => forall|i: int| 0 <= i < x@.len() ==> expr_has_literal(#[trigger] x@[i].1),
        _ => expr_is_literal(e),
    }
}

/// Is `d` the value of the expression: that of a literal, an array of the values of the
/// items of an array literal, or a map of the values of a map literal (a name given twice
/// has the last of its values)?
pub open spec fn literal_matches(e: Expr, d: Dynamic) -> bool
    decreases e,
{
    match e {
        Expr::Array(x, _) => {
            &&& d.tag == 0
            &&& d.access == AccessMode::ReadWrite
            &&& d.value matches Union::Array(a)
            &&& (*a)@.len() == x@.len()
            &&& forall|i: int| 0 <= i < x@.len() ==> literal_matches(#[trigger] x@[i], (*a)@[i])
        },
        Expr::MapLiteral(x, _) => {
            &&& d.tag == 0
            &&& d.access == AccessMode::ReadWrite
            &&& d.value matches Union::Object(m)
            &&& m.wf()
            &&& forall|k: Seq<char>| #[trigger] m@.contains_key(k) <==> exists|i: int| 0 <= i < x@.len() && x@[i].0@ == k
            &&& forall|i: int|
                0 <= i < x@.len() && (forall|j: int| i < j < x@.len() ==> x@[j].0@ != x@[i].0@) ==> literal_matches(
                    #[trigger] x@[i].1,
                    m@[x@[i].0@],
                )
        },
        _ => expr_is_literal(e) && d == literal_dynamic(e),
    }
}

/// Is the expression a constant: a literal, or an array, map or interpolated string made
/// of constants only?
pub open spec fn expr_is_constant(e: Expr) -> bool
    decreases e,
{
    match e {
        Expr::DynamicConstant(..) | Expr::BoolConstant(..) | Expr::IntegerConstant(..)
        | Expr::CharConstant(..) | Expr::StringConstant(..) | Expr::Unit(..) => true,
        Expr::InterpolatedString(x, _) => forall|i: int| 0 <= i < x@.len() ==> expr_is_constant(#[trigger] x@[i]),
        Expr::Array(x, _) => forall|i: int| 0 <= i < x@.len() ==> expr_is_constant(#[trigger] x@[i]),
        Expr::MapLiteral(x, _) => forall|i: int| 0 <= i < x@.len() ==> expr_is_constant(#[trigger] x@[i].1),
        _ => false,
    }
}

/// Is evaluating the expression free of side effects: a constant, a variable, or an
/// array, map, interpolated string, `&&` or `||` made of such expressions?
pub open spec fn expr_is_pure(e: Expr) -> bool
    decreases e,
{
    match e {
        Expr::InterpolatedString(x, _) => forall|i: int| 0 <= i < x@.len() ==> expr_is_pure(#[trigger] x@[i]),
        Expr::Array(x, _) => forall|i: int| 0 <= i < x@.len() ==> expr_is_pure(#[trigger] x@[i]),
        Expr::MapLiteral(x, _) => forall|i: int| 0 <= i < x@.len() ==> expr_is_pure(#[trigger] x@[i].1),
        Expr::And(x, _) => expr_is_pure(x.0) && expr_is_pure(x.1),
        Expr::Or(x, _) => expr_is_pure(x.0) && expr_is_pure(x.1),
        Expr::Variable(..) => true,
        _ => expr_is_constant(e),
    }
}

/// The expression with its own position replaced by `p` (for `.`, `[]`, `&&` and `||`,
/// the position of the operator; for a property, that of its name).
pub open spec fn with_position(e: Expr, p: Position) -> Expr {
    match e {
        Expr::DynamicConstant(v, _) => Expr::DynamicConstant(v, p),
        Expr::BoolConstant(v, _) => Expr::BoolConstant(v, p),
        Expr::IntegerConstant(v, _) => Expr::IntegerConstant(v, p),
        Expr::CharConstant(v, _) => Expr::CharConstant(v, p),
        Expr::StringConstant(v, _) => Expr::StringConstant(v, p),
        Expr::InterpolatedString(v, _) => Expr::InterpolatedString(v, p),
        Expr::Array(v, _) => Expr::Array(v, p),
        Expr::MapLiteral(v, _) => Expr::MapLiteral(v, p),
        Expr::Unit(_) => Expr::Unit(p),
        Expr::Variable(i, _, v) => Expr::Variable(i, p, v),
        Expr::Property(x) => Expr::Property(Box::new((x.0, x.1, (x.2.0, p)))),
        Expr::Stmt(_) => Expr::Stmt(p),
        Expr::FnCall(x, _) => Expr::FnCall(x, p),
        Expr::Dot(x, _) => Expr::Dot(x, p),
        Expr::Index(x, _) => Expr::Index(x, p),
        Expr::And(x, _) => Expr::And(x, p),
        Expr::Or(x, _) => Expr::Or(x, p),
        Expr::Custom(x, _) => Expr::Custom(x, p),
    }
}

/// The expression for a constant value: a literal for the unit, an integer, a character,
/// a string or a boolean, a [`Expr::DynamicConstant`] for any other value.
pub open spec fn expr_from_dynamic(value: Dynamic, pos: Position) -> Expr {
    match value.value {
        Union::Unit => Expr::Unit(pos),
        Union::Int(i) => Expr::IntegerConstant(i, pos),
        Union::Char(c) => Expr::CharConstant(c, pos),
        Union::Str(s) => Expr::StringConstant(s, pos),
        Union::Bool(b) => Expr::BoolConstant(b, pos),
        _ => Expr::DynamicConstant(Box::new(value), pos),
    }
}

impl Expr {
    /// Replace the position of the expression; see [`with_position`].
    pub fn set_position(&mut self, new_pos: Position)
        ensures
            *final(self) == with_position(*old(self), new_pos),
    {
        match self {
            Expr::DynamicConstant(_, pos) => *pos = new_pos,
            Expr::BoolConstant(_, pos) => *pos = new_pos,
            Expr::IntegerConstant(_, pos) => *pos = new_pos,
            Expr::CharConstant(_, pos) => *pos = new_pos,
            Expr::StringConstant(_, pos) => *pos = new_pos,
            Expr::InterpolatedString(_, pos) => *pos = new_pos,
            Expr::Array(_, pos) => *pos = new_pos,
            Expr::MapLiteral(_, pos) => *pos = new_pos,
            Expr::Unit(pos) => *pos = new_pos,
            Expr::Variable(_, pos, _) => *pos = new_pos,
            Expr::Stmt(pos) => *pos = new_pos,
            Expr::FnCall(_, pos) => *pos = new_pos,
            Expr::Dot(_, pos) => *pos = new_pos,
            Expr::Index(_, pos) => *pos = new_pos,
            Expr::And(_, pos) => *pos = new_pos,
            Expr::Or(_, pos) => *pos = new_pos,
            Expr::Custom(_, pos) => *pos = new_pos,
            Expr::Property(x) => x.2.1 = new_pos,
        }
    }

    /// The expression for a constant value; see [`expr_from_dynamic`].
    pub fn from_dynamic(value: Dynamic, pos: Position) -> (r: Expr)
        ensures
            r == expr_from_dynamic(value, pos),
    {
        match &value.value {
            Union::Unit => Expr::Unit(pos),
            Union::Int(i) => Expr::IntegerConstant(*i, pos),
            Union::Char(c) => Expr::CharConstant(*c, pos),
            Union::Str(s) => Expr::StringConstant(s.clone(), pos),
            Union::Bool(b) => Expr::BoolConstant(*b, pos),
            _ => Expr::DynamicConstant(Box::new(value), pos),
        }
    }

    /// The value of the expression, where it has one of its own (see
    /// [`expr_has_literal`] and [`literal_matches`]); `None` otherwise.
    pub fn get_literal_value(&self) -> (r: Option<Dynamic>)
        ensures
            r is Some == expr_has_literal(*self),
            r matches Some(d) ==> literal_matches(*self, d),
        decreases self,
    {
        match self {
            Expr::DynamicConstant(d, _) => Some((**d).clone()),
            Expr::BoolConstant(b, _) => Some(Dynamic::from_bool(*b)),
            Expr::IntegerConstant(i, _) => Some(Dynamic::from_int(*i)),
            Expr::CharConstant(c, _) => Some(Dynamic::from_char(*c)),
            Expr::StringConstant(s, _) => Some(Dynamic::from_string(s.clone())),
            Expr::Unit(_) => Some(Dynamic::unit()),
            Expr::Array(x, _) => {
                proof {
                    assert forall|j: int| 0 <= j < x@.len() implies decreases_to!(*self => #[trigger] x@[j]) by {
                        assert(decreases_to!(*self => *x));
                        assert(decreases_to!(*x => x@));
                        assert(decreases_to!(x@ => x@[j]));
                    }
                }
                let mut items: Vec<Dynamic> = Vec::new();
                let mut i: usize = 0;
                while i < x.len()
                    invariant
                        i <= x@.len(),
                        items@.len() == i,
                        forall|j: int| 0 <= j < x@.len() ==> decreases_to!(*self => #[trigger] x@[j]),
                        forall|j: int| 0 <= j < i ==> expr_has_literal(#[trigger] x@[j]) && literal_matches(x@[j], items@[j]),
                        expr_has_literal(*self) == (forall|j: int| 0 <= j < x@.len() ==> expr_has_literal(#[trigger] x@[j])),
                    decreases x@.len() - i,
                {
                    match x[i].get_literal_value() {
                        Some(v) => {
                            items.push(v);
                        },
                        None => {
                            return None;
                        },
                    }
                    i = i + 1;
                }
                let d = Dynamic::from_array(items);
                proof {
                    let a = d.value->Array_0;
                    assert forall|j: int| 0 <= j < x@.len() implies literal_matches(#[trigger] x@[j], (*a)@[j]) by {
                        assert((*a)@[j] == items@[j]);
                    }
                }
                Some(d)
            },
            Expr::MapLiteral(x, _) => {
                proof {
                    assert forall|j: int| 0 <= j < x@.len() implies decreases_to!(*self => #[trigger] x@[j].1) by {
                        assert(decreases_to!(*self => *x));
                        assert(decreases_to!(*x => x@));
                        assert(decreases_to!(x@ => x@[j]));
                        assert(decreases_to!(x@[j] => x@[j].1));
                    }
                }
                let mut m = ObjectMap::new();
                let mut i: usize = 0;
                while i < x.len()
                    invariant
                        i <= x@.len(),
                        m.wf(),
                        forall|j: int| 0 <= j < x@.len() ==> decreases_to!(*self => #[trigger] x@[j].1),
                        forall|j: int| 0 <= j < i ==> expr_has_literal(#[trigger] x@[j].1),
                        expr_has_literal(*self) == (forall|j: int| 0 <= j < x@.len() ==> expr_has_literal(#[trigger] x@[j].1)),
                        forall|k: Seq<char>| #[trigger] m@.contains_key(k) <==> exists|j: int| 0 <= j < i && x@[j].0@ == k,
                        forall|j: int|
                            0 <= j < i && (forall|l: int| j < l < i ==> x@[l].0@ != x@[j].0@) ==> literal_matches(
                                #[trigger] x@[j].1,
                                m@[x@[j].0@],
                            ),
                    decreases x@.len() - i,
                {
                    match x[i].1.get_literal_value() {
                        Some(v) => {
                            let ghost before = m@;
                            let ghost ii = i as int;
                            m.insert(x[i].0.clone(), v);
                            proof {
                                assert forall|k: Seq<char>| #[trigger] m@.contains_key(k) <==> exists|j: int| 0 <= j < ii + 1
                                    && x@[j].0@ == k by {
                                    if m@.contains_key(k) && k != x@[ii].0@ {
                                        assert(before.contains_key(k));
                                    }
                                    if exists|j: int| 0 <= j < ii + 1 && x@[j].0@ == k {
                                        let j = choose|j: int| 0 <= j < ii + 1 && x@[j].0@ == k;
                                        if j < ii {
                                            assert(before.contains_key(k));
                                        }
                                    }
                                }
                                assert forall|j: int|
                                    0 <= j < ii + 1 && (forall|l: int| j < l < ii + 1 ==> x@[l].0@ != x@[j].0@) implies literal_matches(
                                    #[trigger] x@[j].1,
                                    m@[x@[j].0@],
                                ) by {
                                    if j < ii {
                                        assert(x@[ii].0@ != x@[j].0@);
                                        assert(forall|l: int| j < l < ii ==> x@[l].0@ != x@[j].0@);
                                    }
                                }
                            }
                        },
                        None => {
                            return None;
                        },
                    }
                    i = i + 1;
                }
                Some(Dynamic::from_map(m))
            },
            _ => None,
        }
    }

    /// Is the expression a literal value? See [`expr_is_literal`].
    pub fn is_literal(&self) -> (r: bool)
        ensures
            r == expr_is_literal(*self),
    {
        match self {
            Expr::DynamicConstant(..) | Expr::BoolConstant(..) | Expr::IntegerConstant(..)
            | Expr::CharConstant(..) | Expr::StringConstant(..) | Expr::Unit(..) => true,
            _ => false,
        }
    }

    /// Is the expression a constant? See [`expr_is_constant`].
    pub fn is_constant(&self) -> (r: bool)
        ensures
            r == expr_is_constant(*self),
        decreases self,
    {
        match self {
            Expr::InterpolatedString(x, _) | Expr::Array(x, _) => {
                proof {
                    assert forall|j: int| 0 <= j < x@.len() implies decreases_to!(*self => #[trigger] x@[j]) by {
                        assert(decreases_to!(*self => *x));
                        assert(decreases_to!(*x => x@));
                        assert(decreases_to!(x@ => x@[j]));
                    }
                }
                let mut i: usize = 0;
                while i < x.len()
                    invariant
                        i <= x@.len(),
                        forall|j: int| 0 <= j < x@.len() ==> decreases_to!(*self => #[trigger] x@[j]),
                        expr_is_constant(*self) == (forall|j: int| 0 <= j < x@.len() ==> expr_is_constant(#[trigger] x@[j])),
                        forall|j: int| 0 <= j < i ==> expr_is_constant(#[trigger] x@[j]),
                    decreases x@.len() - i,
                {
                    if !x[i].is_constant() {
                        return false;
                    }
                    i = i + 1;
                }
                true
            },
            Expr::MapLiteral(x, _) => {
                proof {
                    assert forall|j: int| 0 <= j < x@.len() implies decreases_to!(*self => #[trigger] x@[j].1) by {
                        assert(decreases_to!(*self => *x));
                        assert(decreases_to!(*x => x@));
                        assert(decreases_to!(x@ => x@[j]));
                        assert(decreases_to!(x@[j] => x@[j].1));
                    }
                }
                let mut i: usize = 0;
                while i < x.len()
                    invariant
                        i <= x@.len(),
                        forall|j: int| 0 <= j < x@.len() ==> decreases_to!(*self => #[trigger] x@[j].1),
                        expr_is_constant(*self) == (forall|j: int| 0 <= j < x@.len() ==> expr_is_constant(#[trigger] x@[j].1)),
                        forall|j: int| 0 <= j < i ==> expr_is_constant(#[trigger] x@[j].1),
                    decreases x@.len() - i,
                {
                    if !x[i].1.is_constant() {
                        return false;
                    }
                    i = i + 1;
                }
                true
            },
            Expr::DynamicConstant(..) | Expr::BoolConstant(..) | Expr::IntegerConstant(..)
            | Expr::CharConstant(..) | Expr::StringConstant(..) | Expr::Unit(..) => true,
            _ => false,
        }
    }

    /// Is evaluating the expression free of side effects? See [`expr_is_pure`].
    pub fn is_pure(&self) -> (r: bool)
        ensures
            r == expr_is_pure(*self),
        decreases self,
    {
        match self {
            Expr::InterpolatedString(x, _) | Expr::Array(x, _) => {
                proof {
                    assert forall|j: int| 0 <= j < x@.len() implies decreases_to!(*self => #[trigger] x@[j]) by {
                        assert(decreases_to!(*self => *x));
                        assert(decreases_to!(*x => x@));
                        assert(decreases_to!(x@ => x@[j]));
                    }
                }
                let mut i: usize = 0;
                while i < x.len()
                    invariant
                        i <= x@.len(),
                        forall|j: int| 0 <= j < x@.len() ==> decreases_to!(*self => #[trigger] x@[j]),
                        expr_is_pure(*self) == (forall|j: int| 0 <= j < x@.len() ==> expr_is_pure(#[trigger] x@[j])),
                        forall|j: int| 0 <= j < i ==> expr_is_pure(#[trigger] x@[j]),
                    decreases x@.len() - i,
                {
                    if !x[i].is_pure() {
                        return false;
                    }
                    i = i + 1;
                }
                true
            },
            Expr::MapLiteral(x, _) => {
                proof {
                    assert forall|j: int| 0 <= j < x@.len() implies decreases_to!(*self => #[trigger] x@[j].1) by {
                        assert(decreases_to!(*self => *x));
                        assert(decreases_to!(*x => x@));
                        assert(decreases_to!(x@ => x@[j]));
                        assert(decreases_to!(x@[j] => x@[j].1));
                    }
                }
                let mut i: usize = 0;
                while i < x.len()
                    invariant
                        i <= x@.len(),
                        forall|j: int| 0 <= j < x@.len() ==> decreases_to!(*self => #[trigger] x@[j].1),
                        expr_is_pure(*self) == (forall|j: int| 0 <= j < x@.len() ==> expr_is_pure(#[trigger] x@[j].1)),
                        forall|j: int| 0 <= j < i ==> expr_is_pure(#[trigger] x@[j].1),
                    decreases x@.len() - i,
                {
                    if !x[i].1.is_pure() {
                        return false;
                    }
                    i = i + 1;
                }
                true
            },
            Expr::And(x, _) | Expr::Or(x, _) => x.0.is_pure() && x.1.is_pure(),
            Expr::Variable(..) => true,
            _ => self.is_constant(),
        }
    }
}

} // verus!
