//! Evaluation support: the stack of imported modules, mutation targets, limits and
//! the names of special functions.
use std::rc::Rc;
use vstd::prelude::*;
use crate::ast::{Expr, OpAssignment};
use crate::dynamic::{capped, data_sizes, spec_flatten, spec_type_desc, AccessMode, Dynamic, Union};
use crate::error::{spec_position, spec_with_position, EvalAltResult};
use crate::fn_native::shared_make_mut;
use crate::fn_ptr::FN_ANONYMOUS;
use crate::immutable_string::ImmutableString;
use crate::map::ObjectMap;
use crate::module::Module;
use crate::position::Position;
use crate::scope::{last_index_of, Scope};
use crate::static_vec::{static_modules, static_names, static_values, StaticVec};
use crate::packages::logic::{bit_of, with_bit};
use crate::text::{concat_str, has_prefix, starts_with, str_chars, str_eq, string_from_chars};
use crate::INT;

verus! {

/// Maximum depth of the call stack (optimized builds).
pub const MAX_CALL_STACK_DEPTH: usize = 64;
/// Maximum depth of expressions at global level (optimized builds).
pub const MAX_EXPR_DEPTH: usize = 64;
/// Maximum depth of expressions inside functions (optimized builds).
pub const MAX_FUNCTION_EXPR_DEPTH: usize = 32;
/// Maximum number of parameters of a dynamically called function.
pub const MAX_DYNAMIC_PARAMETERS: usize = 16;

pub const KEYWORD_PRINT: &'static str = "print";
pub const KEYWORD_DEBUG: &'static str = "debug";
pub const KEYWORD_TYPE_OF: &'static str = "type_of";
pub const KEYWORD_EVAL: &'static str = "eval";
pub const KEYWORD_FN_PTR: &'static str = "Fn";
pub const KEYWORD_FN_PTR_CALL: &'static str = "call";
pub const KEYWORD_FN_PTR_CURRY: &'static str = "curry";
pub const KEYWORD_IS_SHARED: &'static str = "is_shared";
pub const KEYWORD_IS_DEF_VAR: &'static str = "is_def_var";
pub const KEYWORD_IS_DEF_FN: &'static str = "is_def_fn";
pub const KEYWORD_THIS: &'static str = "this";
pub const KEYWORD_GLOBAL: &'static str = "global";
/// Prefix of property getter function names.
pub const FN_GET: &'static str = "get$";
/// Prefix of property setter function names.
pub const FN_SET: &'static str = "set$";
pub const FN_IDX_GET: &'static str = "index$get$";
pub const FN_IDX_SET: &'static str = "index$set$";
/// Standard equality comparison operator.
pub const OP_EQUALS: &'static str = "==";
/// Standard method function for containment testing.
pub const OP_CONTAINS: &'static str = "contains";

/// The name of the getter function of a property.
pub fn make_getter(id: &str) -> (r: String)
    ensures
        r@ == FN_GET@ + id@,
{
    concat_str(FN_GET, id)
}

/// The name of the setter function of a property.
pub fn make_setter(id: &str) -> (r: String)
    ensures
        r@ == FN_SET@ + id@,
{
    concat_str(FN_SET, id)
}

/// Is this function an anonymous function?
pub fn is_anonymous_fn(fn_name: &str) -> (r: bool)
    ensures
        r == has_prefix(fn_name@, FN_ANONYMOUS@),
{
    starts_with(fn_name, FN_ANONYMOUS)
}

/// A stack of imported modules: each module with the name it was imported under.
pub struct Imports {
    keys: StaticVec<String>,
    modules: StaticVec<Rc<Module>>,
}

impl Imports {
    /// The names, in import order.
    pub closed spec fn names(&self) -> Seq<String> {
        static_names(self.keys)
    }

    /// The modules, in import order.
    pub closed spec fn mods(&self) -> Seq<Rc<Module>> {
        static_modules(self.modules)
    }

    /// There is one name per module.
    pub closed spec fn wf(&self) -> bool {
        self.names().len() == self.mods().len()
    }

    /// Create a new, empty stack of imported modules.
    pub fn new() -> (r: Imports)
        ensures
            r.wf(),
            r.names() == Seq::<String>::empty(),
            r.mods() == Seq::<Rc<Module>>::empty(),
    {
        Imports { keys: StaticVec::new_names(), modules: StaticVec::new_modules() }
    }

    /// The number of imported modules.
    pub fn len(&self) -> (r: usize)
        requires
            self.wf(),
        ensures
            r == self.names().len(),
            r == self.mods().len(),
    {
        self.keys.names_len()
    }

    /// Is the stack empty?
    pub fn is_empty(&self) -> (r: bool)
        requires
            self.wf(),
        ensures
            r == (self.mods().len() == 0),
    {
        self.keys.names_len() == 0
    }

    /// The imported module at a particular index.
    pub fn get(&self, index: usize) -> (r: Option<Rc<Module>>)
        ensures
            index < self.mods().len() ==> r == Some(self.mods()[index as int]),
            index >= self.mods().len() ==> r is None,
    {
        let m = self.modules.modules_slice();
        if index < m.len() {
            Some(Rc::clone(&m[index]))
        } else {
            None
        }
    }

    /// The index of the module most recently imported under `name`.
    pub fn find(&self, name: &str) -> (r: Option<usize>)
        ensures
            r matches Some(i) ==> i < self.names().len() && self.names()[i as int]@ == name@
                && forall|j: int| i < j < self.names().len() ==> (#[trigger] self.names()[j])@ != name@,
            r is None ==> forall|j: int| 0 <= j < self.names().len() ==> (#[trigger] self.names()[j])@ != name@,
    {
        let keys = self.keys.names_slice();
        let mut i = keys.len();
        while i > 0
            invariant
                i <= keys@.len(),
                keys@ == self.names(),
                forall|j: int| i <= j < keys@.len() ==> (#[trigger] keys@[j])@ != name@,
            decreases i,
        {
            i = i - 1;
            if str_eq(keys[i].as_str(), name) {
                return Some(i);
            }
        }
        None
    }

    /// Push an imported module onto the stack.
    pub fn push(&mut self, name: String, module: Rc<Module>)
        requires
            old(self).wf(),
            old(self).names().len() < 0x8000_0000_0000_0000,
        ensures
            final(self).wf(),
            final(self).names() == old(self).names().push(name),
            final(self).mods() == old(self).mods().push(module),
    {
        self.keys.push_name(name);
        self.modules.push_module(module);
    }

    /// Push each of the given modules, with its name, onto the stack, in order.
    pub fn extend(&mut self, items: Vec<(String, Rc<Module>)>)
        requires
            old(self).wf(),
            old(self).names().len() + items@.len() < 0x8000_0000_0000_0000,
        ensures
            final(self).wf(),
            final(self).names() == old(self).names() + items@.map_values(|p: (String, Rc<Module>)| p.0),
            final(self).mods() == old(self).mods() + items@.map_values(|p: (String, Rc<Module>)| p.1),
    {
        let mut items = items;
        let ghost all = items@;
        let mut k: usize = 0;
        let n = items.len();
        while k < n
            invariant
                self.wf(),
                n == all.len(),
                k <= n,
                items@ == all.skip(k as int),
                old(self).names().len() + all.len() < 0x8000_0000_0000_0000,
                self.names() == old(self).names() + all.take(k as int).map_values(|p: (String, Rc<Module>)| p.0),
                self.mods() == old(self).mods() + all.take(k as int).map_values(|p: (String, Rc<Module>)| p.1),
            decreases n - k,
        {
            let (name, module) = items.remove(0);
            assert(all.skip(k as int)[0] == all[k as int]);
            assert(all.skip(k as int).remove(0) == all.skip(k + 1));
            assert(all.take(k + 1) == all.take(k as int).push(all[k as int]));
            assert(all.take(k + 1).map_values(|p: (String, Rc<Module>)| p.0) == all.take(k as int).map_values(
                |p: (String, Rc<Module>)| p.0,
            ).push(all[k as int].0));
            assert(all.take(k + 1).map_values(|p: (String, Rc<Module>)| p.1) == all.take(k as int).map_values(
                |p: (String, Rc<Module>)| p.1,
            ).push(all[k as int].1));
            self.push(name, module);
            k = k + 1;
        }
        assert(all.take(n as int) == all);
    }

    /// Truncate the stack of imported modules to a particular length.
    pub fn truncate(&mut self, size: usize)
        requires
            old(self).wf(),
        ensures
            final(self).wf(),
            size < old(self).names().len() ==> final(self).names() == old(self).names().take(size as int)
                && final(self).mods() == old(self).mods().take(size as int),
            size >= old(self).names().len() ==> final(self).names() == old(self).names()
                && final(self).mods() == old(self).mods(),
    {
        self.keys.truncate_names(size);
        self.modules.truncate_modules(size);
    }

    /// The imported modules with their names, most recent first.
    pub fn iter(&self) -> (r: Vec<(&str, &Module)>)
        requires
            self.wf(),
        ensures
            r@.len() == self.names().len(),
            forall|i: int| 0 <= i < r@.len() ==> (#[trigger] r@[i]).0@ == self.names()[r@.len() - 1 - i]@
                && *r@[i].1 == *self.mods()[r@.len() - 1 - i],
    {
        let keys = self.keys.names_slice();
        let mods = self.modules.modules_slice();
        let n = keys.len();
        let mut r: Vec<(&str, &Module)> = Vec::new();
        let mut i = n;
        while i > 0
            invariant
                i <= n == keys@.len() == mods@.len(),
                keys@ == self.names(),
                mods@ == self.mods(),
                r@.len() == n - i,
                forall|k: int| 0 <= k < r@.len() ==> (#[trigger] r@[k]).0@ == keys@[n - 1 - k]@
                    && *r@[k].1 == *mods@[n - 1 - k],
            decreases i,
        {
            i = i - 1;
            r.push((keys[i].as_str(), &*mods[i]));
        }
        r
    }

    /// Does any imported module hold the qualified function with this hash key?
    pub fn contains_fn(&self, hash: u64) -> (r: bool)
        ensures
            r == exists|i: int| 0 <= i < self.mods().len() && (#[trigger] self.mods()[i]).qualified_fns@.contains(hash),
    {
        let mods = self.modules.modules_slice();
        let mut i: usize = 0;
        while i < mods.len()
            invariant
                i <= mods@.len(),
                mods@ == self.mods(),
                forall|j: int| 0 <= j < i ==> !(#[trigger] mods@[j]).qualified_fns@.contains(hash),
            decreases mods.len() - i,
        {
            if mods[i].contains_qualified_fn(hash) {
                return true;
            }
            i = i + 1;
        }
        false
    }

    /// Does any imported module provide an iterator for this type key?
    pub fn contains_iter(&self, type_key: u64) -> (r: bool)
        ensures
            r == exists|i: int, j: int| 0 <= i < self.mods().len() && 0 <= j < self.mods()[i].qualified_iters@.len()
                && (#[trigger] self.mods()[i].qualified_iters@[j]).0 == type_key,
    {
        let mods = self.modules.modules_slice();
        let mut i: usize = 0;
        while i < mods.len()
            invariant
                i <= mods@.len(),
                mods@ == self.mods(),
                forall|k: int, j: int| 0 <= k < i && 0 <= j < mods@[k].qualified_iters@.len() ==> (#[trigger] mods@[k].qualified_iters@[j]).0 != type_key,
            decreases mods.len() - i,
        {
            if mods[i].contains_qualified_iter(type_key) {
                return true;
            }
            i = i + 1;
        }
        false
    }

    /// The iterator for a type key, from the most recently imported module that has one.
    pub fn get_iter(&self, type_key: u64) -> (r: Option<u64>)
        ensures
            r matches Some(h) ==> exists|i: int, j: int| 0 <= i < self.mods().len() && 0 <= j < self.mods()[i].qualified_iters@.len()
                && self.mods()[i].qualified_iters@[j] == (type_key, h),
            r is None ==> forall|i: int, j: int| 0 <= i < self.mods().len() && 0 <= j < self.mods()[i].qualified_iters@.len()
                ==> (#[trigger] self.mods()[i].qualified_iters@[j]).0 != type_key,
    {
        let mods = self.modules.modules_slice();
        let mut i = mods.len();
        while i > 0
            invariant
                i <= mods@.len(),
                mods@ == self.mods(),
                forall|k: int, j: int| i <= k < mods@.len() && 0 <= j < mods@[k].qualified_iters@.len() ==> (#[trigger] mods@[k].qualified_iters@[j]).0 != type_key,
            decreases i,
        {
            i = i - 1;
            match mods[i].get_qualified_iter(type_key) {
                Some(h) => {
                    return Some(h);
                },
                None => {},
            }
        }
        None
    }
}

/// The kind of chaining: indexing (`[]`) or dotting (`.`).
#[derive(Clone, Copy, PartialEq, Eq, Structural, Debug, Hash)]
pub enum ChainType {
    Indexing,
    Dotting,
}

/// Value of a chaining argument.
pub enum ChainArgument {
    /// Dot-property access.
    Property(Position),
    /// Arguments to a dot method call, plus the position of the first argument.
    MethodCallArgs(StaticVec<Dynamic>, Position),
    /// Index value and its position.
    IndexValue(Dynamic, Position),
}

impl ChainArgument {
    /// The index value, if this is one.
    pub fn into_index_value(self) -> (r: Option<Dynamic>)
        ensures
            r == (match self {
                ChainArgument::IndexValue(v, _) => Some(v),
                _ => None,
            }),
    {
        match self {
            ChainArgument::IndexValue(value, _) => Some(value),
            _ => None,
        }
    }

    /// The method call arguments and their position, if this is a method call.
    pub fn into_fn_call_args(self) -> (r: Option<(StaticVec<Dynamic>, Position)>)
        ensures
            r == (match self {
                ChainArgument::MethodCallArgs(v, p) => Some((v, p)),
                _ => None,
            }),
    {
        match self {
            ChainArgument::MethodCallArgs(values, pos) => Some((values, pos)),
            _ => None,
        }
    }
}

/// The kinds of values a [`Target`] can be tested for.
#[derive(Clone, Copy, PartialEq, Eq, Structural, Debug)]
pub enum ValueKind {
    Unit,
    Bool,
    Str,
    Char,
    Int,
}

/// Is the (unwrapped) value of kind `k`?
pub open spec fn is_kind(d: Dynamic, k: ValueKind) -> bool {
    match k {
        ValueKind::Unit => spec_flatten(d).value is Unit,
        ValueKind::Bool => spec_flatten(d).value is Bool,
        ValueKind::Str => spec_flatten(d).value is Str,
        ValueKind::Char => spec_flatten(d).value is Char,
        ValueKind::Int => spec_flatten(d).value is Int,
    }
}

fn value_is_kind(d: &Dynamic, k: ValueKind) -> (r: bool)
    ensures
        r == is_kind(*d, k),
    decreases d,
{
    match &d.value {
        Union::Shared(inner) => value_is_kind(inner, k),
        Union::Unit => k == ValueKind::Unit,
        Union::Bool(_) => k == ValueKind::Bool,
        Union::Str(_) => k == ValueKind::Str,
        Union::Char(_) => k == ValueKind::Char,
        Union::Int(_) => k == ValueKind::Int,
        Union::Array(_) => false,
        Union::Object(_) => false,
        Union::Variant(_) => false,
    }
}

/// A mutation target for an expression with side effects.
#[derive(Debug)]
pub enum Target<'a> {
    /// A mutable reference to a value somewhere.
    RefMut(&'a mut Dynamic),
    /// A mutable reference into a shared value, together with the shared container.
    LockGuard((&'a mut Dynamic, Dynamic)),
    /// A temporary value (mutating it has no side effects).
    TempValue(Dynamic),
    /// A bit inside an integer: the integer, the bit index and the bit's value.
    BitField(&'a mut Dynamic, usize, Dynamic),
    /// A character inside a string: the string, the character index and the character.
    StringChar(&'a mut Dynamic, usize, Dynamic),
}

/// The mismatch error raised when a bit field or string character is given a value of
/// the wrong type.
pub open spec fn is_mismatch_error(e: EvalAltResult, requested: Seq<char>, actual: Seq<char>) -> bool {
    e matches EvalAltResult::ErrorMismatchDataType(r, a, p) && r@ == requested && a@ == actual && p
        == Position::spec_none()
}

/// The text with the character at `index` replaced (unchanged if there is none).
pub open spec fn replace_char(s: Seq<char>, index: int, c: char) -> Seq<char> {
    if 0 <= index < s.len() {
        s.update(index, c)
    } else {
        s
    }
}

impl<'a> Target<'a> {
    /// The value that the target refers to or holds.
    pub open spec fn spec_value(&self) -> Dynamic {
        match *self {
            Target::RefMut(d) => *d,
            Target::LockGuard((d, _)) => *d,
            Target::TempValue(v) => v,
            Target::BitField(_, _, v) => v,
            Target::StringChar(_, _, v) => v,
        }
    }

    /// A target for a value: a shared value is reached through its container (which is
    /// kept alongside), any other value directly.
    pub fn from(value: &'a mut Dynamic) -> (r: Target<'a>)
        ensures
            old(value).value matches Union::Shared(inner) ==> (r matches Target::LockGuard((g, c)) && *g == *inner
                && c == *old(value) && *final(value) == (Dynamic {
                value: Union::Shared(Box::new(*final(g))),
                ..*old(value)
            })),
            !(old(value).value is Shared) ==> (r matches Target::RefMut(v) && *v == *old(value) && *final(v)
                == *final(value)),
    {
        if value.is_shared() {
            let container = value.clone();
            match &mut value.value {
                Union::Shared(inner) => Target::LockGuard((&mut **inner, container)),
                _ => Target::TempValue(container),
            }
        } else {
            Target::RefMut(value)
        }
    }

    /// The value that the target refers to or holds.
    pub fn deref(&self) -> (r: &Dynamic)
        ensures
            *r == self.spec_value(),
    {
        match self {
            Target::RefMut(r) => &**r,
            Target::LockGuard((r, _)) => &**r,
            Target::TempValue(r) => r,
            Target::BitField(_, _, r) => r,
            Target::StringChar(_, _, r) => r,
        }
    }

    /// The value that the target refers to or holds, for writing; the target keeps its
    /// kind and what it writes back into.
    pub fn deref_mut(&mut self) -> (r: &mut Dynamic)
        ensures
            *r == old(self).spec_value(),
            final(self).spec_value() == *final(r),
            *old(self) is RefMut ==> *final(self) is RefMut,
            *old(self) is LockGuard ==> (*final(self) matches Target::LockGuard((_, c)) && *old(self)
                matches Target::LockGuard((_, c0)) && c == c0),
            *old(self) is TempValue ==> *final(self) is TempValue,
            *old(self) is BitField ==> (*final(self) matches Target::BitField(c, i, _) && *old(self)
                matches Target::BitField(c0, i0, _) && i == i0 && *c == *c0),
            *old(self) is StringChar ==> (*final(self) matches Target::StringChar(c, i, _) && *old(self)
                matches Target::StringChar(c0, i0, _) && i == i0 && *c == *c0),
    {
        match self {
            Target::RefMut(r) => &mut **r,
            Target::LockGuard((r, _)) => &mut **r,
            Target::TempValue(r) => r,
            Target::BitField(_, _, r) => r,
            Target::StringChar(_, _, r) => r,
        }
    }

    /// Is the target a reference pointing to other data?
    pub fn is_ref(&self) -> (r: bool)
        ensures
            r == (*self is RefMut || *self is LockGuard),
    {
        match self {
            Target::RefMut(_) => true,
            Target::LockGuard(_) => true,
            Target::TempValue(_) => false,
            Target::BitField(_, _, _) => false,
            Target::StringChar(_, _, _) => false,
        }
    }

    /// Is the target a temporary value?
    pub fn is_temp_value(&self) -> (r: bool)
        ensures
            r == (*self is TempValue),
    {
        match self {
            Target::TempValue(_) => true,
            _ => false,
        }
    }

    /// Is the target a shared value?
    pub fn is_shared(&self) -> (r: bool)
        ensures
            r == (match *self {
                Target::RefMut(d) => d.value is Shared,
                Target::LockGuard(_) => true,
                Target::TempValue(d) => d.value is Shared,
                _ => false,
            }),
    {
        match self {
            Target::RefMut(r) => r.is_shared(),
            Target::LockGuard(_) => true,
            Target::TempValue(r) => r.is_shared(),
            Target::BitField(_, _, _) => false,
            Target::StringChar(_, _, _) => false,
        }
    }

    /// Is the target's value of a particular kind? A bit is a boolean and a string
    /// character is a character.
    pub fn is(&self, kind: ValueKind) -> (r: bool)
        ensures
            r == (match *self {
                Target::RefMut(d) => is_kind(*d, kind),
                Target::LockGuard((d, _)) => is_kind(*d, kind),
                Target::TempValue(d) => is_kind(d, kind),
                Target::BitField(_, _, _) => kind == ValueKind::Bool,
                Target::StringChar(_, _, _) => kind == ValueKind::Char,
            }),
    {
        match self {
            Target::RefMut(r) => value_is_kind(r, kind),
            Target::LockGuard((r, _)) => value_is_kind(r, kind),
            Target::TempValue(r) => value_is_kind(r, kind),
            Target::BitField(_, _, _) => kind == ValueKind::Bool,
            Target::StringChar(_, _, _) => kind == ValueKind::Char,
        }
    }

    /// The value of the target, cloning a referenced value if necessary.
    pub fn take_or_clone(self) -> (r: Dynamic)
        ensures
            r == (match self {
                Target::RefMut(d) => *d,
                Target::LockGuard((_, orig)) => orig,
                Target::TempValue(v) => v,
                Target::BitField(_, _, v) => v,
                Target::StringChar(_, _, ch) => ch,
            }),
    {
        match self {
            Target::RefMut(r) => r.clone(),
            Target::LockGuard((_, orig)) => orig,
            Target::TempValue(v) => v,
            Target::BitField(_, _, value) => value,
            Target::StringChar(_, _, ch) => ch,
        }
    }

    /// The reference held by a [`RefMut`][Target::RefMut] target.
    pub fn take_ref(self) -> (r: Option<&'a mut Dynamic>)
        ensures
            self is RefMut <==> r is Some,
            self matches Target::RefMut(y) ==> (r matches Some(x) && *x == *y && *final(x) == *final(y)),
    {
        match self {
            Target::RefMut(r) => Some(r),
            _ => None,
        }
    }

    /// A target holding the value of this one as a temporary value.
    pub fn into_owned(self) -> (r: Target<'static>)
        ensures
            r matches Target::TempValue(v) && v == (match self {
                Target::RefMut(d) => *d,
                Target::LockGuard((_, orig)) => orig,
                Target::TempValue(v) => v,
                Target::BitField(_, _, v) => v,
                Target::StringChar(_, _, ch) => ch,
            }),
    {
        Target::TempValue(self.take_or_clone())
    }

    /// Write a changed bit or character back into the integer or string it came from.
    /// Other targets are left as they are.
    pub fn propagate_changed_value(&mut self) -> (r: Result<(), Box<EvalAltResult>>)
        requires
            *old(self) matches Target::BitField(v, idx, _) ==> (v.value is Int && idx < 64),
            *old(self) matches Target::StringChar(v, _, _) ==> v.value is Str,
        ensures
            !(*old(self) is BitField || *old(self) is StringChar) ==> r is Ok && *final(self) == *old(self),
            *old(self) matches Target::BitField(v, idx, nv) ==> (*final(self) matches Target::BitField(v2, idx2, nv2)
                && idx2 == idx && nv2 == nv && *final(v2) == *final(v) && (match spec_flatten(nv).value {
                    Union::Bool(b) => r is Ok && *v2 == (Dynamic {
                        value: Union::Int(with_bit(v.value->Int_0, idx as u64, b)),
                        ..*v
                    }),
                    _ => r is Err && is_mismatch_error(*r->Err_0, "bool"@, spec_type_desc(nv)) && *v2 == *v,
                })),
            *old(self) matches Target::StringChar(v, idx, nv) ==> (*final(self) matches Target::StringChar(v2, idx2, nv2)
                && idx2 == idx && nv2 == nv && *final(v2) == *final(v) && (match spec_flatten(nv).value {
                    Union::Char(c) => r is Ok && v2.tag == v.tag && v2.access == v.access
                        && (v2.value matches Union::Str(t) && t@ == replace_char(v.value->Str_0@, idx as int, c)),
                    _ => r is Err && is_mismatch_error(*r->Err_0, "char"@, spec_type_desc(nv)) && *v2 == *v,
                })),
    {
        match self {
            Target::RefMut(_) | Target::TempValue(_) | Target::LockGuard(_) => Ok(()),
            Target::BitField(value, index, new_val) => {
                let new_bit = match new_val.as_bool() {
                    Ok(b) => b,
                    Err(t) => {
                        return Err(Box::new(EvalAltResult::ErrorMismatchDataType(
                            String::from_str("bool"),
                            String::from_str(t),
                            Position::none(),
                        )));
                    },
                };
                match &mut value.value {
                    Union::Int(x) => {
                        let mask: INT = 1i64 << (*index as u64);
                        if new_bit {
                            *x = *x | mask;
                        } else {
                            *x = *x & !mask;
                        }
                    },
                    _ => {},
                }
                Ok(())
            },
            Target::StringChar(s, index, new_val) => {
                let new_ch = match new_val.as_char() {
                    Ok(c) => c,
                    Err(t) => {
                        return Err(Box::new(EvalAltResult::ErrorMismatchDataType(
                            String::from_str("char"),
                            String::from_str(t),
                            Position::none(),
                        )));
                    },
                };
                match &mut s.value {
                    Union::Str(text) => {
                        let mut chars = str_chars(text.as_str());
                        if *index < chars.len() {
                            chars.set(*index, new_ch);
                        }
                        *text = ImmutableString::from_string(string_from_chars(&chars));
                    },
                    _ => {},
                }
                Ok(())
            },
        }
    }
}

/// The limits imposed on scripts by the engine.
#[derive(Clone, Copy, PartialEq, Eq, Structural, Debug, Hash)]
pub struct Limits {
    /// Maximum levels of call-stack to prevent infinite recursion.
    pub max_call_stack_depth: usize,
    /// Maximum depth of statements/expressions at global level (no limit if `None`).
    pub max_expr_depth: Option<usize>,
    /// Maximum depth of statements/expressions in functions (no limit if `None`).
    pub max_function_expr_depth: Option<usize>,
    /// Maximum number of operations allowed to run (no limit if `None`).
    pub max_operations: Option<u64>,
    /// Maximum number of modules allowed to load.
    pub max_modules: usize,
    /// Maximum length of a string (no limit if `None`).
    pub max_string_size: Option<usize>,
    /// Maximum length of an array (no limit if `None`).
    pub max_array_size: Option<usize>,
    /// Maximum number of properties in an object map (no limit if `None`).
    pub max_map_size: Option<usize>,
}

impl Limits {
    /// Set the maximum levels of function calls.
    pub fn set_max_call_levels(&mut self, levels: usize) -> (r: &mut Self)
        ensures
            *r == (Limits { max_call_stack_depth: levels, ..*old(self) }),
            *final(self) == *final(r),
    {
        self.max_call_stack_depth = levels;
        self
    }

    /// The maximum levels of function calls.
    pub fn max_call_levels(&self) -> (r: usize)
        ensures
            r == self.max_call_stack_depth,
    {
        self.max_call_stack_depth
    }

    /// Set the maximum number of operations (0 for unlimited).
    pub fn set_max_operations(&mut self, operations: u64) -> (r: &mut Self)
        ensures
            *r == (Limits { max_operations: if operations == 0 { None } else { Some(operations) }, ..*old(self) }),
            *final(self) == *final(r),
    {
        self.max_operations = if operations == 0 { None } else { Some(operations) };
        self
    }

    /// Whether a count of operations goes over the limit (a limit of 0 is no limit).
    pub open spec fn exceeds_operations(&self, count: u64) -> bool {
        match self.max_operations {
            Some(n) => n > 0 && count > n,
            None => false,
        }
    }

    /// The maximum number of operations (0 for unlimited).
    pub fn max_operations(&self) -> (r: u64)
        ensures
            r == match self.max_operations {
                Some(n) => n,
                None => 0,
            },
    {
        match self.max_operations {
            Some(n) => n,
            None => 0,
        }
    }

    /// Set the maximum number of imported modules.
    pub fn set_max_modules(&mut self, modules: usize) -> (r: &mut Self)
        ensures
            *r == (Limits { max_modules: modules, ..*old(self) }),
            *final(self) == *final(r),
    {
        self.max_modules = modules;
        self
    }

    /// The maximum number of imported modules.
    pub fn max_modules(&self) -> (r: usize)
        ensures
            r == self.max_modules,
    {
        self.max_modules
    }

    /// Set the depth limits of expressions, at global level and in functions (0 for
    /// unlimited).
    pub fn set_max_expr_depths(&mut self, max_expr_depth: usize, max_function_expr_depth: usize) -> (r: &mut Self)
        ensures
            *r == (Limits {
                max_expr_depth: if max_expr_depth == 0 { None } else { Some(max_expr_depth) },
                max_function_expr_depth: if max_function_expr_depth == 0 {
                    None
                } else {
                    Some(max_function_expr_depth)
                },
                ..*old(self)
            }),
            *final(self) == *final(r),
    {
        self.max_expr_depth = if max_expr_depth == 0 { None } else { Some(max_expr_depth) };
        self.max_function_expr_depth = if max_function_expr_depth == 0 { None } else { Some(max_function_expr_depth) };
        self
    }

    /// The depth limit of expressions at global level (0 for unlimited).
    pub fn max_expr_depth(&self) -> (r: usize)
        ensures
            r == match self.max_expr_depth {
                Some(n) => n,
                None => 0,
            },
    {
        match self.max_expr_depth {
            Some(n) => n,
            None => 0,
        }
    }

    /// The depth limit of expressions in functions (0 for unlimited).
    pub fn max_function_expr_depth(&self) -> (r: usize)
        ensures
            r == match self.max_function_expr_depth {
                Some(n) => n,
                None => 0,
            },
    {
        match self.max_function_expr_depth {
            Some(n) => n,
            None => 0,
        }
    }

    /// Set the maximum length of strings (0 for unlimited).
    pub fn set_max_string_size(&mut self, max_size: usize) -> (r: &mut Self)
        ensures
            *r == (Limits { max_string_size: if max_size == 0 { None } else { Some(max_size) }, ..*old(self) }),
            *final(self) == *final(r),
    {
        self.max_string_size = if max_size == 0 { None } else { Some(max_size) };
        self
    }

    /// The maximum length of strings (0 for unlimited).
    pub fn max_string_size(&self) -> (r: usize)
        ensures
            r == match self.max_string_size {
                Some(n) => n,
                None => 0,
            },
    {
        match self.max_string_size {
            Some(n) => n,
            None => 0,
        }
    }

    /// Set the maximum length of arrays (0 for unlimited).
    pub fn set_max_array_size(&mut self, max_size: usize) -> (r: &mut Self)
        ensures
            *r == (Limits { max_array_size: if max_size == 0 { None } else { Some(max_size) }, ..*old(self) }),
            *final(self) == *final(r),
    {
        self.max_array_size = if max_size == 0 { None } else { Some(max_size) };
        self
    }

    /// The maximum length of arrays (0 for unlimited).
    pub fn max_array_size(&self) -> (r: usize)
        ensures
            r == match self.max_array_size {
                Some(n) => n,
                None => 0,
            },
    {
        match self.max_array_size {
            Some(n) => n,
            None => 0,
        }
    }

    /// Set the maximum number of properties of object maps (0 for unlimited).
    pub fn set_max_map_size(&mut self, max_size: usize) -> (r: &mut Self)
        ensures
            *r == (Limits { max_map_size: if max_size == 0 { None } else { Some(max_size) }, ..*old(self) }),
            *final(self) == *final(r),
    {
        self.max_map_size = if max_size == 0 { None } else { Some(max_size) };
        self
    }

    /// The maximum number of properties of object maps (0 for unlimited).
    pub fn max_map_size(&self) -> (r: usize)
        ensures
            r == match self.max_map_size {
                Some(n) => n,
                None => 0,
            },
    {
        match self.max_map_size {
            Some(n) => n,
            None => 0,
        }
    }

    /// The default limits: the standard stack and expression depths, no other limit.
    pub fn default_limits() -> (r: Limits)
        ensures
            r == (Limits {
                max_call_stack_depth: MAX_CALL_STACK_DEPTH,
                max_expr_depth: Some(MAX_EXPR_DEPTH),
                max_function_expr_depth: Some(MAX_FUNCTION_EXPR_DEPTH),
                max_operations: None,
                max_modules: usize::MAX,
                max_string_size: None,
                max_array_size: None,
                max_map_size: None,
            }),
    {
        Limits {
            max_call_stack_depth: MAX_CALL_STACK_DEPTH,
            max_expr_depth: Some(MAX_EXPR_DEPTH),
            max_function_expr_depth: Some(MAX_FUNCTION_EXPR_DEPTH),
            max_operations: None,
            max_modules: usize::MAX,
            max_string_size: None,
            max_array_size: None,
            max_map_size: None,
        }
    }
}

/// The chaining type of an indexing or dot expression.
pub fn match_chaining_type(expr: &Expr) -> (r: ChainType)
    requires
        *expr is Index || *expr is Dot,
    ensures
        r == (if *expr is Index { ChainType::Indexing } else { ChainType::Dotting }),
{
    match expr {
        Expr::Index(_, _) => ChainType::Indexing,
        _ => ChainType::Dotting,
    }
}

/// A module imported under a name shadows every earlier module of that name: after a
/// `push`, the index that `find` describes for the name is the one just pushed.
pub proof fn law_import_shadows(names: Seq<String>, name: String, i: int)
    ensures
        (0 <= i < names.push(name).len() && names.push(name)[i]@ == name@ && forall|j: int|
            i < j < names.push(name).len() ==> (#[trigger] names.push(name)[j])@ != name@) <==> i
            == names.len(),
{
    let s = names.push(name);
    if i != names.len() && 0 <= i < s.len() && s[i]@ == name@ {
        assert(s[names.len() as int] == name);
    }
}

/// The bit that an index picks out of an integer, and the offset recorded for it: a
/// non-negative index counts from the lowest bit, a negative one from the highest (its
/// absolute value is recorded as the offset); `None` when it is out of bounds.
pub open spec fn index_bit(value: INT, index: INT) -> Option<(int, bool)> {
    if index >= 0 {
        if index >= 64 {
            None
        } else {
            Some((index as int, bit_of(value, index as u64)))
        }
    } else if index == INT::MIN || -index > 64 {
        None
    } else {
        Some((-index, bit_of(value, (64 + index) as u64)))
    }
}

/// The character that an index picks out of a text, and the offset recorded for it: a
/// non-negative index counts from the start, a negative one from the end (its absolute
/// value is recorded as the offset); `None` when it is out of bounds.
pub open spec fn index_char(s: Seq<char>, index: INT) -> Option<(int, char)> {
    if index >= 0 {
        if index < s.len() {
            Some((index as int, s[index as int]))
        } else {
            None
        }
    } else if index == INT::MIN || -index > s.len() {
        None
    } else {
        Some((-index, s[s.len() + index]))
    }
}

/// The element that an index picks out of an array of `len` items: counted from the
/// end (`len + index`) when the index is negative.
pub open spec fn array_slot(len: int, index: INT) -> Option<int> {
    if index >= 0 {
        if index < len {
            Some(index as int)
        } else {
            None
        }
    } else if index == INT::MIN || -index > len {
        None
    } else {
        Some(len + index)
    }
}

/// `t` is a target for element `k` of the array `items`, held in `old`; `new` is what
/// `old` becomes once the writes through `t` are done.
pub open spec fn targets_element(t: Target, items: Seq<Dynamic>, k: int, old: Dynamic, new_items: Seq<Dynamic>) -> bool {
    match t {
        Target::RefMut(e) => *e == items[k],
        Target::LockGuard((g, c)) => c == items[k] && (c.value matches Union::Shared(inner) && *g == *inner),
        _ => false,
    }
}

/// A copy of a vector held in a shared container has the same items.
proof fn lemma_cloned_items(a: Vec<Dynamic>, b: Vec<Dynamic>)
    requires
        cloned::<Vec<Dynamic>>(a, b),
    ensures
        b@ == a@,
{
    assert forall|i: int| 0 <= i < a@.len() implies b@[i] == a@[i] by {
        assert(cloned::<Dynamic>(a[i], b[i]));
    }
    assert(b@ =~= a@);
}

/// Index into an array: the element at the index (counted from the end when negative).
fn index_array<'t>(target: &'t mut Dynamic, idx: Dynamic, idx_pos: Position) -> (r: Result<Target<'t>, Box<EvalAltResult>>)
    requires
        old(target).value is Array,
    ensures
        r is Err ==> *final(target) == *old(target),
        old(target).value matches Union::Array(a) ==> match spec_flatten(idx).value {
            Union::Int(i) => match array_slot((*a)@.len() as int, i) {
                Some(k) => r matches Ok(t) && targets_element(t, (*a)@, k, *old(target), (*a)@)
                    && (final(target).value matches Union::Array(a2) && final(target).tag == old(target).tag
                    && final(target).access == old(target).access && (match t {
                    Target::RefMut(e) => (*a2)@ == (*a)@.update(k, *final(e)),
                    Target::LockGuard((g, c)) => (*a2)@ == (*a)@.update(k, Dynamic { value: Union::Shared(Box::new(*final(g))), ..c }),
                    _ => false,
                })),
                None => r is Err && *r->Err_0 == EvalAltResult::ErrorArrayBounds((*a)@.len() as usize, i, idx_pos),
            },
            _ => r is Err && is_index_type_error(*r->Err_0, idx, idx_pos),
        },
{
    let index = match idx.as_int() {
        Ok(i) => i,
        Err(typ) => {
            return Err(Box::new(EvalAltResult::ErrorMismatchDataType(
                String::from_str("i64"),
                String::from_str(typ),
                idx_pos,
            )));
        },
    };
    let len: usize = match &target.value {
        Union::Array(a) => a.len(),
        _ => 0,
    };
    let k: usize = if index >= 0 {
        if (index as u64) < (len as u64) {
            index as usize
        } else {
            return Err(Box::new(EvalAltResult::ErrorArrayBounds(len, index, idx_pos)));
        }
    } else if index == INT::MIN || (-index) as u64 > len as u64 {
        return Err(Box::new(EvalAltResult::ErrorArrayBounds(len, index, idx_pos)));
    } else {
        len - ((-index) as usize)
    };
    match &mut target.value {
        Union::Array(arr) => {
            proof {
                assert forall|x: Vec<Dynamic>, y: Vec<Dynamic>| #[trigger] cloned::<Vec<Dynamic>>(x, y) implies y@ == x@ by {
                    lemma_cloned_items(x, y);
                }
            }
            let v = shared_make_mut(arr);
            let e = &mut v[k];
            Ok(Target::from(e))
        },
        _ => Err(Box::new(EvalAltResult::ErrorArrayBounds(len, index, idx_pos))),
    }
}

/// Is `e` the type mismatch raised for a map index that is not a string?
pub open spec fn is_key_type_error(e: EvalAltResult, idx: Dynamic, pos: Position) -> bool {
    e matches EvalAltResult::ErrorMismatchDataType(r, a, p) && r@ == "string"@ && a@ == spec_type_desc(idx) && p == pos
}

/// The properties of a map once a missing property `key` is added as `()` (when asked to).
pub open spec fn with_added(m: Map<Seq<char>, Dynamic>, key: Seq<char>, add_if_not_found: bool) -> Map<Seq<char>, Dynamic> {
    if add_if_not_found && !m.contains_key(key) {
        m.insert(key, Dynamic::spec_of(Union::Unit))
    } else {
        m
    }
}

/// Index into an object map: the value of the property named by the index, added as `()`
/// first when it is missing and `add_if_not_found` is set; a missing property otherwise
/// gives a temporary `()`.
fn index_map<'t>(target: &'t mut Dynamic, idx: Dynamic, idx_pos: Position, add_if_not_found: bool) -> (r: Result<Target<'t>, Box<EvalAltResult>>)
    requires
        old(target).value matches Union::Object(m) && m.wf(),
    ensures
        r is Err ==> *final(target) == *old(target),
        r matches Ok(Target::TempValue(_)) ==> *final(target) == *old(target),
        old(target).value matches Union::Object(m) ==> match spec_flatten(idx).value {
            Union::Str(key) => {
                let m1 = with_added((*m)@, key@, add_if_not_found);
                if m1.contains_key(key@) {
                    r matches Ok(t) && (final(target).value matches Union::Object(m2) && m2.wf() && final(target).tag
                        == old(target).tag && final(target).access == old(target).access && (match t {
                        Target::RefMut(e) => *e == m1[key@] && (*m2)@ == m1.insert(key@, *final(e)),
                        Target::LockGuard((g, c)) => c == m1[key@] && (c.value matches Union::Shared(inner) && *g
                            == *inner) && (*m2)@ == m1.insert(key@, Dynamic { value: Union::Shared(Box::new(*final(g))), ..c }),
                        _ => false,
                    }))
                } else {
                    r matches Ok(Target::TempValue(u)) && u == Dynamic::spec_of(Union::Unit)
                }
            },
            _ => r is Err && is_key_type_error(*r->Err_0, idx, idx_pos),
        },
{
    let flat = idx.flatten_clone();
    let key: ImmutableString = match &flat.value {
        Union::Str(k) => k.clone(),
        _ => {
            return Err(Box::new(EvalAltResult::ErrorMismatchDataType(
                String::from_str("string"),
                String::from_str(idx.type_desc()),
                idx_pos,
            )));
        },
    };
    let present = match &target.value {
        Union::Object(m) => m.contains_key(key.as_str()),
        _ => false,
    };
    if !present && !add_if_not_found {
        return Ok(Target::TempValue(Dynamic::unit()));
    }
    match &mut target.value {
        Union::Object(rc) => {
            proof {
                assert forall|x: ObjectMap, y: ObjectMap| #[trigger] cloned::<ObjectMap>(x, y) implies y.wf() == x.wf()
                    && (x.wf() ==> y@ == x@) by {
                    if y != x {
                        assert(vstd::pervasive::strictly_cloned::<ObjectMap>(x, y));
                        y.lemma_same_entries(x);
                    }
                }
            }
            let m = shared_make_mut(rc);
            if !present {
                m.insert(String::from_str(key.as_str()), Dynamic::unit());
            }
            match m.get_mut(key.as_str()) {
                Some(e) => Ok(Target::from(e)),
                None => Ok(Target::TempValue(Dynamic::unit())),
            }
        },
        _ => Ok(Target::TempValue(Dynamic::unit())),
    }
}

/// A possible answer of the registered indexer `call_indexer` for the value `d` and the
/// index `idx`.
pub open spec fn indexer_answers<F: Fn(&Dynamic, &Dynamic) -> Result<Dynamic, Box<EvalAltResult>>>(
    call_indexer: F,
    d: Dynamic,
    idx: Dynamic,
    out: Result<Dynamic, Box<EvalAltResult>>,
) -> bool {
    call_indexer.ensures((&d, &idx), out)
}

/// Is `e` the type mismatch raised for an index that is not an integer?
pub open spec fn is_index_type_error(e: EvalAltResult, idx: Dynamic, pos: Position) -> bool {
    e matches EvalAltResult::ErrorMismatchDataType(r, a, p) && r@ == "i64"@ && a@ == spec_type_desc(idx) && p == pos
}

/// Index into a value: an element of an array, a bit of an integer or a character of a
/// string (the index may count from the end when negative), a property of an object map
/// (see `index_map`); any other value is indexed by the registered
/// indexer function `call_indexer`, whose answer is a temporary value, or is an error when
/// indexers are not to be used.
pub fn get_indexed_mut<'t, F: Fn(&Dynamic, &Dynamic) -> Result<Dynamic, Box<EvalAltResult>>>(
    call_indexer: &F,
    target: &'t mut Dynamic,
    idx: Dynamic,
    idx_pos: Position,
    add_if_not_found: bool,
    use_indexers: bool,
) -> (r: Result<Target<'t>, Box<EvalAltResult>>)
    requires
        forall|a: &Dynamic, b: &Dynamic| #[trigger] call_indexer.requires((a, b)),
        old(target).value matches Union::Object(m) ==> m.wf(),
    ensures
        r is Err ==> *final(target) == *old(target),
        old(target).value matches Union::Array(a) ==> match spec_flatten(idx).value {
            Union::Int(i) => match array_slot((*a)@.len() as int, i) {
                Some(k) => r matches Ok(t) && targets_element(t, (*a)@, k, *old(target), (*a)@)
                    && (final(target).value matches Union::Array(a2) && final(target).tag == old(target).tag
                    && final(target).access == old(target).access && (match t {
                    Target::RefMut(e) => (*a2)@ == (*a)@.update(k, *final(e)),
                    Target::LockGuard((g, c)) => (*a2)@ == (*a)@.update(k, Dynamic { value: Union::Shared(Box::new(*final(g))), ..c }),
                    _ => false,
                })),
                None => r is Err && *r->Err_0 == EvalAltResult::ErrorArrayBounds((*a)@.len() as usize, i, idx_pos),
            },
            _ => r is Err && is_index_type_error(*r->Err_0, idx, idx_pos),
        },
        old(target).value is Object ==> (r matches Ok(Target::TempValue(_)) ==> *final(target) == *old(target)),
        old(target).value matches Union::Object(m) ==> match spec_flatten(idx).value {
            Union::Str(key) => {
                let m1 = with_added((*m)@, key@, add_if_not_found);
                if m1.contains_key(key@) {
                    r matches Ok(t) && (final(target).value matches Union::Object(m2) && m2.wf() && final(target).tag
                        == old(target).tag && final(target).access == old(target).access && (match t {
                        Target::RefMut(e) => *e == m1[key@] && (*m2)@ == m1.insert(key@, *final(e)),
                        Target::LockGuard((g, c)) => c == m1[key@] && (c.value matches Union::Shared(inner) && *g
                            == *inner) && (*m2)@ == m1.insert(key@, Dynamic { value: Union::Shared(Box::new(*final(g))), ..c }),
                        _ => false,
                    }))
                } else {
                    r matches Ok(Target::TempValue(u)) && u == Dynamic::spec_of(Union::Unit)
                }
            },
            _ => r is Err && is_key_type_error(*r->Err_0, idx, idx_pos),
        },
        old(target).value matches Union::Int(v) ==> match spec_flatten(idx).value {
            Union::Int(i) => match index_bit(v, i) {
                Some((off, b)) => r matches Ok(Target::BitField(t, o, bv)) && *t == *old(target)
                    && *final(t) == *final(target) && o == off && bv == Dynamic::spec_of(Union::Bool(b)),
                None => r is Err && *r->Err_0 == EvalAltResult::ErrorBitFieldBounds(64, i, idx_pos),
            },
            _ => r is Err && is_index_type_error(*r->Err_0, idx, idx_pos),
        },
        old(target).value matches Union::Str(s) ==> match spec_flatten(idx).value {
            Union::Int(i) => match index_char(s@, i) {
                Some((off, c)) => r matches Ok(Target::StringChar(t, o, cv)) && *t
                    == *old(target) && *final(t) == *final(target) && o == off && cv == Dynamic::spec_of(Union::Char(c)),
                None => r is Err && *r->Err_0 == EvalAltResult::ErrorStringBounds(s@.len() as usize, i, idx_pos),
            },
            _ => r is Err && is_index_type_error(*r->Err_0, idx, idx_pos),
        },
        !(old(target).value is Int || old(target).value is Str || old(target).value is Array
            || old(target).value is Object) ==> if use_indexers {
            exists|out: Result<Dynamic, Box<EvalAltResult>>|
                #[trigger] indexer_answers(*call_indexer, *old(target), idx, out) && *final(target) == *old(target)
                    && match out {
                    Ok(v) => r matches Ok(Target::TempValue(t)) && t == v,
                    Err(e) => r == Err::<Target, Box<EvalAltResult>>(e),
                }
        } else {
            r is Err && (*r->Err_0 matches EvalAltResult::ErrorIndexingType(m, p) && m@ == spec_type_desc(*old(target))
                + " ["@ + spec_type_desc(idx) + "]"@ && p == Position::spec_none())
        },
{
    let is_array = match &target.value {
        Union::Array(_) => true,
        _ => false,
    };
    if is_array {
        return index_array(target, idx, idx_pos);
    }
    let is_map = match &target.value {
        Union::Object(_) => true,
        _ => false,
    };
    if is_map {
        return index_map(target, idx, idx_pos, add_if_not_found);
    }
    let int_value: Option<INT> = match &target.value {
        Union::Int(v) => Some(*v),
        _ => None,
    };
    let text: Option<Vec<char>> = match &target.value {
        Union::Str(s) => Some(str_chars(s.as_str())),
        _ => None,
    };
    if int_value.is_some() || text.is_some() {
        let index = match idx.as_int() {
            Ok(i) => i,
            Err(typ) => {
                return Err(Box::new(EvalAltResult::ErrorMismatchDataType(
                    String::from_str("i64"),
                    String::from_str(typ),
                    idx_pos,
                )));
            },
        };
        if let Some(value) = int_value {
            let offset: u32 = if index >= 0 {
                if index >= 64 {
                    return Err(Box::new(EvalAltResult::ErrorBitFieldBounds(64, index, idx_pos)));
                }
                index as u32
            } else if index == INT::MIN || -index > 64 {
                return Err(Box::new(EvalAltResult::ErrorBitFieldBounds(64, index, idx_pos)));
            } else {
                (-index) as u32
            };
            let bit_index: u32 = if index >= 0 { offset } else { 64 - offset };
            let bit = (value & (1i64 << bit_index)) != 0;
            proof {
                let k = bit_index;
                assert(k < 64 ==> ((value & (1i64 << k)) != 0) == ((value >> k) & 1i64 == 1i64)) by (bit_vector);
            }
            return Ok(Target::BitField(target, offset as usize, Dynamic::from_bool(bit)));
        }
        if let Some(chars) = text {
            let len = chars.len();
            let found: Option<(usize, char)> = if index >= 0 {
                if (index as u64) < (len as u64) {
                    Some((index as usize, chars[index as usize]))
                } else {
                    None
                }
            } else if index == INT::MIN || (-index) as u64 > len as u64 {
                None
            } else {
                let offset = (-index) as usize;
                Some((offset, chars[len - offset]))
            };
            return match found {
                Some((offset, c)) => Ok(Target::StringChar(target, offset, Dynamic::from_char(c))),
                None => Err(Box::new(EvalAltResult::ErrorStringBounds(len, index, idx_pos))),
            };
        }
    }
    if use_indexers {
        let out = call_indexer(&*target, &idx);
        assert(indexer_answers(*call_indexer, *target, idx, out));
        return match out {
            Ok(v) => Ok(Target::TempValue(v)),
            Err(e) => Err(e),
        };
    }
    let mut msg = String::from_str(target.type_desc());
    msg.append(" [");
    msg.append(idx.type_desc());
    msg.append("]");
    Err(Box::new(EvalAltResult::ErrorIndexingType(msg, Position::none())))
}

/// Is any data size limit set?
pub open spec fn has_data_limit(limits: Limits) -> bool {
    limits.max_string_size is Some || limits.max_array_size is Some || limits.max_map_size is Some
}

/// Is `n` over an optional limit?
pub open spec fn over_limit(n: int, limit: Option<usize>) -> bool {
    match limit {
        Some(max) => n > max,
        None => false,
    }
}

/// The error for a value over the data size limits, if it is over one: with a limit set,
/// the string bytes are checked first, then the array items, then the map properties
/// (see `data_sizes`, which counts through nested arrays and maps; each size is counted
/// up to the largest `usize`).
pub open spec fn data_limit_error(limits: Limits, value: Dynamic) -> Option<Seq<char>> {
    let sizes = data_sizes(value);
    if !has_data_limit(limits) {
        None
    } else if over_limit(capped(sizes.2) as int, limits.max_string_size) {
        Some("Length of string"@)
    } else if over_limit(capped(sizes.0) as int, limits.max_array_size) {
        Some("Size of array"@)
    } else if over_limit(capped(sizes.1) as int, limits.max_map_size) {
        Some("Size of object map"@)
    } else {
        None
    }
}

/// Is the value over the data size limits?
pub open spec fn over_data_limit(limits: Limits, value: Dynamic) -> bool {
    data_limit_error(limits, value) is Some
}

/// Is `e` the error for a value over the data size limits?
pub open spec fn is_data_too_large(e: EvalAltResult, limits: Limits, value: Dynamic) -> bool {
    e matches EvalAltResult::ErrorDataTooLarge(m, p) && data_limit_error(limits, value) == Some(m@) && p
        == Position::spec_none()
}

fn too_large(what: &str) -> (r: Box<EvalAltResult>)
    ensures
        *r matches EvalAltResult::ErrorDataTooLarge(m, p) && m@ == what@ && p == Position::spec_none(),
{
    Box::new(EvalAltResult::ErrorDataTooLarge(String::from_str(what), Position::none()))
}

/// Check a value against the data size limits: the bytes of all its strings, its array
/// items and its map properties, counted through nested arrays and maps, must not be
/// over the limits set.
pub fn check_data_size(limits: &Limits, value: &Dynamic) -> (r: Result<(), Box<EvalAltResult>>)
    ensures
        over_data_limit(*limits, *value) ==> r is Err && is_data_too_large(*r->Err_0, *limits, *value),
        !over_data_limit(*limits, *value) ==> r is Ok,
{
    let has_limit = limits.max_string_size.is_some() || limits.max_array_size.is_some()
        || limits.max_map_size.is_some();
    if !has_limit {
        return Ok(());
    }
    let (arrays, maps, strings) = value.data_size();
    proof {
        crate::dynamic::lemma_sizes_nonneg(*value);
    }
    if let Some(max) = limits.max_string_size {
        if strings > max {
            return Err(too_large("Length of string"));
        }
    }
    if let Some(max) = limits.max_array_size {
        if arrays > max {
            return Err(too_large("Size of array"));
        }
    }
    if let Some(max) = limits.max_map_size {
        if maps > max {
            return Err(too_large("Size of object map"));
        }
    }
    Ok(())
}

/// A result, unless it holds a value over the data size limits.
pub fn check_return_value(limits: &Limits, result: Result<Dynamic, Box<EvalAltResult>>) -> (r: Result<Dynamic, Box<EvalAltResult>>)
    ensures
        result is Err ==> r == result,
        result matches Ok(v) ==> (over_data_limit(*limits, v) ==> r is Err && is_data_too_large(*r->Err_0, *limits, v)),
        result matches Ok(v) ==> (!over_data_limit(*limits, v) ==> r == result),
{
    match result {
        Ok(v) => match check_data_size(limits, &v) {
            Ok(()) => Ok(v),
            Err(e) => Err(e),
        },
        Err(e) => Err(e),
    }
}

/// Count one more operation: an error once the count goes over the limit on operations
/// (if there is one); otherwise the progress callback, if any, is told the count, and a
/// value it answers terminates the script with that value.
pub fn inc_operations<F: Fn(u64) -> Option<Dynamic>>(
    limits: &Limits,
    progress: Option<&F>,
    num_operations: &mut u64,
    pos: Position,
) -> (r: Result<(), Box<EvalAltResult>>)
    requires
        *old(num_operations) < u64::MAX,
        progress matches Some(f) ==> forall|n: u64| #[trigger] f.requires((n,)),
    ensures
        *final(num_operations) == *old(num_operations) + 1,
        limits.exceeds_operations(*final(num_operations)) ==> r is Err && *r->Err_0
            == EvalAltResult::ErrorTooManyOperations(pos),
        !limits.exceeds_operations(*final(num_operations)) && progress is None ==> r is Ok,
        !limits.exceeds_operations(*final(num_operations)) ==> (progress matches Some(f) ==> exists|
            answer: Option<Dynamic>,
        |
            #[trigger] f.ensures((*final(num_operations),), answer) && match answer {
                Some(token) => r is Err && *r->Err_0 == EvalAltResult::ErrorTerminated(token, pos),
                None => r is Ok,
            }),
{
    *num_operations = *num_operations + 1;
    let max = limits.max_operations();
    if max > 0 && *num_operations > max {
        return Err(Box::new(EvalAltResult::ErrorTooManyOperations(pos)));
    }
    if let Some(report) = progress {
        let answer = report(*num_operations);
        match answer {
            Some(token) => {
                return Err(Box::new(EvalAltResult::ErrorTerminated(token, pos)));
            },
            None => {},
        }
    }
    Ok(())
}

/// The value that a target made from a reference to `d` reaches: the inside of a shared
/// value, else `d` itself.
pub open spec fn reached_value(d: Dynamic) -> Dynamic {
    match d.value {
        Union::Shared(inner) => *inner,
        _ => d,
    }
}

/// An error given a position if it has none yet.
pub open spec fn filled_position(e: EvalAltResult, pos: Position) -> EvalAltResult {
    if spec_position(e) == Position::spec_none() {
        spec_with_position(e, pos)
    } else {
        e
    }
}

/// Is the expression the variable `this` (with no recorded offset)?
pub open spec fn is_this_variable(expr: Expr) -> bool {
    expr matches Expr::Variable(None, _, v) && v.index is None && v.name@ == "this"@
}

/// The offset from the end of the scope recorded for a variable (0 when it has to be
/// found by name, which is always the case when the scope has to be searched).
pub open spec fn variable_offset(expr: Expr, always_search_scope: bool) -> usize {
    if always_search_scope {
        0
    } else {
        match expr {
            Expr::Variable(Some(i), _, _) => i as usize,
            Expr::Variable(None, _, v) => match v.index {
                Some(n) => n,
                None => 0,
            },
            _ => 0,
        }
    }
}

/// The name of a variable expression.
pub open spec fn variable_name(expr: Expr) -> Seq<char> {
    match expr {
        Expr::Variable(_, _, v) => v.name@,
        _ => Seq::empty(),
    }
}

/// The position of a variable expression.
pub open spec fn variable_position(expr: Expr) -> Position {
    match expr {
        Expr::Variable(_, pos, _) => pos,
        _ => Position::spec_none(),
    }
}

/// The scope entry that a variable refers to: counted from the end for a recorded
/// offset, else the last entry of its name (if any).
pub open spec fn scope_slot(names: Seq<String>, expr: Expr, always_search_scope: bool) -> Option<int> {
    let offset = variable_offset(expr, always_search_scope);
    if offset > 0 {
        Some(names.len() - offset)
    } else {
        last_index_of(names, variable_name(expr))
    }
}

/// A possible answer of the variable resolver for this name and offset.
pub open spec fn resolver_answers<F: Fn(&str, usize) -> Result<Option<Dynamic>, Box<EvalAltResult>>>(
    resolve_var: F,
    name: Seq<char>,
    offset: usize,
    out: Result<Option<Dynamic>, Box<EvalAltResult>>,
) -> bool {
    exists|s: &str| s@ == name && #[trigger] resolve_var.ensures((s, offset), out)
}

/// The scope is searched: there is no resolver, or it may have answered nothing.
pub open spec fn searched_past_resolver<F: Fn(&str, usize) -> Result<Option<Dynamic>, Box<EvalAltResult>>>(
    resolve_var: Option<&F>,
    expr: Expr,
    always_search_scope: bool,
) -> bool {
    match resolve_var {
        Some(f) => resolver_answers(*f, variable_name(expr), variable_offset(expr, always_search_scope), Ok(None)),
        None => true,
    }
}

/// The resolver may have answered an error that, given the variable's position, is `e`.
pub open spec fn resolver_failed_with<F: Fn(&str, usize) -> Result<Option<Dynamic>, Box<EvalAltResult>>>(
    resolve_var: Option<&F>,
    expr: Expr,
    always_search_scope: bool,
    e: EvalAltResult,
) -> bool {
    match resolve_var {
        Some(f) => exists|e0: Box<EvalAltResult>|
            resolver_answers(*f, variable_name(expr), variable_offset(expr, always_search_scope), Err(e0)) && e
                == filled_position(*e0, variable_position(expr)),
        None => false,
    }
}

/// Find a variable (not qualified by a namespace) for reading or writing: `this` is the
/// object of a method call (an error when there is none); otherwise the variable
/// resolver, if any, is asked first (by name and recorded offset), and a value it answers
/// is used as a read-only temporary, while an error it answers gets the variable's
/// position; when it answers nothing, the variable is the scope entry at its recorded
/// offset from the end, or else the last entry of its name (an error if there is none).
/// A shared value is reached through its container.
pub fn search_scope_only<'s, F: Fn(&str, usize) -> Result<Option<Dynamic>, Box<EvalAltResult>>>(
    resolve_var: Option<&F>,
    always_search_scope: bool,
    scope: &'s mut Scope,
    this_ptr: Option<&'s mut Dynamic>,
    expr: &Expr,
) -> (r: Result<(Target<'s>, Position), Box<EvalAltResult>>)
    requires
        old(scope).wf(),
        *expr matches Expr::Variable(_, _, v) && v.namespace is None,
        variable_offset(*expr, always_search_scope) <= old(scope).spec_values().len(),
        resolve_var matches Some(f) ==> forall|s: &str, i: usize| #[trigger] f.requires((s, i)),
    ensures
        final(scope).spec_names() == old(scope).spec_names(),
        // `this`
        is_this_variable(*expr) ==> final(scope).spec_values() == old(scope).spec_values(),
        is_this_variable(*expr) ==> (this_ptr is None ==> (r matches Err(e) && *e
            == EvalAltResult::ErrorUnboundThis(variable_position(*expr)))),
        is_this_variable(*expr) ==> (this_ptr matches Some(v) ==> (r matches Ok((t, p)) && p
            == variable_position(*expr) && (t is RefMut || t is LockGuard) && t.spec_value() == reached_value(*v))),
        // an answer of the resolver
        !is_this_variable(*expr) ==> (r matches Ok((Target::TempValue(d), p)) ==> p == variable_position(*expr)
            && final(scope).spec_values() == old(scope).spec_values() && (resolve_var matches Some(f) && exists|
            d0: Dynamic,
        |
            d == (Dynamic { access: AccessMode::ReadOnly, ..d0 }) && resolver_answers(
                *f,
                variable_name(*expr),
                variable_offset(*expr, always_search_scope),
                Ok(Some(d0)),
            ))),
        // the scope entry, once the resolver (if any) answered nothing
        !is_this_variable(*expr) ==> (r matches Ok((Target::RefMut(v), p)) ==> p == variable_position(*expr)
            && searched_past_resolver(resolve_var, *expr, always_search_scope) && (scope_slot(
            old(scope).spec_names(),
            *expr,
            always_search_scope,
        ) matches Some(i) && *v == old(scope).spec_values()[i] && final(scope).spec_values() == old(
            scope,
        ).spec_values().update(i, *final(v)))),
        !is_this_variable(*expr) ==> (r matches Ok((Target::LockGuard((g, c)), p)) ==> p == variable_position(
            *expr,
        ) && searched_past_resolver(resolve_var, *expr, always_search_scope) && (scope_slot(
            old(scope).spec_names(),
            *expr,
            always_search_scope,
        ) matches Some(i) && c == old(scope).spec_values()[i] && (c.value matches Union::Shared(inner) && *g
            == *inner) && final(scope).spec_values() == old(scope).spec_values().update(
            i,
            Dynamic { value: Union::Shared(Box::new(*final(g))), ..c },
        ))),
        !is_this_variable(*expr) ==> !(r matches Ok((Target::BitField(..), _))) && !(r matches Ok((
            Target::StringChar(..),
            _,
        ))),
        // errors: one that the resolver answered, or a variable that is not there
        !is_this_variable(*expr) ==> (r matches Err(e) ==> final(scope).spec_values() == old(scope).spec_values()
            && (resolver_failed_with(resolve_var, *expr, always_search_scope, *e) || (searched_past_resolver(
            resolve_var,
            *expr,
            always_search_scope,
        ) && scope_slot(old(scope).spec_names(), *expr, always_search_scope) is None && (*e
            matches EvalAltResult::ErrorVariableNotFound(n, p) && n@ == variable_name(*expr) && p
            == variable_position(*expr))))),
        // without a resolver, the variable is found exactly when the scope has it
        !is_this_variable(*expr) && resolve_var is None ==> (scope_slot(
            old(scope).spec_names(),
            *expr,
            always_search_scope,
        ) is Some <==> r is Ok),
{
    let (offset, var_pos): (usize, Position) = match expr {
        Expr::Variable(short, pos, v) => {
            if short.is_none() && v.index.is_none() && str_eq(v.name.as_str(), KEYWORD_THIS) {
                return match this_ptr {
                    Some(val) => Ok((Target::from(val), *pos)),
                    None => Err(Box::new(EvalAltResult::ErrorUnboundThis(*pos))),
                };
            }
            if always_search_scope {
                (0, *pos)
            } else {
                match short {
                    Some(i) => (*i as usize, *pos),
                    None => match v.index {
                        Some(n) => (n, *pos),
                        None => (0, *pos),
                    },
                }
            }
        },
        _ => (0, Position::none()),
    };
    let name: &str = match expr.get_variable_name(true) {
        Some(n) => n,
        None => "",
    };
    if let Some(resolve) = resolve_var {
        let answer = resolve(name, offset);
        assert(name@ == variable_name(*expr) && offset == variable_offset(*expr, always_search_scope));
        assert(resolver_answers(*resolve, variable_name(*expr), variable_offset(*expr, always_search_scope), answer));
        match answer {
            Ok(Some(result)) => {
                let ghost d0 = result;
                let mut result = result;
                result.set_access_mode(AccessMode::ReadOnly);
                assert(result == (Dynamic { access: AccessMode::ReadOnly, ..d0 }));
                return Ok((Target::TempValue(result), var_pos));
            },
            Ok(None) => {},
            Err(err) => {
                let ghost e0 = err;
                let filled = err.fill_position(var_pos);
                assert(*filled == filled_position(*e0, variable_position(*expr)));
                return Err(filled);
            },
        }
    }
    let index: usize = if offset > 0 {
        scope.len() - offset
    } else {
        match scope.get_index(name) {
            Some((i, _)) => i,
            None => {
                return Err(Box::new(EvalAltResult::ErrorVariableNotFound(String::from_str(name), var_pos)));
            },
        }
    };
    let val = scope.get_mut_by_index(index);
    Ok((Target::from(val), var_pos))
}

/// Is `e` the error of a missing function whose signature starts with `op`?
pub open spec fn is_missing_op(e: EvalAltResult, op: Seq<char>) -> bool {
    e matches EvalAltResult::ErrorFunctionNotFound(f, _) && has_prefix(f@, op)
}

/// A possible answer of the native function call `call` for the operator `op` (hash key
/// `hash`) on `lhs` and `rhs`.
pub open spec fn native_answers<F: Fn(&str, u64, &Dynamic, &Dynamic) -> Result<Dynamic, Box<EvalAltResult>>>(
    call: F,
    op: Seq<char>,
    hash: u64,
    lhs: Dynamic,
    rhs: Dynamic,
    out: Result<Dynamic, Box<EvalAltResult>>,
) -> bool {
    exists|s: &str| s@ == op && #[trigger] call.ensures((s, hash, &lhs, &rhs), out)
}

/// `res` may be the outcome of an operator-assignment on `lhs` and `rhs`: the
/// operator-assignment function answers the new value; if there is no such function,
/// the plain operator (the operator-assignment without its `=`) answers it, with any
/// sharing removed; any other error is the outcome.
pub open spec fn op_assignment_outcome<F: Fn(&str, u64, &Dynamic, &Dynamic) -> Result<Dynamic, Box<EvalAltResult>>>(
    call: F,
    info: OpAssignment,
    lhs: Dynamic,
    rhs: Dynamic,
    res: Result<Dynamic, Box<EvalAltResult>>,
) -> bool {
    exists|out: Result<Dynamic, Box<EvalAltResult>>| #[trigger] native_answers(call, info.op@, info.hash_op_assign, lhs, rhs, out) && match out {
        Ok(v) => res == Ok::<Dynamic, Box<EvalAltResult>>(v),
        Err(e) => if is_missing_op(*e, info.op@) {
            exists|out2: Result<Dynamic, Box<EvalAltResult>>| #[trigger] native_answers(call, info.op@.drop_last(), info.hash_op, lhs, rhs, out2)
                && res == match out2 {
                Ok(v2) => Ok::<Dynamic, Box<EvalAltResult>>(spec_flatten(v2)),
                Err(e2) => Err(e2),
            }
        } else {
            res == Err::<Dynamic, Box<EvalAltResult>>(e)
        },
    }
}

/// The operator without its last character (the `=` of an operator-assignment).
fn without_last_char(op: &str) -> (r: String)
    requires
        op@.len() > 0,
    ensures
        r@ == op@.drop_last(),
{
    let mut chars = str_chars(op);
    chars.pop();
    string_from_chars(&chars)
}

/// The value of an operator-assignment on `lhs` and `rhs` (see `op_assignment_outcome`).
pub fn op_assignment_value<F: Fn(&str, u64, &Dynamic, &Dynamic) -> Result<Dynamic, Box<EvalAltResult>>>(
    call_native: &F,
    info: OpAssignment,
    lhs: &Dynamic,
    rhs: &Dynamic,
) -> (r: Result<Dynamic, Box<EvalAltResult>>)
    requires
        info.op@.len() > 0,
        forall|s: &str, h: u64, a: &Dynamic, b: &Dynamic| #[trigger] call_native.requires((s, h, a, b)),
    ensures
        op_assignment_outcome(*call_native, info, *lhs, *rhs, r),
{
    let out = call_native(info.op, info.hash_op_assign, lhs, rhs);
    assert(native_answers(*call_native, info.op@, info.hash_op_assign, *lhs, *rhs, out));
    match out {
        Ok(v) => Ok(v),
        Err(err) => {
            let missing = match &*err {
                EvalAltResult::ErrorFunctionNotFound(f, _) => starts_with(f.as_str(), info.op),
                _ => false,
            };
            if missing {
                let op = without_last_char(info.op);
                let out2 = call_native(op.as_str(), info.hash_op, lhs, rhs);
                assert(native_answers(*call_native, info.op@.drop_last(), info.hash_op, *lhs, *rhs, out2));
                match out2 {
                    Ok(v2) => Ok(v2.flatten_clone()),
                    Err(e2) => Err(e2),
                }
            } else {
                Err(err)
            }
        },
    }
}

/// Are the two targets of the same kind (a reference, a shared container, a temporary
/// value, a bit or a character, the last two at the same index)?
pub open spec fn same_kind(a: Target, b: Target) -> bool {
    match a {
        Target::RefMut(_) => b is RefMut,
        Target::LockGuard((_, c)) => b matches Target::LockGuard((_, c2)) && c2 == c,
        Target::TempValue(_) => b is TempValue,
        Target::BitField(_, i, _) => b matches Target::BitField(_, i2, _) && i2 == i,
        Target::StringChar(_, i, _) => b matches Target::StringChar(_, i2, _) && i2 == i,
    }
}

/// The value `d` with `w` written into it: into the inside of a shared value, else in
/// its place.
pub open spec fn written_into(d: Dynamic, w: Dynamic) -> Dynamic {
    match d.value {
        Union::Shared(_) => Dynamic { value: Union::Shared(Box::new(w)), ..d },
        _ => w,
    }
}

/// `new` is the target `old` after `nv` was written into it and passed on (a bit or a
/// character written back into its container), with outcome `r`.
pub open spec fn written_back(old: Target, new: Target, nv: Dynamic, r: Result<(), Box<EvalAltResult>>) -> bool {
    match old {
        Target::BitField(v, idx, _) => new matches Target::BitField(v2, idx2, nv2) && idx2 == idx && nv2 == nv
            && match spec_flatten(nv).value {
            Union::Bool(b) => r is Ok && *v2 == (Dynamic { value: Union::Int(with_bit(v.value->Int_0, idx as u64, b)), ..*v }),
            _ => r is Err && is_mismatch_error(*r->Err_0, "bool"@, spec_type_desc(nv)) && *v2 == *v,
        },
        Target::StringChar(v, idx, _) => new matches Target::StringChar(v2, idx2, nv2) && idx2 == idx && nv2 == nv
            && match spec_flatten(nv).value {
            Union::Char(c) => r is Ok && v2.tag == v.tag && v2.access == v.access && (v2.value matches Union::Str(t)
                && t@ == replace_char(v.value->Str_0@, idx as int, c)),
            _ => r is Err && is_mismatch_error(*r->Err_0, "char"@, spec_type_desc(nv)) && *v2 == *v,
        },
        _ => r is Ok && new.spec_value() == nv && same_kind(old, new),
    }
}

/// A copy of the value that a reference to `d` reaches (the inside of a shared value).
fn reached_clone(d: &Dynamic) -> (r: Dynamic)
    ensures
        r == reached_value(*d),
{
    match &d.value {
        Union::Shared(inner) => (**inner).clone(),
        _ => d.clone(),
    }
}

/// Assign `new_val` to a target, or combine it with the target's value by an
/// operator-assignment (`op_info`): a read-only target is refused as an assignment to the
/// constant `root` (a name and a position); a plain assignment replaces the value; an
/// operator-assignment computes the new value by the native functions `call_native` (see
/// `op_assignment_outcome`) on the value (the inside of a shared value) and `new_val`,
/// and writes it there; an error of these calls leaves the target as it was. Finally a
/// changed bit or character is written back into its container.
pub fn eval_op_assignment<F: Fn(&str, u64, &Dynamic, &Dynamic) -> Result<Dynamic, Box<EvalAltResult>>>(
    call_native: &F,
    op_info: Option<OpAssignment>,
    target: &mut Target,
    root: (&str, Position),
    new_val: Dynamic,
) -> (r: Result<(), Box<EvalAltResult>>)
    requires
        op_info matches Some(info) ==> info.op@.len() > 0,
        forall|s: &str, h: u64, a: &Dynamic, b: &Dynamic| #[trigger] call_native.requires((s, h, a, b)),
        *old(target) matches Target::BitField(v, idx, _) ==> (v.value is Int && idx < 64),
        *old(target) matches Target::StringChar(v, _, _) ==> v.value is Str,
    ensures
        old(target).spec_value().access == AccessMode::ReadOnly ==> (r matches Err(e) && (*e
            matches EvalAltResult::ErrorAssignmentToConstant(n, p) && n@ == root.0@ && p == root.1))
            && final(target).spec_value() == old(target).spec_value() && same_kind(*old(target), *final(target)),
        old(target).spec_value().access != AccessMode::ReadOnly && op_info is None ==> written_back(
            *old(target),
            *final(target),
            new_val,
            r,
        ),
        old(target).spec_value().access != AccessMode::ReadOnly ==> (op_info matches Some(info) ==> exists|
            res: Result<Dynamic, Box<EvalAltResult>>,
        |
            #[trigger] op_assignment_outcome(*call_native, info, reached_value(old(target).spec_value()), new_val, res)
                && match res {
                Ok(w) => written_back(*old(target), *final(target), written_into(old(target).spec_value(), w), r),
                Err(e) => r == Err::<(), Box<EvalAltResult>>(e) && final(target).spec_value() == old(
                    target,
                ).spec_value() && same_kind(*old(target), *final(target)),
            }),
{
    if target.deref().is_read_only() {
        return Err(Box::new(EvalAltResult::ErrorAssignmentToConstant(String::from_str(root.0), root.1)));
    }
    match op_info {
        Some(info) => {
            let current = target.deref();
            let lhs = reached_clone(current);
            let res = op_assignment_value(call_native, info, &lhs, &new_val);
            match res {
                Ok(w) => {
                    let slot = target.deref_mut();
                    if slot.is_shared() {
                        match &mut slot.value {
                            Union::Shared(inner) => {
                                **inner = w;
                            },
                            _ => {},
                        }
                    } else {
                        *slot = w;
                    }
                },
                Err(e) => {
                    return Err(e);
                },
            }
        },
        None => {
            *target.deref_mut() = new_val;
        },
    }
    target.propagate_changed_value()
}

} // verus!
