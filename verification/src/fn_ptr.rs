//! Function pointers: a function name plus curried argument values.
use vstd::prelude::*;
use crate::dynamic::Dynamic;
use crate::error::EvalAltResult;
use crate::immutable_string::ImmutableString;
use crate::position::Position;
use crate::static_vec::{static_values, StaticVec};
use crate::text::{has_prefix, starts_with};
use crate::token::{is_valid_identifier, valid_identifier};

verus! {

/// Prefix of the names given to anonymous functions.
pub const FN_ANONYMOUS: &'static str = "anon$";

/// A general function pointer, which may carry additional (i.e. curried) argument values
/// to be passed onto a function during a call.
pub struct FnPtr(pub String, pub StaticVec<Dynamic>);

impl FnPtr {
    /// The curried argument values.
    pub open spec fn curried(&self) -> Seq<Dynamic> {
        static_values(self.1)
    }

    /// Create a new function pointer to the function with this name, which must be a
    /// valid identifier.
    pub fn new(name: &str) -> (r: Result<FnPtr, Box<EvalAltResult>>)
        ensures
            valid_identifier(name@) ==> (r matches Ok(f) && f.0@ == name@ && f.curried()
                == Seq::<Dynamic>::empty()),
            !valid_identifier(name@) ==> (r matches Err(e) && *e matches EvalAltResult::ErrorFunctionNotFound(
                n,
                p,
            ) && n@ == name@ && p == Position::spec_none()),
    {
        FnPtr::try_from(String::from_str(name))
    }

    /// Turn a name into a function pointer with no curried arguments; a name that is not a
    /// valid identifier is refused as a function that cannot be found.
    pub fn try_from(value: String) -> (r: Result<FnPtr, Box<EvalAltResult>>)
        ensures
            valid_identifier(value@) ==> (r matches Ok(f) && f.0 == value && f.curried()
                == Seq::<Dynamic>::empty()),
            !valid_identifier(value@) ==> (r matches Err(e) && *e matches EvalAltResult::ErrorFunctionNotFound(
                n,
                p,
            ) && n == value && p == Position::spec_none()),
    {
        if is_valid_identifier(value.as_str()) {
            Ok(FnPtr(value, StaticVec::new_values()))
        } else {
            Err(Box::new(EvalAltResult::ErrorFunctionNotFound(value, Position::none())))
        }
    }

    /// Create a new function pointer without checking its name.
    pub fn new_unchecked(name: String, curry: StaticVec<Dynamic>) -> (r: FnPtr)
        ensures
            r.0 == name,
            r.1 == curry,
    {
        FnPtr(name, curry)
    }

    /// The name of the function.
    pub fn fn_name(&self) -> (r: &str)
        ensures
            r@ == self.0@,
    {
        self.0.as_str()
    }

    /// The name of the function, as stored.
    pub fn fn_name_raw(&self) -> (r: &String)
        ensures
            *r == self.0,
    {
        &self.0
    }

    /// Take apart the function pointer: its name and curried values.
    pub fn take_data(self) -> (r: (String, StaticVec<Dynamic>))
        ensures
            r.0 == self.0,
            r.1 == self.1,
    {
        (self.0, self.1)
    }

    /// The curried argument values.
    pub fn curry(&self) -> (r: &[Dynamic])
        ensures
            r@ == self.curried(),
    {
        self.1.values_slice()
    }

    /// Add a new curried argument.
    pub fn add_curry(&mut self, value: Dynamic) -> (r: &mut Self)
        requires
            old(self).curried().len() < 0x8000_0000_0000_0000,
        ensures
            r.0 == old(self).0,
            r.curried() == old(self).curried().push(value),
            *final(self) == *final(r),
    {
        self.1.push_value(value);
        self
    }

    /// Replace the curried arguments.
    pub fn set_curry(&mut self, values: Vec<Dynamic>) -> (r: &mut Self)
        ensures
            r.0 == old(self).0,
            r.curried() == values@,
            *final(self) == *final(r),
    {
        self.1 = StaticVec::values_from_vec(values);
        self
    }

    /// Is the function pointer curried?
    pub fn is_curried(&self) -> (r: bool)
        ensures
            r == (self.curried().len() > 0),
    {
        self.1.values_len() != 0
    }

    /// The number of curried arguments.
    pub fn num_curried(&self) -> (r: usize)
        ensures
            r == self.curried().len(),
    {
        self.1.values_len()
    }

    /// Does the function pointer refer to an anonymous function?
    pub fn is_anonymous(&self) -> (r: bool)
        ensures
            r == has_prefix(self.0@, FN_ANONYMOUS@),
    {
        starts_with(self.0.as_str(), FN_ANONYMOUS)
    }

    /// Call the function that the pointer refers to: `call` is the engine's call of a
    /// function by name, given the object of a method call (if any, which makes it a
    /// method call) and the arguments, which are the curried values followed by
    /// `arg_values`; its answer is returned.
    pub fn call_dynamic<F: Fn(&str, Option<&mut Dynamic>, Vec<Dynamic>) -> Result<Dynamic, Box<EvalAltResult>>>(
        &self,
        call: &F,
        this_ptr: Option<&mut Dynamic>,
        arg_values: Vec<Dynamic>,
    ) -> (r: Result<Dynamic, Box<EvalAltResult>>)
        requires
            forall|n: &str, t: Option<&mut Dynamic>, a: Vec<Dynamic>| #[trigger] call.requires((n, t, a)),
        ensures
            exists|n: &str, a: Vec<Dynamic>|
                n@ == self.0@ && a@ == self.curried() + arg_values@ && #[trigger] call.ensures((n, this_ptr, a), r),
    {
        let curry = self.curry();
        let mut args: Vec<Dynamic> = Vec::new();
        let mut i: usize = 0;
        while i < curry.len()
            invariant
                i <= curry@.len(),
                args@ == curry@.take(i as int),
            decreases curry@.len() - i,
        {
            args.push(curry[i].clone());
            assert(curry@.take(i + 1) == curry@.take(i as int).push(curry@[i as int]));
            i = i + 1;
        }
        assert(curry@.take(curry@.len() as int) == curry@);
        let mut rest = arg_values;
        args.append(&mut rest);
        call(self.fn_name(), this_ptr, args)
    }

    /// The text of the function pointer: `Fn(` name `)`.
    pub fn to_text(&self) -> (r: String)
        ensures
            r@ == "Fn("@ + self.0@ + ")"@,
    {
        let mut s = String::from_str("Fn(");
        s.append(self.0.as_str());
        s.append(")");
        s
    }
}

/// `debug` of a function pointer: its text, `Fn(` name `)`.
pub fn debug_fn_ptr(f: &mut FnPtr) -> (r: ImmutableString)
    ensures
        *final(f) == *old(f),
        r@ == "Fn("@ + old(f).0@ + ")"@,
{
    ImmutableString::from_string(f.to_text())
}

} // verus!
