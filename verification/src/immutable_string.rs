//! The `ImmutableString` type: a shared, copy-on-write string.
use std::rc::Rc;
use vstd::prelude::*;
use crate::fn_native::{shared_make_mut, shared_take_or_clone};
use crate::text::{push_char, remove_all, remove_all_str, remove_char};

verus! {

/// The system immutable string type: a reference-counted string that is only
/// copied when it is modified while shared.
#[derive(Debug)]
pub struct ImmutableString(pub Rc<String>);

impl Clone for ImmutableString {
    /// Another reference to the same shared string (no text is copied).
    fn clone(&self) -> (r: Self)
        ensures
            r == *self,
    {
        ImmutableString(Rc::clone(&self.0))
    }
}

impl View for ImmutableString {
    type V = Seq<char>;

    open spec fn view(&self) -> Seq<char> {
        (*self.0)@
    }
}

impl ImmutableString {
    /// Create a new, empty [`ImmutableString`].
    pub fn new() -> (s: ImmutableString)
        ensures
            s@ == Seq::<char>::empty(),
    {
        ImmutableString(Rc::new(String::new()))
    }

    /// Create an [`ImmutableString`] holding a copy of a string slice.
    pub fn from_str(s: &str) -> (r: ImmutableString)
        ensures
            r@ == s@,
    {
        ImmutableString(Rc::new(String::from_str(s)))
    }

    /// Create an [`ImmutableString`] taking ownership of a [`String`].
    pub fn from_string(s: String) -> (r: ImmutableString)
        ensures
            r@ == s@,
    {
        ImmutableString(Rc::new(s))
    }

    /// The text as a string slice.
    pub fn as_str(&self) -> (r: &str)
        ensures
            r@ == self@,
    {
        self.0.as_str()
    }

    /// Is the string empty?
    pub fn is_empty(&self) -> (r: bool)
        ensures
            r == (self@.len() == 0),
    {
        self.0.as_str().is_empty()
    }

    /// Consume the [`ImmutableString`] and convert it into a [`String`].
    /// If there are other references to the same string, a cloned copy is returned.
    pub fn into_owned(self) -> (s: String)
        ensures
            s@ == self@,
    {
        shared_take_or_clone(self.0)
    }

    /// Make sure that the [`ImmutableString`] is not shared, then return a mutable
    /// reference to the underlying string.
    pub fn make_mut(&mut self) -> (r: &mut String)
        ensures
            r@ == old(self)@,
            final(self)@ == final(r)@,
    {
        shared_make_mut(&mut self.0)
    }

    /// Append a string slice (the `+=` operator with a string).
    pub fn push_str(&mut self, rhs: &str)
        ensures
            final(self)@ == old(self)@ + rhs@,
    {
        if !rhs.is_empty() {
            self.make_mut().append(rhs);
        } else {
            assert(rhs@ == Seq::<char>::empty());
            assert(old(self)@ + rhs@ == old(self)@);
        }
    }

    /// Append a character (the `+=` operator with a character).
    pub fn push(&mut self, ch: char)
        ensures
            final(self)@ == old(self)@.push(ch),
    {
        push_char(self.make_mut(), ch);
    }

    /// Concatenate two strings (the `+` operator): the result is the text of `self`
    /// followed by the text of `rhs`; an empty operand yields the other one as is.
    pub fn concat(&self, rhs: &ImmutableString) -> (r: ImmutableString)
        ensures
            r@ == self@ + rhs@,
    {
        if rhs.is_empty() {
            assert(self@ + rhs@ == self@);
            self.clone()
        } else if self.is_empty() {
            assert(self@ + rhs@ == rhs@);
            rhs.clone()
        } else {
            let mut s = self.clone();
            s.push_str(rhs.as_str());
            s
        }
    }
    /// Append a string in place (the `+=` operator): an empty `self` takes `rhs` as is.
    pub fn add_assign(&mut self, rhs: &ImmutableString)
        ensures
            final(self)@ == old(self)@ + rhs@,
    {
        if !rhs.is_empty() {
            if self.is_empty() {
                assert(old(self)@ + rhs@ == rhs@);
                *self = rhs.clone();
            } else {
                self.push_str(rhs.as_str());
            }
        } else {
            assert(old(self)@ + rhs@ == old(self)@);
        }
    }

    /// A new string: `self` followed by the character `ch` (the `+` operator with a
    /// character).
    pub fn concat_char(&self, ch: char) -> (r: ImmutableString)
        ensures
            r@ == self@.push(ch),
    {
        let mut s = self.clone();
        s.push(ch);
        s
    }

    /// Remove every occurrence of `rhs` (the `-` operator): an empty `rhs` leaves `self`
    /// as is, and an empty `self` yields `rhs`.
    pub fn sub(&self, rhs: &ImmutableString) -> (r: ImmutableString)
        ensures
            r@ == (if rhs@.len() == 0 {
                self@
            } else if self@.len() == 0 {
                rhs@
            } else {
                remove_all(self@, rhs@)
            }),
    {
        if rhs.is_empty() {
            self.clone()
        } else if self.is_empty() {
            rhs.clone()
        } else {
            ImmutableString::from_string(remove_all_str(self.as_str(), rhs.as_str()))
        }
    }

    /// Remove every occurrence of `rhs` in place (the `-=` operator): an empty `rhs`
    /// leaves `self` as is, and an empty `self` becomes `rhs`.
    pub fn sub_assign(&mut self, rhs: &ImmutableString)
        ensures
            final(self)@ == (if rhs@.len() == 0 {
                old(self)@
            } else if old(self)@.len() == 0 {
                rhs@
            } else {
                remove_all(old(self)@, rhs@)
            }),
    {
        if !rhs.is_empty() {
            if self.is_empty() {
                *self = rhs.clone();
            } else {
                *self = ImmutableString::from_string(remove_all_str(self.as_str(), rhs.as_str()));
            }
        }
    }

    /// Remove every occurrence of the character `ch` (the `-` operator with a character).
    pub fn subtract_char(&self, ch: char) -> (r: ImmutableString)
        ensures
            r@ == remove_all(self@, seq![ch]),
    {
        ImmutableString::from_string(remove_char(self.as_str(), ch))
    }
}

} // verus!
