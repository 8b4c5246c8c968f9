//! Short vectors kept inline (`smallvec::SmallVec` with room for four items).
use std::rc::Rc;
use smallvec::SmallVec;
use vstd::prelude::*;
use crate::dynamic::Dynamic;
use crate::module::Module;

verus! {

/// A short vector of items kept inline while there are at most four of them.
#[verifier::external_body]
#[verifier::reject_recursive_types(T)]
pub struct StaticVec<T> {
    inner: SmallVec<[T; 4]>,
}

/// The values held by a vector of values, in order.
pub uninterp spec fn static_values(v: StaticVec<Dynamic>) -> Seq<Dynamic>;

/// The names held by a vector of names, in order.
pub uninterp spec fn static_names(v: StaticVec<String>) -> Seq<String>;

/// The modules held by a vector of shared modules, in order.
pub uninterp spec fn static_modules(v: StaticVec<Rc<Module>>) -> Seq<Rc<Module>>;

impl StaticVec<Dynamic> {
    /// `SmallVec::new`: an empty vector.
    #[verifier::external_body]
    pub(crate) fn new_values() -> (r: Self)
        ensures
            static_values(r) == Seq::<Dynamic>::empty(),
    {
        StaticVec { inner: SmallVec::new() }
    }

    /// `SmallVec::from_vec`: the same items, in the same order.
    #[verifier::external_body]
    pub(crate) fn values_from_vec(v: Vec<Dynamic>) -> (r: Self)
        ensures
            static_values(r) == v@,
    {
        StaticVec { inner: SmallVec::from_vec(v) }
    }

    /// `SmallVec::len`: the number of items.
    #[verifier::external_body]
    pub(crate) fn values_len(&self) -> (r: usize)
        ensures
            r == static_values(*self).len(),
    {
        self.inner.len()
    }

    /// `SmallVec::push`: append an item (the length must leave room for growing the
    /// capacity to the next power of two).
    #[verifier::external_body]
    pub(crate) fn push_value(&mut self, value: Dynamic)
        requires
            static_values(*old(self)).len() < 0x8000_0000_0000_0000,
        ensures
            static_values(*final(self)) == static_values(*old(self)).push(value),
    {
        self.inner.push(value);
    }

    /// `SmallVec::truncate`: keep the first `len` values (all of them if there are fewer).
    #[verifier::external_body]
    pub(crate) fn truncate_values(&mut self, len: usize)
        ensures
            static_values(*final(self)) == if len < static_values(*old(self)).len() {
                static_values(*old(self)).take(len as int)
            } else {
                static_values(*old(self))
            },
    {
        self.inner.truncate(len);
    }

    /// Indexing a `SmallVec` mutably: a reference to the value at `index`; what is written
    /// through it is what the vector holds there afterwards.
    #[verifier::external_body]
    pub(crate) fn value_at_mut(&mut self, index: usize) -> (r: &mut Dynamic)
        requires
            index < static_values(*old(self)).len(),
        ensures
            *r == static_values(*old(self))[index as int],
            static_values(*final(self)) == static_values(*old(self)).update(index as int, *final(r)),
    {
        &mut self.inner[index]
    }

    /// `SmallVec::as_slice`: the items as a slice.
    #[verifier::external_body]
    pub(crate) fn values_slice(&self) -> (r: &[Dynamic])
        ensures
            r@ == static_values(*self),
    {
        self.inner.as_slice()
    }
}

impl StaticVec<String> {
    /// `SmallVec::new`: an empty vector.
    #[verifier::external_body]
    pub(crate) fn new_names() -> (r: Self)
        ensures
            static_names(r) == Seq::<String>::empty(),
    {
        StaticVec { inner: SmallVec::new() }
    }

    /// `SmallVec::len`: the number of names.
    #[verifier::external_body]
    pub(crate) fn names_len(&self) -> (r: usize)
        ensures
            r == static_names(*self).len(),
    {
        self.inner.len()
    }

    /// `SmallVec::push`: append a name.
    #[verifier::external_body]
    pub(crate) fn push_name(&mut self, name: String)
        requires
            static_names(*old(self)).len() < 0x8000_0000_0000_0000,
        ensures
            static_names(*final(self)) == static_names(*old(self)).push(name),
    {
        self.inner.push(name);
    }

    /// `SmallVec::truncate`: keep the first `len` names (all of them if there are fewer).
    #[verifier::external_body]
    pub(crate) fn truncate_names(&mut self, len: usize)
        ensures
            static_names(*final(self)) == if len < static_names(*old(self)).len() {
                static_names(*old(self)).take(len as int)
            } else {
                static_names(*old(self))
            },
    {
        self.inner.truncate(len);
    }

    /// `SmallVec::as_slice`: the names as a slice.
    #[verifier::external_body]
    pub(crate) fn names_slice(&self) -> (r: &[String])
        ensures
            r@ == static_names(*self),
    {
        self.inner.as_slice()
    }
}

impl StaticVec<Rc<Module>> {
    /// `SmallVec::new`: an empty vector.
    #[verifier::external_body]
    pub(crate) fn new_modules() -> (r: Self)
        ensures
            static_modules(r) == Seq::<Rc<Module>>::empty(),
    {
        StaticVec { inner: SmallVec::new() }
    }

    /// `SmallVec::push`: append a module.
    #[verifier::external_body]
    pub(crate) fn push_module(&mut self, module: Rc<Module>)
        requires
            static_modules(*old(self)).len() < 0x8000_0000_0000_0000,
        ensures
            static_modules(*final(self)) == static_modules(*old(self)).push(module),
    {
        self.inner.push(module);
    }

    /// `SmallVec::truncate`: keep the first `len` modules (all of them if there are fewer).
    #[verifier::external_body]
    pub(crate) fn truncate_modules(&mut self, len: usize)
        ensures
            static_modules(*final(self)) == if len < static_modules(*old(self)).len() {
                static_modules(*old(self)).take(len as int)
            } else {
                static_modules(*old(self))
            },
    {
        self.inner.truncate(len);
    }

    /// `SmallVec::as_slice`: the modules as a slice.
    #[verifier::external_body]
    pub(crate) fn modules_slice(&self) -> (r: &[Rc<Module>])
        ensures
            r@ == static_modules(*self),
    {
        self.inner.as_slice()
    }
}

} // verus!
