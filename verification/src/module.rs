//! Modules: named collections of functions, as far as lookups by hash are concerned.
use vstd::prelude::*;

pub mod resolvers;

verus! {

/// A module, as seen by import lookups: an optional identifier, the hash keys of the
/// namespace-qualified functions it holds, and the type keys of the iterators it provides
/// (each paired with the handle of the iterator function).
#[derive(Debug)]
pub struct Module {
    pub id: Option<String>,
    pub qualified_fns: Vec<u64>,
    pub qualified_iters: Vec<(u64, u64)>,
}

impl Module {
    /// Does the module hold the qualified function with this hash key?
    pub fn contains_qualified_fn(&self, hash: u64) -> (r: bool)
        ensures
            r == self.qualified_fns@.contains(hash),
    {
        let mut i: usize = 0;
        while i < self.qualified_fns.len()
            invariant
                i <= self.qualified_fns.len(),
                forall|j: int| 0 <= j < i ==> self.qualified_fns@[j] != hash,
            decreases self.qualified_fns.len() - i,
        {
            if self.qualified_fns[i] == hash {
                return true;
            }
            i = i + 1;
        }
        false
    }

    /// The handle of the iterator registered for a type key, if any (the first one).
    pub fn get_qualified_iter(&self, type_key: u64) -> (r: Option<u64>)
        ensures
            r matches Some(h) ==> exists|j: int| 0 <= j < self.qualified_iters@.len()
                && self.qualified_iters@[j] == (type_key, h),
            r is None ==> forall|j: int| 0 <= j < self.qualified_iters@.len() ==> (#[trigger] self.qualified_iters@[j]).0 != type_key,
    {
        let mut i: usize = 0;
        while i < self.qualified_iters.len()
            invariant
                i <= self.qualified_iters.len(),
                forall|j: int| 0 <= j < i ==> (#[trigger] self.qualified_iters@[j]).0 != type_key,
            decreases self.qualified_iters.len() - i,
        {
            if self.qualified_iters[i].0 == type_key {
                return Some(self.qualified_iters[i].1);
            }
            i = i + 1;
        }
        None
    }

    /// Does the module provide an iterator for this type key?
    pub fn contains_qualified_iter(&self, type_key: u64) -> (r: bool)
        ensures
            r == exists|j: int| 0 <= j < self.qualified_iters@.len() && (#[trigger] self.qualified_iters@[j]).0 == type_key,
    {
        self.get_qualified_iter(type_key).is_some()
    }
}

} // verus!
