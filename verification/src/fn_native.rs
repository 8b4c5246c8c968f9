//! Helpers for shared (reference-counted) values.
use std::rc::Rc;
use vstd::prelude::*;

verus! {

/// A marker trait for types that can be shared across threads (no requirement
/// in the single-threaded configuration).
pub trait SendSync {}

/// `Rc::make_mut`: a mutable reference to the wrapped value. If the resource is
/// shared (i.e. has other outstanding references), a cloned copy is used.
///
/// Trusted: the reference points either at the original value or at a clone of
/// it, and what is written through it is what the `Rc` holds afterwards.
#[verifier::external_body]
pub fn shared_make_mut<T: Clone>(value: &mut Rc<T>) -> (r: &mut T)
    ensures
        *r == **old(value) || cloned::<T>(**old(value), *r),
        **final(value) == *final(r),
{
    Rc::make_mut(value)
}

/// Consume a shared resource if it is unique (i.e. not shared); give it back otherwise.
pub fn shared_try_take<T>(value: Rc<T>) -> (r: Result<T, Rc<T>>)
    ensures
        match r {
            Ok(t) => t == *value,
            Err(e) => e == value,
        },
{
    Rc::try_unwrap(value)
}

/// Consume a shared resource if it is unique (i.e. not shared), or clone it otherwise.
pub fn shared_take_or_clone<T: Clone>(value: Rc<T>) -> (r: T)
    ensures
        r == *value || cloned::<T>(*value, r),
{
    match shared_try_take(value) {
        Ok(t) => t,
        Err(v) => (*v).clone(),
    }
}

} // verus!
