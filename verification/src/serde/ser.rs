//! Building script values from serialized data.
use vstd::prelude::*;
use crate::dynamic::{Dynamic, Union};

verus! {

/// The state of building a [`Dynamic`] from serialized data: a buffer for a key being
/// read, and the value being built.
pub struct DynamicSerializer {
    pub _key: Dynamic,
    pub _value: Dynamic,
}

impl DynamicSerializer {
    /// A serializer that starts from `value`, with an empty key buffer.
    pub fn new(value: Dynamic) -> (r: Self)
        ensures
            r._key == Dynamic::spec_of(Union::Unit),
            r._value == value,
    {
        DynamicSerializer { _key: Dynamic::unit(), _value: value }
    }
}

} // verus!
