//! The scope of variables that a script runs in: a stack of named values, searched from
//! the most recent entry, so that a later variable shadows an earlier one of the same name.
use vstd::prelude::*;
use crate::dynamic::{spec_flatten, AccessMode, Dynamic};
use crate::static_vec::{static_names, static_values, StaticVec};
use crate::text::str_eq;

verus! {

/// The index of the last entry named `name`, if there is one.
pub open spec fn last_index_of(names: Seq<String>, name: Seq<char>) -> Option<int>
    decreases names.len(),
{
    if names.len() == 0 {
        None
    } else if names.last()@ == name {
        Some(names.len() - 1)
    } else {
        last_index_of(names.drop_last(), name)
    }
}

/// Where the last entry of a name is, and that no later entry has that name.
pub proof fn lemma_last_index_of_range(names: Seq<String>, name: Seq<char>)
    ensures
        last_index_of(names, name) matches Some(i) ==> 0 <= i < names.len() && names[i]@ == name && forall|j: int|
            i < j < names.len() ==> (#[trigger] names[j])@ != name,
        last_index_of(names, name) is None ==> forall|j: int| 0 <= j < names.len() ==> (#[trigger] names[j])@ != name,
    decreases names.len(),
{
    if names.len() > 0 {
        lemma_last_index_of_range(names.drop_last(), name);
        assert forall|j: int| 0 <= j < names.len() - 1 implies names.drop_last()[j] == names[j] by {}
    }
}

proof fn lemma_last_index_skip(names: Seq<String>, name: Seq<char>, i: int)
    requires
        0 <= i <= names.len(),
        forall|j: int| i <= j < names.len() ==> (#[trigger] names[j])@ != name,
    ensures
        last_index_of(names, name) == last_index_of(names.take(i), name),
    decreases names.len(),
{
    if i == names.len() {
        assert(names.take(i) == names);
    } else {
        assert(names.last() == names[names.len() - 1]);
        let d = names.drop_last();
        assert forall|j: int| i <= j < d.len() implies (#[trigger] d[j])@ != name by {
            assert(d[j] == names[j]);
        }
        lemma_last_index_skip(d, name, i);
        assert(d.take(i) == names.take(i));
    }
}

proof fn lemma_last_index_push(names: Seq<String>, name: String, other: Seq<char>)
    ensures
        last_index_of(names.push(name), name@) == Some(names.len() as int),
        other != name@ ==> last_index_of(names.push(name), other) == last_index_of(names, other),
{
    assert(names.push(name).drop_last() == names);
}

/// A scope of variables: names with their values; each value records whether the
/// variable is a constant (read-only).
pub struct Scope {
    values: StaticVec<Dynamic>,
    names: StaticVec<String>,
}

impl Scope {
    /// The names of the entries, from the oldest.
    pub closed spec fn spec_names(&self) -> Seq<String> {
        static_names(self.names)
    }

    /// The values of the entries, from the oldest.
    pub closed spec fn spec_values(&self) -> Seq<Dynamic> {
        static_values(self.values)
    }

    /// The scope's invariant: one value for each name.
    pub open spec fn wf(&self) -> bool {
        &&& self.spec_names().len() == self.spec_values().len()
        &&& self.spec_names().len() <= 0x8000_0000_0000_0000
    }

    /// The index of the variable that `name` refers to: the last entry of that name.
    pub open spec fn index_of(&self, name: Seq<char>) -> Option<int> {
        last_index_of(self.spec_names(), name)
    }

    /// Has the scope room for one more entry?
    pub open spec fn has_room(&self) -> bool {
        self.spec_names().len() < 0x8000_0000_0000_0000
    }

    /// A new, empty scope.
    pub fn new() -> (r: Self)
        ensures
            r.wf(),
            r.spec_names() == Seq::<String>::empty(),
            r.spec_values() == Seq::<Dynamic>::empty(),
    {
        Scope { values: StaticVec::new_values(), names: StaticVec::new_names() }
    }

    /// Remove every entry.
    pub fn clear(&mut self) -> (r: &mut Self)
        ensures
            r.wf(),
            r.spec_names() == Seq::<String>::empty(),
            r.spec_values() == Seq::<Dynamic>::empty(),
            *final(self) == *final(r),
    {
        self.names.truncate_names(0);
        self.values.truncate_values(0);
        self
    }

    /// The number of entries.
    pub fn len(&self) -> (r: usize)
        requires
            self.wf(),
        ensures
            r == self.spec_values().len(),
    {
        self.values.values_len()
    }

    /// Is the scope empty?
    pub fn is_empty(&self) -> (r: bool)
        requires
            self.wf(),
        ensures
            r == (self.spec_values().len() == 0),
    {
        self.values.values_len() == 0
    }

    /// Add an entry with the given access mode.
    pub fn push_dynamic_value(&mut self, name: String, access: AccessMode, value: Dynamic) -> (r: &mut Self)
        requires
            old(self).wf(),
            old(self).has_room(),
        ensures
            r.wf(),
            r.spec_names() == old(self).spec_names().push(name),
            r.spec_values() == old(self).spec_values().push(Dynamic { access: access, ..value }),
            *final(self) == *final(r),
    {
        let mut value = value;
        self.names.push_name(name);
        value.set_access_mode(access);
        self.values.push_value(value);
        self
    }

    /// Add a variable, modifiable.
    pub fn push(&mut self, name: String, value: Dynamic) -> (r: &mut Self)
        requires
            old(self).wf(),
            old(self).has_room(),
        ensures
            r.wf(),
            r.spec_names() == old(self).spec_names().push(name),
            r.spec_values() == old(self).spec_values().push(Dynamic { access: AccessMode::ReadWrite, ..value }),
            *final(self) == *final(r),
    {
        self.push_dynamic_value(name, AccessMode::ReadWrite, value)
    }

    /// Add a variable, keeping the access mode of the value.
    pub fn push_dynamic(&mut self, name: String, value: Dynamic) -> (r: &mut Self)
        requires
            old(self).wf(),
            old(self).has_room(),
        ensures
            r.wf(),
            r.spec_names() == old(self).spec_names().push(name),
            r.spec_values() == old(self).spec_values().push(value),
            *final(self) == *final(r),
    {
        let access = value.access_mode();
        self.push_dynamic_value(name, access, value)
    }

    /// Add a constant.
    pub fn push_constant(&mut self, name: String, value: Dynamic) -> (r: &mut Self)
        requires
            old(self).wf(),
            old(self).has_room(),
        ensures
            r.wf(),
            r.spec_names() == old(self).spec_names().push(name),
            r.spec_values() == old(self).spec_values().push(Dynamic { access: AccessMode::ReadOnly, ..value }),
            *final(self) == *final(r),
    {
        self.push_dynamic_value(name, AccessMode::ReadOnly, value)
    }

    /// Add a constant holding a value.
    pub fn push_constant_dynamic(&mut self, name: String, value: Dynamic) -> (r: &mut Self)
        requires
            old(self).wf(),
            old(self).has_room(),
        ensures
            r.wf(),
            r.spec_names() == old(self).spec_names().push(name),
            r.spec_values() == old(self).spec_values().push(Dynamic { access: AccessMode::ReadOnly, ..value }),
            *final(self) == *final(r),
    {
        self.push_dynamic_value(name, AccessMode::ReadOnly, value)
    }

    /// Keep only the first `size` entries (all of them if there are fewer).
    pub fn rewind(&mut self, size: usize) -> (r: &mut Self)
        requires
            old(self).wf(),
        ensures
            r.wf(),
            size < old(self).spec_names().len() ==> r.spec_names() == old(self).spec_names().take(size as int)
                && r.spec_values() == old(self).spec_values().take(size as int),
            size >= old(self).spec_names().len() ==> r.spec_names() == old(self).spec_names() && r.spec_values()
                == old(self).spec_values(),
            *final(self) == *final(r),
    {
        self.names.truncate_names(size);
        self.values.truncate_values(size);
        self
    }

    /// The index of the variable named `name` (the last entry of that name) and its
    /// access mode.
    pub fn get_index(&self, name: &str) -> (r: Option<(usize, AccessMode)>)
        requires
            self.wf(),
        ensures
            r == match self.index_of(name@) {
                Some(i) => Some((i as usize, self.spec_values()[i].access)),
                None => None::<(usize, AccessMode)>,
            },
            r matches Some(p) ==> p.0 < self.spec_values().len(),
            self.index_of(name@) matches Some(i) ==> 0 <= i < self.spec_values().len(),
            self.spec_values().len() <= usize::MAX,
    {
        proof {
            lemma_last_index_of_range(self.spec_names(), name@);
        }
        let names = self.names.names_slice();
        let values = self.values.values_slice();
        let mut i = names.len();
        while i > 0
            invariant
                i <= names@.len(),
                names@ == self.spec_names(),
                values@ == self.spec_values(),
                self.wf(),
                forall|j: int| i <= j < names@.len() ==> (#[trigger] names@[j])@ != name@,
            decreases i,
        {
            if str_eq(names[i - 1].as_str(), name) {
                proof {
                    lemma_last_index_skip(names@, name@, i as int);
                    assert(names@.take(i as int).last() == names@[i - 1]);
                }
                return Some((i - 1, values[i - 1].access_mode()));
            }
            i = i - 1;
        }
        proof {
            lemma_last_index_skip(names@, name@, 0);
        }
        None
    }

    /// Is there a variable named `name`?
    pub fn contains(&self, name: &str) -> (r: bool)
        requires
            self.wf(),
        ensures
            r == self.index_of(name@) is Some,
    {
        self.get_index(name).is_some()
    }

    /// The value of the variable named `name`, with any sharing wrappers removed.
    pub fn get_value(&self, name: &str) -> (r: Option<Dynamic>)
        requires
            self.wf(),
        ensures
            r == match self.index_of(name@) {
                Some(i) => Some(spec_flatten(self.spec_values()[i])),
                None => None::<Dynamic>,
            },
    {
        match self.get_index(name) {
            Some((i, _)) => {
                let values = self.values.values_slice();
                Some(values[i].flatten_clone())
            },
            None => None,
        }
    }

    /// Is the variable named `name` a constant? `None` if there is no such variable.
    pub fn is_constant(&self, name: &str) -> (r: Option<bool>)
        requires
            self.wf(),
        ensures
            r == match self.index_of(name@) {
                Some(i) => Some(self.spec_values()[i].access == AccessMode::ReadOnly),
                None => None::<bool>,
            },
    {
        match self.get_index(name) {
            Some((_, AccessMode::ReadOnly)) => Some(true),
            Some((_, AccessMode::ReadWrite)) => Some(false),
            None => None,
        }
    }

    /// Set the value of the variable named `name`, if it exists and is not a constant;
    /// otherwise add a new, modifiable variable.
    pub fn set_or_push(&mut self, name: String, value: Dynamic) -> (r: &mut Self)
        requires
            old(self).wf(),
            old(self).has_room(),
        ensures
            r.wf(),
            match old(self).index_of(name@) {
                Some(i) => if old(self).spec_values()[i].access == AccessMode::ReadWrite {
                    r.spec_names() == old(self).spec_names() && r.spec_values() == old(self).spec_values().update(
                        i,
                        value,
                    )
                } else {
                    r.spec_names() == old(self).spec_names().push(name) && r.spec_values()
                        == old(self).spec_values().push(Dynamic { access: AccessMode::ReadWrite, ..value })
                },
                None => r.spec_names() == old(self).spec_names().push(name) && r.spec_values()
                    == old(self).spec_values().push(Dynamic { access: AccessMode::ReadWrite, ..value }),
            },
            *final(self) == *final(r),
    {
        match self.get_index(name.as_str()) {
            Some((index, AccessMode::ReadWrite)) => {
                let slot = self.values.value_at_mut(index);
                *slot = value;
                self
            },
            _ => self.push(name, value),
        }
    }

    /// Set the value of the variable named `name`, or add a new, modifiable variable if
    /// there is none; the variable must not be a constant.
    pub fn set_value(&mut self, name: String, value: Dynamic) -> (r: &mut Self)
        requires
            old(self).wf(),
            old(self).has_room(),
            old(self).index_of(name@) matches Some(i) ==> old(self).spec_values()[i].access == AccessMode::ReadWrite,
        ensures
            r.wf(),
            match old(self).index_of(name@) {
                Some(i) => r.spec_names() == old(self).spec_names() && r.spec_values()
                    == old(self).spec_values().update(i, value),
                None => r.spec_names() == old(self).spec_names().push(name) && r.spec_values()
                    == old(self).spec_values().push(Dynamic { access: AccessMode::ReadWrite, ..value }),
            },
            *final(self) == *final(r),
    {
        self.set_or_push(name, value)
    }

    /// A reference to the value of the variable named `name`, if it exists and is not a
    /// constant.
    pub fn get_mut(&mut self, name: &str) -> (r: Option<&mut Dynamic>)
        requires
            old(self).wf(),
        ensures
            final(self).wf(),
            final(self).spec_names() == old(self).spec_names(),
            match old(self).index_of(name@) {
                Some(i) => if old(self).spec_values()[i].access == AccessMode::ReadWrite {
                    r matches Some(v) && *v == old(self).spec_values()[i] && final(self).spec_values()
                        == old(self).spec_values().update(i, *final(v))
                } else {
                    r is None && final(self).spec_values() == old(self).spec_values()
                },
                None => r is None && final(self).spec_values() == old(self).spec_values(),
            },
    {
        match self.get_index(name) {
            Some((index, AccessMode::ReadWrite)) => Some(self.values.value_at_mut(index)),
            _ => None,
        }
    }

    /// The entries, from the oldest: name, whether it is a constant, and the value with
    /// any sharing wrappers removed.
    pub fn iter(&self) -> (r: Vec<(&str, bool, Dynamic)>)
        requires
            self.wf(),
        ensures
            r@.len() == self.spec_names().len(),
            forall|i: int| 0 <= i < r@.len() ==> (#[trigger] r@[i]).0@ == self.spec_names()[i]@ && r@[i].1 == (
            self.spec_values()[i].access == AccessMode::ReadOnly) && r@[i].2 == spec_flatten(self.spec_values()[i]),
    {
        let names = self.names.names_slice();
        let values = self.values.values_slice();
        let mut r: Vec<(&str, bool, Dynamic)> = Vec::new();
        let mut i: usize = 0;
        while i < names.len()
            invariant
                names@ == self.spec_names(),
                values@ == self.spec_values(),
                self.wf(),
                i <= names@.len(),
                r@.len() == i,
                forall|k: int| 0 <= k < i ==> (#[trigger] r@[k]).0@ == self.spec_names()[k]@ && r@[k].1 == (
                self.spec_values()[k].access == AccessMode::ReadOnly) && r@[k].2 == spec_flatten(self.spec_values()[k]),
            decreases names.len() - i,
        {
            r.push((names[i].as_str(), values[i].is_read_only(), values[i].flatten_clone()));
            i = i + 1;
        }
        r
    }

    /// The entries, from the oldest: name, whether it is a constant, and the value as it
    /// is stored.
    pub fn iter_raw(&self) -> (r: Vec<(&str, bool, &Dynamic)>)
        requires
            self.wf(),
        ensures
            r@.len() == self.spec_names().len(),
            forall|i: int| 0 <= i < r@.len() ==> (#[trigger] r@[i]).0@ == self.spec_names()[i]@ && r@[i].1 == (
            self.spec_values()[i].access == AccessMode::ReadOnly) && *r@[i].2 == self.spec_values()[i],
    {
        let names = self.names.names_slice();
        let values = self.values.values_slice();
        let mut r: Vec<(&str, bool, &Dynamic)> = Vec::new();
        let mut i: usize = 0;
        while i < names.len()
            invariant
                names@ == self.spec_names(),
                values@ == self.spec_values(),
                self.wf(),
                i <= names@.len(),
                r@.len() == i,
                forall|k: int| 0 <= k < i ==> (#[trigger] r@[k]).0@ == self.spec_names()[k]@ && r@[k].1 == (
                self.spec_values()[k].access == AccessMode::ReadOnly) && *r@[k].2 == self.spec_values()[k],
            decreases names.len() - i,
        {
            r.push((names[i].as_str(), values[i].is_read_only(), &values[i]));
            i = i + 1;
        }
        r
    }
}

/// What a scope gives back of what it was given: after a variable is pushed, its name
/// refers to the pushed value (shadowing any earlier variable of that name) while other
/// names keep referring to what they did; rewinding to the earlier length forgets it.
pub proof fn law_scope_reads_push(names: Seq<String>, values: Seq<Dynamic>, name: String, value: Dynamic, other: Seq<char>)
    requires
        names.len() == values.len(),
    ensures
        last_index_of(names.push(name), name@) == Some(names.len() as int),
        values.push(value)[names.len() as int] == value,
        other != name@ ==> last_index_of(names.push(name), other) == last_index_of(names, other),
        names.push(name).take(names.len() as int) == names,
        values.push(value).take(values.len() as int) == values,
{
    lemma_last_index_push(names, name, other);
}

/// What a scope gives back of what it was given: setting an existing variable changes
/// the value its name refers to, and nothing else.
pub proof fn law_scope_reads_set(names: Seq<String>, values: Seq<Dynamic>, name: Seq<char>, value: Dynamic, other: int)
    requires
        names.len() == values.len(),
        last_index_of(names, name) is Some,
    ensures
        values.update(last_index_of(names, name)->Some_0, value)[last_index_of(names, name)->Some_0] == value,
        0 <= other < values.len() && other != last_index_of(names, name)->Some_0 ==> values.update(
            last_index_of(names, name)->Some_0,
            value,
        )[other] == values[other],
{
    lemma_last_index_of_range(names, name);
}

/// Is entry `i` the last one of its name (the one the name refers to)?
pub open spec fn is_visible(names: Seq<String>, i: int) -> bool {
    forall|j: int| i < j < names.len() ==> (#[trigger] names[j])@ != names[i]@
}

/// The indices of the visible entries at `lo` and above, from the most recent down.
pub open spec fn visible_from(names: Seq<String>, lo: int) -> Seq<int>
    decreases names.len() - lo,
{
    if lo >= names.len() || lo < 0 {
        Seq::<int>::empty()
    } else if is_visible(names, lo) {
        visible_from(names, lo + 1).push(lo)
    } else {
        visible_from(names, lo + 1)
    }
}

proof fn lemma_visible_from_facts(names: Seq<String>, lo: int)
    requires
        0 <= lo <= names.len(),
    ensures
        forall|k: int| 0 <= k < visible_from(names, lo).len() ==> lo <= #[trigger] visible_from(names, lo)[k] < names.len()
            && is_visible(names, visible_from(names, lo)[k]),
        forall|i: int| lo <= i < names.len() && is_visible(names, i) ==> exists|k: int|
            0 <= k < visible_from(names, lo).len() && #[trigger] visible_from(names, lo)[k] == i,
    decreases names.len() - lo,
{
    if lo < names.len() {
        lemma_visible_from_facts(names, lo + 1);
        let rest = visible_from(names, lo + 1);
        if is_visible(names, lo) {
            assert(visible_from(names, lo) == rest.push(lo));
            assert forall|i: int| lo <= i < names.len() && is_visible(names, i) implies exists|k: int|
                0 <= k < visible_from(names, lo).len() && #[trigger] visible_from(names, lo)[k] == i by {
                if i == lo {
                    assert(visible_from(names, lo)[rest.len() as int] == lo);
                } else {
                    let k = choose|k: int| 0 <= k < rest.len() && #[trigger] rest[k] == i;
                    assert(visible_from(names, lo)[k] == i);
                }
            }
        } else {
            assert(visible_from(names, lo) == rest);
        }
    }
}

/// Does some entry at `lo` or above carry this name?
proof fn lemma_name_above_is_visible(names: Seq<String>, lo: int, name: Seq<char>, j: int)
    requires
        0 <= lo <= j < names.len(),
        names[j]@ == name,
    ensures
        exists|i: int| lo <= i < names.len() && is_visible(names, i) && (#[trigger] names[i])@ == name,
    decreases names.len() - j,
{
    if !is_visible(names, j) {
        let j2 = choose|j2: int| j < j2 < names.len() && (#[trigger] names[j2])@ != names[j]@ == false;
        assert(names[j2]@ == name);
        lemma_name_above_is_visible(names, lo, name, j2);
    }
}

impl Scope {
    /// Does this scope hold exactly the visible entries of `src` (the last of each name),
    /// from the most recent down?
    pub open spec fn holds_visible_of(&self, src: Scope) -> bool {
        let vis = visible_from(src.spec_names(), 0);
        &&& self.spec_names().len() == vis.len()
        &&& forall|k: int| 0 <= k < vis.len() ==> (#[trigger] self.spec_names()[k])@ == src.spec_names()[vis[k]]@
            && self.spec_values()[k] == src.spec_values()[vis[k]]
    }

    /// A reference to the value of entry `index`.
    pub fn get_mut_by_index(&mut self, index: usize) -> (r: &mut Dynamic)
        requires
            old(self).wf(),
            index < old(self).spec_values().len(),
        ensures
            *r == old(self).spec_values()[index as int],
            final(self).spec_names() == old(self).spec_names(),
            final(self).spec_values() == old(self).spec_values().update(index as int, *final(r)),
    {
        self.values.value_at_mut(index)
    }

    /// A new scope holding only the visible entries (the last of each name), from the
    /// most recent down.
    pub fn clone_visible(&self) -> (r: Scope)
        requires
            self.wf(),
        ensures
            r.wf(),
            r.holds_visible_of(*self),
    {
        let names = self.names.names_slice();
        let values = self.values.values_slice();
        let ghost all = self.spec_names();
        let mut entries = Scope::new();
        let mut i = names.len();
        while i > 0
            invariant
                names@ == all,
                all == self.spec_names(),
                values@ == self.spec_values(),
                self.wf(),
                i <= names@.len(),
                entries.wf(),
                entries.spec_names().len() == visible_from(all, i as int).len(),
                entries.spec_names().len() <= names@.len() - i,
                forall|k: int| 0 <= k < entries.spec_names().len() ==> (#[trigger] entries.spec_names()[k])@
                    == all[visible_from(all, i as int)[k]]@ && entries.spec_values()[k]
                    == self.spec_values()[visible_from(all, i as int)[k]],
            decreases i,
        {
            let k = i - 1;
            proof {
                lemma_visible_from_facts(all, i as int);
            }
            let seen = entries.contains(names[k].as_str());
            proof {
                if seen {
                    let idx = entries.index_of(all[k as int]@)->Some_0;
                    lemma_last_index_of_range(entries.spec_names(), all[k as int]@);
                    assert(!is_visible(all, k as int));
                } else {
                    if !is_visible(all, k as int) {
                        let j = choose|j: int| k < j < all.len() && (#[trigger] all[j])@ == all[k as int]@;
                        lemma_name_above_is_visible(all, i as int, all[k as int]@, j);
                        let i2 = choose|i2: int| i <= i2 < all.len() && is_visible(all, i2) && (#[trigger] all[i2])@
                            == all[k as int]@;
                        let kk = choose|kk: int| 0 <= kk < visible_from(all, i as int).len() && #[trigger] visible_from(all, i as int)[kk] == i2;
                        assert(entries.spec_names()[kk]@ == all[k as int]@);
                        lemma_last_index_of_range(entries.spec_names(), all[k as int]@);
                        assert(false);
                    }
                }
            }
            if !seen {
                assert(visible_from(all, k as int) == visible_from(all, i as int).push(k as int));
                let ghost before_names = entries.spec_names();
                let ghost before_values = entries.spec_values();
                let name = names[k].clone();
                let value = values[k].clone();
                assert(name@ == all[k as int]@);
                assert((Dynamic { access: value.access, ..value }) == values@[k as int]);
                entries.push_dynamic_value(name, values[k].access_mode(), value);
                assert forall|m: int| 0 <= m < entries.spec_names().len() implies (#[trigger] entries.spec_names()[m])@
                    == all[visible_from(all, k as int)[m]]@ && entries.spec_values()[m]
                    == self.spec_values()[visible_from(all, k as int)[m]] by {
                    if m < before_names.len() {
                        assert(entries.spec_names()[m] == before_names[m]);
                        assert(entries.spec_values()[m] == before_values[m]);
                        assert(visible_from(all, k as int)[m] == visible_from(all, i as int)[m]);
                    } else {
                        assert(visible_from(all, k as int)[m] == k);
                    }
                }
            } else {
                assert(visible_from(all, k as int) == visible_from(all, i as int));
            }
            i = k;
        }
        assert(i == 0);
        assert(entries.holds_visible_of(*self));
        entries
    }
}

/// The copy made by `clone_visible` holds exactly the entries that names refer to: each
/// of its entries is the last one of its name in the original, and each such entry of
/// the original is in it, once.
pub proof fn law_clone_visible_entries(names: Seq<String>, i: int)
    ensures
        forall|k: int| 0 <= k < visible_from(names, 0).len() ==> 0 <= #[trigger] visible_from(names, 0)[k] < names.len()
            && is_visible(names, visible_from(names, 0)[k]),
        0 <= i < names.len() && is_visible(names, i) ==> exists|k: int| 0 <= k < visible_from(names, 0).len()
            && #[trigger] visible_from(names, 0)[k] == i,
{
    lemma_visible_from_facts(names, 0);
}

} // verus!
