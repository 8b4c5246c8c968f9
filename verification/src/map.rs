//! Object maps: string-keyed maps of values, iterated in key order.
use vstd::prelude::*;
use crate::dynamic::{add_capped, add_sizes, capped, data_sizes, debug_value_text, lemma_sizes_nonneg, Dynamic};
use crate::packages::string_basic::{debug_quoted, debug_text};
use crate::text::{
    compare_str, lemma_text_lt_asymmetric, lemma_text_lt_irreflexive, lemma_text_lt_transitive, text_lt,
    TextOrder,
};

verus! {

/// An object map: property names mapped to values, kept sorted by property name
/// (each name occurs once).
#[derive(Debug)]
pub struct ObjectMap {
    entries: Vec<(String, Dynamic)>,
}

impl ObjectMap {
    /// The property name of entry `i`.
    pub closed spec fn key_at(&self, i: int) -> Seq<char> {
        self.entries@[i].0@
    }

    /// The value of entry `i`.
    pub closed spec fn value_at(&self, i: int) -> Dynamic {
        self.entries@[i].1
    }

    /// Number of entries.
    pub closed spec fn size(&self) -> nat {
        self.entries@.len()
    }

    /// Well-formedness: entries are sorted strictly by property name.
    pub closed spec fn wf(&self) -> bool {
        forall|i: int, j: int| 0 <= i < j < self.entries@.len() ==> text_lt(self.key_at(i), self.key_at(j))
    }

    /// Is there an entry for `k`?
    pub closed spec fn has(&self, k: Seq<char>) -> bool {
        exists|i: int| 0 <= i < self.entries@.len() && self.key_at(i) == k
    }

    /// The position of the entry for `k` (meaningful only if there is one).
    pub closed spec fn index_of(&self, k: Seq<char>) -> int {
        choose|i: int| 0 <= i < self.entries@.len() && self.key_at(i) == k
    }

    /// The property names in iteration (ascending) order.
    pub open spec fn keys_in_order(&self) -> Seq<Seq<char>> {
        Seq::new(self.size(), |i: int| self.key_at(i))
    }

    /// The values in iteration order (ascending by property name).
    pub open spec fn values_in_order(&self) -> Seq<Dynamic> {
        Seq::new(self.size(), |i: int| self.value_at(i))
    }

    /// The mathematical map from property names to values.
    pub closed spec fn view(&self) -> Map<Seq<char>, Dynamic> {
        Map::new(|k: Seq<char>| self.has(k), |k: Seq<char>| self.value_at(self.index_of(k)))
    }

    proof fn lemma_index_of(&self, i: int)
        requires
            self.wf(),
            0 <= i < self.entries@.len(),
        ensures
            self.has(self.key_at(i)),
            self.index_of(self.key_at(i)) == i,
    {
        let k = self.key_at(i);
        assert(self.has(k));
        let j = self.index_of(k);
        if j != i {
            lemma_text_lt_irreflexive(k);
            if j < i {
                assert(text_lt(self.key_at(j), self.key_at(i)));
            } else {
                assert(text_lt(self.key_at(i), self.key_at(j)));
            }
        }
    }

    /// The view maps each stored name to its stored value, and holds nothing else.
    pub proof fn lemma_view(&self)
        requires
            self.wf(),
        ensures
            forall|i: int| 0 <= i < self.size() ==> #[trigger] self@.contains_key(self.key_at(i))
                && self@[self.key_at(i)] == self.value_at(i),
            forall|k: Seq<char>| #[trigger] self@.contains_key(k) ==> exists|i: int| 0 <= i < self.size() && self.key_at(i) == k,
            self@.dom().finite(),
            self@.len() == self.size(),
    {
        assert forall|i: int| 0 <= i < self.size() implies #[trigger] self@.contains_key(self.key_at(i))
            && self@[self.key_at(i)] == self.value_at(i) by {
            self.lemma_index_of(i);
        }
        self.lemma_dom_len();
    }

    proof fn lemma_dom_len(&self)
        requires
            self.wf(),
        ensures
            self@.dom().finite(),
            self@.len() == self.size(),
    {
        let keys = self.keys_in_order();
        assert forall|k: Seq<char>| self@.dom().contains(k) <==> keys.to_set().contains(k) by {
            if self.has(k) {
                let i = choose|i: int| 0 <= i < self.entries@.len() && self.key_at(i) == k;
                assert(keys[i] == k);
            }
            if keys.contains(k) {
                let i = choose|i: int| 0 <= i < keys.len() && keys[i] == k;
                assert(self.key_at(i) == k);
            }
        }
        assert(self@.dom() =~= keys.to_set());
        assert forall|i: int, j: int| 0 <= i < keys.len() && 0 <= j < keys.len() && i != j implies keys[i] != keys[j] by {
            lemma_text_lt_irreflexive(keys[i]);
            if i < j {
                assert(text_lt(self.key_at(i), self.key_at(j)));
            } else {
                assert(text_lt(self.key_at(j), self.key_at(i)));
            }
        }
        assert(keys.no_duplicates());
        keys.unique_seq_to_set();
    }

    /// The debug forms of the entries: each property name quoted, `": "` and the debug
    /// form of its value, in ascending order of name, separated by `", "`.
    pub closed spec fn debug_entries(&self) -> Seq<char>
        decreases self, 1nat,
    {
        debug_entry_list(self.entries@)
    }

    /// The data sizes of the values, added up (see `data_sizes`).
    pub closed spec fn values_sizes(&self) -> (int, int, int)
        decreases self, 1nat,
    {
        entry_sizes(self.entries@)
    }

    /// Sizes of values are never negative.
    pub proof fn lemma_values_sizes_nonneg(&self)
        ensures
            self.values_sizes().0 >= 0 && self.values_sizes().1 >= 0 && self.values_sizes().2 >= 0,
        decreases self,
    {
        lemma_entry_sizes_nonneg(self.entries@);
    }

    /// The number of entries (without needing well-formedness).
    pub fn size_exec(&self) -> (r: usize)
        ensures
            r == self.size(),
    {
        self.entries.len()
    }

    /// Add the data sizes of the values (each capped at the largest `usize`).
    pub fn values_data_size(&self) -> (r: (usize, usize, usize))
        ensures
            r.0 == capped(self.values_sizes().0),
            r.1 == capped(self.values_sizes().1),
            r.2 == capped(self.values_sizes().2),
        decreases self,
    {
        let mut acc: (usize, usize, usize) = (0, 0, 0);
        let mut i: usize = 0;
        while i < self.entries.len()
            invariant
                i <= self.entries@.len(),
                acc.0 == capped(entry_sizes(self.entries@.subrange(0, i as int)).0),
                acc.1 == capped(entry_sizes(self.entries@.subrange(0, i as int)).1),
                acc.2 == capped(entry_sizes(self.entries@.subrange(0, i as int)).2),
            decreases self.entries@.len() - i,
        {
            assert(decreases_to!(self => self.entries@[i as int].1));
            let d = self.entries[i].1.data_size();
            proof {
                let t = self.entries@.subrange(0, i + 1);
                assert(t.drop_last() =~= self.entries@.subrange(0, i as int));
                assert(t.last() == self.entries@[i as int]);
                if i == 0 {
                    assert(self.entries@.subrange(0, 0) =~= Seq::<(String, Dynamic)>::empty());
                }
                lemma_entry_sizes_nonneg(self.entries@.subrange(0, i as int));
                lemma_sizes_nonneg(self.entries@[i as int].1);
            }
            acc = add_capped(acc, d);
            i = i + 1;
        }
        assert(self.entries@.subrange(0, self.entries@.len() as int) =~= self.entries@);
        acc
    }

    /// Add the debug forms of the entries.
    pub fn write_debug_entries(&self, out: &mut String)
        ensures
            final(out)@ == old(out)@ + self.debug_entries(),
        decreases self,
    {
        let mut i: usize = 0;
        while i < self.entries.len()
            invariant
                i <= self.entries@.len(),
                out@ == old(out)@ + debug_entry_list(self.entries@.subrange(0, i as int)),
            decreases self.entries@.len() - i,
        {
            assert(decreases_to!(self => self.entries@[i as int].1));
            if i > 0 {
                out.append(", ");
            }
            let k = debug_quoted(self.entries[i].0.as_str());
            out.append(k.as_str());
            out.append(": ");
            self.entries[i].1.write_debug(out);
            proof {
                let t = self.entries@.subrange(0, i + 1);
                assert(t.drop_last() =~= self.entries@.subrange(0, i as int));
                assert(t.last() == self.entries@[i as int]);
                if i == 0 {
                    assert(self.entries@.subrange(0, 0) =~= Seq::<(String, Dynamic)>::empty());
                }
            }
            i = i + 1;
        }
        assert(self.entries@.subrange(0, self.entries@.len() as int) =~= self.entries@);
    }

    /// A new, empty map.
    pub fn new() -> (m: ObjectMap)
        ensures
            m.wf(),
            m@ == Map::<Seq<char>, Dynamic>::empty(),
            m.size() == 0,
    {
        let m = ObjectMap { entries: Vec::new() };
        assert(m@ =~= Map::<Seq<char>, Dynamic>::empty());
        m
    }

    /// Number of entries.
    pub fn len(&self) -> (r: usize)
        requires
            self.wf(),
        ensures
            r == self.size(),
            r == self@.len(),
    {
        proof {
            self.lemma_dom_len();
        }
        self.entries.len()
    }

    /// Is the map empty?
    pub fn is_empty(&self) -> (r: bool)
        requires
            self.wf(),
        ensures
            r == (self@.len() == 0),
    {
        self.len() == 0
    }

    /// Find the first position whose name is not smaller than `k`, and whether it equals `k`.
    fn search(&self, k: &str) -> (r: (usize, bool))
        requires
            self.wf(),
        ensures
            r.0 <= self.size(),
            forall|j: int| 0 <= j < r.0 ==> text_lt(#[trigger] self.key_at(j), k@),
            r.1 ==> r.0 < self.size() && self.key_at(r.0 as int) == k@,
            !r.1 ==> (r.0 < self.size() ==> text_lt(k@, self.key_at(r.0 as int))),
            r.1 == self.has(k@),
    {
        let n = self.entries.len();
        let mut i: usize = 0;
        while i < n
            invariant
                self.wf(),
                i <= n == self.entries@.len(),
                forall|j: int| 0 <= j < i ==> text_lt(#[trigger] self.key_at(j), k@),
            decreases n - i,
        {
            match compare_str(self.entries[i].0.as_str(), k) {
                TextOrder::Less => {
                    i = i + 1;
                },
                TextOrder::Equal => {
                    assert(self.key_at(i as int) == k@);
                    return (i, true);
                },
                TextOrder::Greater => {
                    proof {
                        assert forall|j: int| 0 <= j < n implies self.key_at(j) != k@ by {
                            lemma_text_lt_irreflexive(k@);
                            if j > i {
                                lemma_text_lt_transitive(k@, self.key_at(i as int), self.key_at(j));
                            } else if j < i {
                            }
                        }
                    }
                    return (i, false);
                },
            }
        }
        proof {
            assert forall|j: int| 0 <= j < n implies self.key_at(j) != k@ by {
                lemma_text_lt_irreflexive(k@);
            }
        }
        (i, false)
    }

    /// Is there an entry for `k`?
    pub fn contains_key(&self, k: &str) -> (r: bool)
        requires
            self.wf(),
        ensures
            r == self@.contains_key(k@),
    {
        self.search(k).1
    }

    /// Is there an entry for `k`? (Found by looking at every entry, so that the answer
    /// does not rest on the order of the entries.)
    pub fn has_key(&self, k: &str) -> (r: bool)
        ensures
            r == self@.contains_key(k@),
    {
        let mut i: usize = 0;
        while i < self.entries.len()
            invariant
                i <= self.entries@.len(),
                forall|j: int| 0 <= j < i ==> self.key_at(j) != k@,
            decreases self.entries@.len() - i,
        {
            if crate::text::str_eq(self.entries[i].0.as_str(), k) {
                assert(self.key_at(i as int) == k@);
                return true;
            }
            i = i + 1;
        }
        false
    }

    /// The value stored for `k`, if any, found by looking at every entry (so that finding
    /// it does not rest on the order of the entries).
    pub fn find_value(&self, k: &str) -> (r: Option<&Dynamic>)
        ensures
            r is Some == self@.contains_key(k@),
            self.wf() ==> (r matches Some(v) ==> *v == self@[k@]),
    {
        let mut i: usize = 0;
        while i < self.entries.len()
            invariant
                i <= self.entries@.len(),
                forall|j: int| 0 <= j < i ==> self.key_at(j) != k@,
            decreases self.entries@.len() - i,
        {
            if crate::text::str_eq(self.entries[i].0.as_str(), k) {
                assert(self.key_at(i as int) == k@);
                proof {
                    if self.wf() {
                        self.lemma_index_of(i as int);
                    }
                }
                return Some(&self.entries[i].1);
            }
            i = i + 1;
        }
        None
    }

    /// The view is the map the entries stand for, and well-formedness is their order.
    proof fn lemma_entries(&self)
        ensures
            self.wf() == names_sorted(self.entries@),
            self.wf() ==> self@ == entries_map(self.entries@),
    {
        let es = self.entries@;
        assert(self.wf() ==> names_sorted(es)) by {
            if self.wf() {
                assert forall|i: int, j: int| 0 <= i < j < es.len() implies text_lt(es[i].0@, es[j].0@) by {
                    assert(self.key_at(i) == es[i].0@ && self.key_at(j) == es[j].0@);
                }
            }
        }
        assert(names_sorted(es) ==> self.wf()) by {
            if names_sorted(es) {
                assert forall|i: int, j: int| 0 <= i < j < es.len() implies text_lt(self.key_at(i), self.key_at(j)) by {
                    assert(self.key_at(i) == es[i].0@ && self.key_at(j) == es[j].0@);
                }
            }
        }
        if self.wf() {
            assert forall|k: Seq<char>| self@.contains_key(k) <==> entries_map(es).contains_key(k) by {
                if self.has(k) {
                    let i = choose|i: int| 0 <= i < es.len() && self.key_at(i) == k;
                    assert(es[i].0@ == k);
                }
                if entries_map(es).contains_key(k) {
                    let i = choose|i: int| 0 <= i < es.len() && es[i].0@ == k;
                    assert(self.key_at(i) == k);
                }
            }
            assert forall|k: Seq<char>| #[trigger] self@.contains_key(k) implies self@[k] == entries_map(es)[k] by {
                let i1 = self.index_of(k);
                assert(self.key_at(i1) == k);
                let i2 = choose|i: int| 0 <= i < es.len() && es[i].0@ == k;
                assert(es[i1].0@ == k);
                self.lemma_index_of(i2);
            }
            assert(self@ =~= entries_map(es));
        }
    }

    fn value_mut_at(&mut self, i: usize) -> (r: &mut Dynamic)
        requires
            i < old(self).entries@.len(),
            names_sorted(old(self).entries@),
        ensures
            *r == old(self).entries@[i as int].1,
            final(self).entries@ == old(self).entries@.update(i as int, (old(self).entries@[i as int].0, *final(r))),
            names_sorted(final(self).entries@),
            entries_map(final(self).entries@) == entries_map(old(self).entries@).insert(
                old(self).entries@[i as int].0@,
                *final(r),
            ),
    {
        proof {
            let es = self.entries@;
            assert forall|nv: Dynamic| #[trigger] entries_map(es.update(i as int, (es[i as int].0, nv)))
                == entries_map(es).insert(es[i as int].0@, nv) && names_sorted(es.update(i as int, (es[i as int].0, nv))) by {
                lemma_entries_map_replace(es, i as int, es[i as int].0, nv);
            }
        }
        let e = &mut self.entries[i];
        &mut e.1
    }

    /// A reference to the value stored for `k`, if any; what is written through it is
    /// what the map holds for `k` afterwards.
    pub fn get_mut(&mut self, k: &str) -> (r: Option<&mut Dynamic>)
        requires
            old(self).wf(),
        ensures
            r is Some ==> old(self)@.contains_key(k@),
            r matches Some(v) ==> *v == old(self)@[k@],
            r is Some ==> final(self).wf(),
            r matches Some(v) ==> final(self)@ == old(self)@.insert(k@, *final(v)),
            r is None ==> !old(self)@.contains_key(k@) && *final(self) == *old(self),
    {
        let (i, found) = self.search(k);
        if found {
            proof {
                self.lemma_index_of(i as int);
                self.lemma_entries();
                assert forall|m: ObjectMap| #[trigger] names_sorted(m.entries@) implies m.wf() && m@ == entries_map(
                    m.entries@,
                ) by {
                    m.lemma_entries();
                }
            }
            Some(self.value_mut_at(i))
        } else {
            None
        }
    }

    /// The value stored for `k`, if any.
    pub fn get(&self, k: &str) -> (r: Option<&Dynamic>)
        requires
            self.wf(),
        ensures
            r matches Some(v) ==> self@.contains_key(k@) && *v == self@[k@],
            r is None ==> !self@.contains_key(k@),
    {
        let (i, found) = self.search(k);
        if found {
            proof {
                self.lemma_index_of(i as int);
            }
            Some(&self.entries[i].1)
        } else {
            None
        }
    }

    /// Entries `0..j` of the map, as a mathematical map.
    pub closed spec fn prefix_view(&self, j: int) -> Map<Seq<char>, Dynamic> {
        Map::new(
            |k: Seq<char>| exists|i: int| 0 <= i < j && i < self.entries@.len() && self.key_at(i) == k,
            |k: Seq<char>| self.value_at(self.index_of(k)),
        )
    }

    /// No entries make the empty map; all entries make the whole map.
    pub proof fn lemma_prefix_view_ends(&self)
        ensures
            self.prefix_view(0) == Map::<Seq<char>, Dynamic>::empty(),
            self.prefix_view(self.size() as int) == self@,
    {
        assert(self.prefix_view(0) =~= Map::<Seq<char>, Dynamic>::empty());
        assert(self.prefix_view(self.size() as int) =~= self@);
    }

    /// The first `j` entries grow one entry at a time.
    pub proof fn lemma_prefix_view(&self, j: int)
        requires
            self.wf(),
            0 <= j < self.size(),
        ensures
            self.prefix_view(j + 1) == self.prefix_view(j).insert(self.key_at(j), self.value_at(j)),
    {
        self.lemma_index_of(j);
        assert(self.prefix_view(j + 1) =~= self.prefix_view(j).insert(self.key_at(j), self.value_at(j)));
    }

    /// A well-formed map whose entries are exactly those of `m` has `m` as its view.
    proof fn lemma_view_is(&self, m: Map<Seq<char>, Dynamic>)
        requires
            self.wf(),
            forall|i: int| 0 <= i < self.size() ==> #[trigger] m.contains_key(self.key_at(i)),
            forall|i: int| 0 <= i < self.size() ==> m[#[trigger] self.key_at(i)] == self.value_at(i),
            forall|k: Seq<char>| #[trigger] m.contains_key(k) ==> self.has(k),
        ensures
            self@ == m,
    {
        assert forall|k: Seq<char>| #[trigger] self@.contains_key(k) implies m.contains_key(k) && self@[k] == m[k] by {
            let i = self.index_of(k);
            self.lemma_index_of(i);
        }
        assert(self@ =~= m);
    }

    /// Replacing the value of entry `i` replaces the value stored for its name.
    proof fn lemma_replace_at(old: &ObjectMap, new: &ObjectMap, i: int, value: Dynamic)
        requires
            old.wf(),
            0 <= i < old.size(),
            new.entries@ == old.entries@.update(i, (old.entries@[i].0, value)),
        ensures
            new.wf(),
            new@ == old@.insert(old.key_at(i), value),
    {
        let k = old.key_at(i);
        let target = old@.insert(k, value);
        old.lemma_view();
        assert forall|a: int, b: int| 0 <= a < b < new.entries@.len() implies text_lt(new.key_at(a), new.key_at(b)) by {
            assert(new.key_at(a) == old.key_at(a));
            assert(new.key_at(b) == old.key_at(b));
        }
        assert forall|j: int| 0 <= j < new.size() implies #[trigger] target.contains_key(new.key_at(j)) by {
            assert(new.key_at(j) == old.key_at(j));
        }
        assert forall|j: int| 0 <= j < new.size() implies target[#[trigger] new.key_at(j)] == new.value_at(j) by {
            assert(new.key_at(j) == old.key_at(j));
            assert(old@.contains_key(old.key_at(j)));
            if j == i {
                assert(new.entries@[i] == (old.entries@[i].0, value));
            } else {
                assert(new.value_at(j) == old.value_at(j));
                lemma_text_lt_irreflexive(k);
                if j < i {
                    assert(text_lt(old.key_at(j), old.key_at(i)));
                } else {
                    assert(text_lt(old.key_at(i), old.key_at(j)));
                }
            }
        }
        assert forall|k2: Seq<char>| #[trigger] target.contains_key(k2) implies new.has(k2) by {
            if k2 != k {
                let j = choose|j: int| 0 <= j < old.size() && old.key_at(j) == k2;
                assert(new.key_at(j) == k2);
            } else {
                assert(new.key_at(i) == k);
            }
        }
        new.lemma_view_is(target);
    }

    /// Inserting a new entry at its sorted position adds its name to the map.
    proof fn lemma_insert_at(old: &ObjectMap, new: &ObjectMap, i: int, key: String, value: Dynamic)
        requires
            old.wf(),
            0 <= i <= old.size(),
            forall|j: int| 0 <= j < i ==> text_lt(#[trigger] old.key_at(j), key@),
            i < old.size() ==> text_lt(key@, old.key_at(i)),
            new.entries@ == old.entries@.insert(i, (key, value)),
        ensures
            new.wf(),
            new@ == old@.insert(key@, value),
            !old@.contains_key(key@),
    {
        let k = key@;
        let target = old@.insert(k, value);
        old.lemma_view();
        assert forall|j: int| 0 <= j < old.size() implies old.key_at(j) != k by {
            lemma_text_lt_irreflexive(k);
            if j > i {
                lemma_text_lt_transitive(k, old.key_at(i), old.key_at(j));
            }
        }
        assert forall|a: int, b: int| 0 <= a < b < new.entries@.len() implies text_lt(new.key_at(a), new.key_at(b)) by {
            if b < i {
                assert(new.key_at(a) == old.key_at(a));
                assert(new.key_at(b) == old.key_at(b));
            } else if b == i {
                assert(new.key_at(a) == old.key_at(a));
            } else if a == i {
                assert(new.key_at(b) == old.key_at(b - 1));
                if b - 1 > i {
                    lemma_text_lt_transitive(k, old.key_at(i), old.key_at(b - 1));
                }
            } else if a < i {
                assert(new.key_at(a) == old.key_at(a));
                assert(new.key_at(b) == old.key_at(b - 1));
            } else {
                assert(new.key_at(a) == old.key_at(a - 1));
                assert(new.key_at(b) == old.key_at(b - 1));
            }
        }
        assert forall|j: int| 0 <= j < new.size() implies #[trigger] target.contains_key(new.key_at(j)) by {
            if j < i {
                assert(new.key_at(j) == old.key_at(j));
            } else if j > i {
                assert(new.key_at(j) == old.key_at(j - 1));
            }
        }
        assert forall|j: int| 0 <= j < new.size() implies target[#[trigger] new.key_at(j)] == new.value_at(j) by {
            if j < i {
                assert(new.key_at(j) == old.key_at(j));
                assert(new.value_at(j) == old.value_at(j));
                assert(old@.contains_key(old.key_at(j)));
            } else if j > i {
                assert(new.key_at(j) == old.key_at(j - 1));
                assert(new.value_at(j) == old.value_at(j - 1));
                assert(old@.contains_key(old.key_at(j - 1)));
            } else {
                assert(new.entries@[i] == (key, value));
            }
        }
        assert forall|k2: Seq<char>| #[trigger] target.contains_key(k2) implies new.has(k2) by {
            if k2 != k {
                let j = choose|j: int| 0 <= j < old.size() && old.key_at(j) == k2;
                if j < i {
                    assert(new.key_at(j) == k2);
                } else {
                    assert(new.key_at(j + 1) == k2);
                }
            } else {
                assert(new.key_at(i) == k);
            }
        }
        new.lemma_view_is(target);
    }

    /// Removing entry `i` removes its name from the map.
    proof fn lemma_remove_at(old: &ObjectMap, new: &ObjectMap, i: int)
        requires
            old.wf(),
            0 <= i < old.size(),
            new.entries@ == old.entries@.remove(i),
        ensures
            new.wf(),
            new@ == old@.remove(old.key_at(i)),
    {
        let k = old.key_at(i);
        let target = old@.remove(k);
        old.lemma_view();
        assert forall|a: int, b: int| 0 <= a < b < new.entries@.len() implies text_lt(new.key_at(a), new.key_at(b)) by {
            let a0 = if a < i { a } else { a + 1 };
            let b0 = if b < i { b } else { b + 1 };
            assert(new.key_at(a) == old.key_at(a0));
            assert(new.key_at(b) == old.key_at(b0));
        }
        assert forall|j: int| 0 <= j < new.size() implies #[trigger] target.contains_key(new.key_at(j))
            && target[new.key_at(j)] == new.value_at(j) by {
            let j0 = if j < i { j } else { j + 1 };
            assert(new.key_at(j) == old.key_at(j0));
            assert(new.value_at(j) == old.value_at(j0));
            assert(old@.contains_key(old.key_at(j0)));
            lemma_text_lt_irreflexive(k);
            if j0 < i {
                assert(text_lt(old.key_at(j0), old.key_at(i)));
            } else {
                assert(text_lt(old.key_at(i), old.key_at(j0)));
            }
        }
        assert forall|j: int| 0 <= j < new.size() implies target[#[trigger] new.key_at(j)] == new.value_at(j) by {
            let j0 = if j < i { j } else { j + 1 };
            assert(new.key_at(j) == old.key_at(j0));
            assert(new.value_at(j) == old.value_at(j0));
            assert(old@.contains_key(old.key_at(j0)));
            lemma_text_lt_irreflexive(k);
            if j0 < i {
                assert(text_lt(old.key_at(j0), old.key_at(i)));
            } else {
                assert(text_lt(old.key_at(i), old.key_at(j0)));
            }
        }
        assert forall|k2: Seq<char>| #[trigger] target.contains_key(k2) implies new.has(k2) by {
            let j = choose|j: int| 0 <= j < old.size() && old.key_at(j) == k2;
            if j < i {
                assert(new.key_at(j) == k2);
            } else {
                assert(new.key_at(j - 1) == k2);
            }
        }
        new.lemma_view_is(target);
    }

    /// Insert or replace the value stored for `key`; returns the value it replaces.
    pub fn insert(&mut self, key: String, value: Dynamic) -> (r: Option<Dynamic>)
        requires
            old(self).wf(),
        ensures
            final(self).wf(),
            final(self)@ == old(self)@.insert(key@, value),
            r == (if old(self)@.contains_key(key@) { Some(old(self)@[key@]) } else { None }),
    {
        let (i, found) = self.search(key.as_str());
        proof {
            old(self).lemma_view();
        }
        if found {
            let (old_key, old_value) = self.entries.remove(i);
            self.entries.insert(i, (old_key, value));
            proof {
                old(self).lemma_index_of(i as int);
                assert(self.entries@ == old(self).entries@.update(i as int, (old(self).entries@[i as int].0, value)));
                ObjectMap::lemma_replace_at(old(self), self, i as int, value);
            }
            Some(old_value)
        } else {
            let ghost k = key@;
            self.entries.insert(i, (key, value));
            proof {
                ObjectMap::lemma_insert_at(old(self), self, i as int, key, value);
            }
            None
        }
    }

    /// Remove the entry for `k`; returns its value if there was one.
    pub fn remove(&mut self, k: &str) -> (r: Option<Dynamic>)
        requires
            old(self).wf(),
        ensures
            final(self).wf(),
            final(self)@ == old(self)@.remove(k@),
            r == (if old(self)@.contains_key(k@) { Some(old(self)@[k@]) } else { None }),
    {
        let (i, found) = self.search(k);
        proof {
            old(self).lemma_view();
        }
        if found {
            let (_, v) = self.entries.remove(i);
            proof {
                old(self).lemma_index_of(i as int);
                ObjectMap::lemma_remove_at(old(self), self, i as int);
            }
            Some(v)
        } else {
            proof {
                assert(old(self)@.remove(k@) =~= old(self)@);
            }
            None
        }
    }

    /// Remove all entries.
    pub fn clear(&mut self)
        ensures
            final(self).wf(),
            final(self)@ == Map::<Seq<char>, Dynamic>::empty(),
    {
        self.entries.clear();
        assert(self@ =~= Map::<Seq<char>, Dynamic>::empty());
    }

    /// The property name of entry `i` in iteration order.
    pub fn key_at_index(&self, i: usize) -> (r: &String)
        requires
            i < self.size(),
        ensures
            r@ == self.key_at(i as int),
    {
        &self.entries[i].0
    }

    /// The value of entry `i` in iteration order.
    pub fn value_at_index(&self, i: usize) -> (r: &Dynamic)
        requires
            i < self.size(),
        ensures
            *r == self.value_at(i as int),
    {
        &self.entries[i].1
    }

    /// What `keys` and `values` hand out agrees with the map: the property names come in
    /// strictly ascending order, they are exactly the names the map holds, and the values
    /// come in the same order as their names.
    pub proof fn law_keys_in_order(&self)
        requires
            self.wf(),
        ensures
            self.keys_in_order().len() == self.size(),
            forall|i: int, j: int| 0 <= i < j < self.size() ==> text_lt(#[trigger] self.keys_in_order()[i], #[trigger] self.keys_in_order()[j]),
            self.keys_in_order().to_set() == self@.dom(),
            forall|i: int| 0 <= i < self.size() ==> #[trigger] self.values_in_order()[i] == self@[self.keys_in_order()[i]],
    {
        self.lemma_view();
        let keys = self.keys_in_order();
        assert forall|k: Seq<char>| self@.dom().contains(k) <==> keys.to_set().contains(k) by {
            if self.has(k) {
                let i = choose|i: int| 0 <= i < self.entries@.len() && self.key_at(i) == k;
                assert(keys[i] == k);
            }
            if keys.contains(k) {
                let i = choose|i: int| 0 <= i < keys.len() && keys[i] == k;
                assert(self.key_at(i) == k);
            }
        }
        assert(keys.to_set() =~= self@.dom());
        assert forall|i: int| 0 <= i < self.size() implies #[trigger] self.values_in_order()[i] == self@[self.keys_in_order()[i]] by {
            assert(self@.contains_key(self.key_at(i)));
        }
    }

    /// The name of entry `j` is not among the entries before it.
    pub proof fn lemma_prefix_fresh(&self, j: int)
        requires
            self.wf(),
            0 <= j < self.size(),
        ensures
            !self.prefix_view(j).contains_key(self.key_at(j)),
            self@.contains_key(self.key_at(j)),
            self@[self.key_at(j)] == self.value_at(j),
    {
        self.lemma_view();
        if self.prefix_view(j).contains_key(self.key_at(j)) {
            let i = choose|i: int| 0 <= i < j && i < self.entries@.len() && self.key_at(i) == self.key_at(j);
            lemma_text_lt_irreflexive(self.key_at(j));
            assert(text_lt(self.key_at(i), self.key_at(j)));
        }
    }
}

/// The data sizes of the values of entries, added up.
pub open spec fn entry_sizes(es: Seq<(String, Dynamic)>) -> (int, int, int)
    decreases es,
{
    if es.len() == 0 {
        (0, 0, 0)
    } else {
        add_sizes(entry_sizes(es.drop_last()), data_sizes(es.last().1))
    }
}

proof fn lemma_entry_sizes_nonneg(es: Seq<(String, Dynamic)>)
    ensures
        entry_sizes(es).0 >= 0 && entry_sizes(es).1 >= 0 && entry_sizes(es).2 >= 0,
    decreases es,
{
    if es.len() > 0 {
        lemma_entry_sizes_nonneg(es.drop_last());
        lemma_sizes_nonneg(es.last().1);
    }
}

/// The debug forms of entries, separated by `", "`.
pub open spec fn debug_entry_list(es: Seq<(String, Dynamic)>) -> Seq<char>
    decreases es,
{
    if es.len() == 0 {
        Seq::empty()
    } else if es.len() == 1 {
        debug_text(es[0].0@) + ": "@ + debug_value_text(es[0].1)
    } else {
        debug_entry_list(es.drop_last()) + ", "@ + debug_text(es.last().0@) + ": "@ + debug_value_text(es.last().1)
    }
}

impl ObjectMap {
    /// Do the two maps hold the same entries, in the same order?
    pub closed spec fn same_entries(&self, other: ObjectMap) -> bool {
        &&& self.entries@.len() == other.entries@.len()
        &&& forall|i: int| 0 <= i < self.entries@.len() ==> #[trigger] self.key_at(i) == other.key_at(i)
            && self.value_at(i) == other.value_at(i)
    }

    /// Maps holding the same entries are the same map, and are well-formed alike.
    pub proof fn lemma_same_entries(&self, other: ObjectMap)
        requires
            self.same_entries(other),
        ensures
            self.wf() == other.wf(),
            self.wf() ==> self@ == other@,
    {
        assert forall|k: Seq<char>| self.has(k) <==> other.has(k) by {
            if self.has(k) {
                let i = choose|i: int| 0 <= i < self.entries@.len() && self.key_at(i) == k;
                assert(other.key_at(i) == k);
            }
            if other.has(k) {
                let i = choose|i: int| 0 <= i < other.entries@.len() && other.key_at(i) == k;
                assert(self.key_at(i) == k);
            }
        }
        assert(self.wf() == other.wf()) by {
            assert forall|i: int, j: int| 0 <= i < j < self.entries@.len() implies self.key_at(i) == other.key_at(i)
                && self.key_at(j) == other.key_at(j) by {}
        }
        if self.wf() {
            assert forall|k: Seq<char>| #[trigger] self@.contains_key(k) implies self@[k] == other@[k] by {
                let i = self.index_of(k);
                assert(self.key_at(i) == k);
                assert(other.key_at(i) == k);
                other.lemma_index_of(i);
            }
            assert(self@ =~= other@);
        }
    }
}

impl Clone for ObjectMap {
    /// A copy of the map, entry by entry.
    fn clone(&self) -> (r: Self)
        ensures
            r.same_entries(*self),
    {
        let mut entries: Vec<(String, Dynamic)> = Vec::new();
        let mut i: usize = 0;
        while i < self.entries.len()
            invariant
                i <= self.entries@.len(),
                entries@.len() == i,
                forall|j: int| 0 <= j < i ==> (#[trigger] entries@[j]).0@ == self.entries@[j].0@ && entries@[j].1
                    == self.entries@[j].1,
            decreases self.entries@.len() - i,
        {
            let k = String::from_str(self.entries[i].0.as_str());
            let v = self.entries[i].1.clone();
            entries.push((k, v));
            i = i + 1;
        }
        let r = ObjectMap { entries };
        assert forall|j: int| 0 <= j < self.entries@.len() implies #[trigger] r.key_at(j) == self.key_at(j)
            && r.value_at(j) == self.value_at(j) by {
            assert(r.entries@[j].0@ == self.entries@[j].0@);
        }
        r
    }
}

/// The map that a list of entries with sorted, distinct names stands for.
pub open spec fn entries_map(es: Seq<(String, Dynamic)>) -> Map<Seq<char>, Dynamic> {
    Map::new(
        |k: Seq<char>| exists|i: int| 0 <= i < es.len() && es[i].0@ == k,
        |k: Seq<char>| es[choose|i: int| 0 <= i < es.len() && es[i].0@ == k].1,
    )
}

/// Are the names of the entries strictly ascending?
pub open spec fn names_sorted(es: Seq<(String, Dynamic)>) -> bool {
    forall|i: int, j: int| 0 <= i < j < es.len() ==> text_lt(es[i].0@, es[j].0@)
}

/// Replacing the value of entry `i` replaces the value its name maps to.
proof fn lemma_entries_map_replace(es: Seq<(String, Dynamic)>, i: int, name: String, v: Dynamic)
    requires
        names_sorted(es),
        0 <= i < es.len(),
        name@ == es[i].0@,
    ensures
        entries_map(es.update(i, (name, v))) == entries_map(es).insert(name@, v),
        names_sorted(es.update(i, (name, v))),
{
    let t = es.update(i, (name, v));
    assert forall|a: int, b: int| 0 <= a < b < t.len() implies text_lt(t[a].0@, t[b].0@) by {
        assert(t[a].0@ == es[a].0@ && t[b].0@ == es[b].0@);
    }
    assert forall|k: Seq<char>| #[trigger] entries_map(t).contains_key(k) implies entries_map(t)[k]
        == entries_map(es).insert(name@, v)[k] by {
        let j = choose|j: int| 0 <= j < t.len() && t[j].0@ == k;
        assert(t[j].0@ == k);
        if j != i {
            lemma_text_lt_irreflexive(k);
            if j < i {
                assert(text_lt(es[j].0@, es[i].0@));
            } else {
                assert(text_lt(es[i].0@, es[j].0@));
            }
            let j2 = choose|j2: int| 0 <= j2 < es.len() && es[j2].0@ == k;
            assert(es[j].0@ == k);
            if j2 != j {
                if j2 < j {
                    assert(text_lt(es[j2].0@, es[j].0@));
                } else {
                    assert(text_lt(es[j].0@, es[j2].0@));
                }
            }
        } else {
            if j != i {
            }
        }
    }
    assert forall|k: Seq<char>| entries_map(t).contains_key(k) <==> entries_map(es).insert(name@, v).contains_key(k) by {
        if entries_map(es).insert(name@, v).contains_key(k) {
            if k == name@ {
                assert(t[i].0@ == k);
            } else {
                let j = choose|j: int| 0 <= j < es.len() && es[j].0@ == k;
                assert(t[j].0@ == es[j].0@);
            }
        }
        if entries_map(t).contains_key(k) {
            let j = choose|j: int| 0 <= j < t.len() && t[j].0@ == k;
            assert(es[j].0@ == t[j].0@);
        }
    }
    assert(entries_map(t) =~= entries_map(es).insert(name@, v));
}

/// What a map gives back of what it was given: after `insert` the key holds the new
/// value and other keys keep theirs; after `remove` the key is gone and other keys keep
/// theirs.
pub proof fn law_map_reads_insert(m: Map<Seq<char>, Dynamic>, k: Seq<char>, v: Dynamic, other: Seq<char>)
    ensures
        m.insert(k, v).contains_key(k) && m.insert(k, v)[k] == v,
        other != k ==> m.insert(k, v).contains_key(other) == m.contains_key(other),
        other != k && m.contains_key(other) ==> m.insert(k, v)[other] == m[other],
        !m.remove(k).contains_key(k),
        other != k ==> m.remove(k).contains_key(other) == m.contains_key(other),
        other != k && m.contains_key(other) ==> m.remove(k)[other] == m[other],
{
}

} // verus!
