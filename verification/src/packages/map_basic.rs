//! Object map functions available to scripts.
use vstd::prelude::*;
use crate::dynamic::{is_string_value, spec_flatten, Dynamic, Union};
use crate::error::EvalAltResult;
use crate::immutable_string::ImmutableString;
use crate::map::ObjectMap;
use crate::INT;

verus! {

/// Does the map have a property with this name?
pub fn contains(map: &mut ObjectMap, prop: ImmutableString) -> (r: bool)
    requires
        old(map).wf(),
    ensures
        *final(map) == *old(map),
        r == old(map)@.contains_key(prop@),
{
    map.contains_key(prop.as_str())
}

/// Number of properties in the map.
pub fn len(map: &mut ObjectMap) -> (r: INT)
    requires
        old(map).wf(),
    ensures
        *final(map) == *old(map),
        r == old(map)@.len() as INT,
{
    map.len() as INT
}

/// Remove all properties.
pub fn clear(map: &mut ObjectMap)
    requires
        old(map).wf(),
    ensures
        final(map).wf(),
        final(map)@ == Map::<Seq<char>, Dynamic>::empty(),
{
    map.clear();
}

/// Remove a property and return its value, or `()` if there is no such property.
pub fn remove(map: &mut ObjectMap, name: ImmutableString) -> (r: Dynamic)
    requires
        old(map).wf(),
    ensures
        final(map).wf(),
        final(map)@ == old(map)@.remove(name@),
        r == (if old(map)@.contains_key(name@) {
            old(map)@[name@]
        } else {
            Dynamic::spec_of(Union::Unit)
        }),
{
    match map.remove(name.as_str()) {
        Some(v) => v,
        None => Dynamic::unit(),
    }
}

/// Add all the properties of `map2` to `map`, replacing existing ones (`+=`).
pub fn mixin(map: &mut ObjectMap, map2: ObjectMap)
    requires
        old(map).wf(),
        map2.wf(),
    ensures
        final(map).wf(),
        final(map)@ == old(map)@.union_prefer_right(map2@),
{
    let n = map2.len();
    let mut j: usize = 0;
    proof {
        map2.lemma_prefix_view_ends();
        assert(old(map)@.union_prefer_right(map2.prefix_view(0)) =~= old(map)@);
    }
    while j < n
        invariant
            j <= n == map2.size(),
            map2.wf(),
            map.wf(),
            map@ == old(map)@.union_prefer_right(map2.prefix_view(j as int)),
        decreases n - j,
    {
        proof {
            map2.lemma_prefix_view(j as int);
        }
        let k = map2.key_at_index(j).clone();
        let v = map2.value_at_index(j).clone();
        let ghost before = map@;
        map.insert(k, v);
        proof {
            assert(map@ =~= old(map)@.union_prefer_right(map2.prefix_view(j + 1)));
        }
        j = j + 1;
    }
    proof {
        map2.lemma_prefix_view_ends();
    }
}

/// A new map with the properties of `map1` and `map2`; those of `map2` win (`+`).
pub fn merge(map1: ObjectMap, map2: ObjectMap) -> (r: ObjectMap)
    requires
        map1.wf(),
        map2.wf(),
    ensures
        r.wf(),
        r@ == map1@.union_prefer_right(map2@),
{
    let mut map1 = map1;
    mixin(&mut map1, map2);
    map1
}

/// Add the properties of `map2` that `map` does not have yet.
pub fn fill_with(map: &mut ObjectMap, map2: ObjectMap)
    requires
        old(map).wf(),
        map2.wf(),
    ensures
        final(map).wf(),
        final(map)@ == map2@.union_prefer_right(old(map)@),
{
    let n = map2.len();
    let mut j: usize = 0;
    proof {
        map2.lemma_prefix_view_ends();
        assert(map2.prefix_view(0).union_prefer_right(old(map)@) =~= old(map)@);
    }
    while j < n
        invariant
            j <= n == map2.size(),
            map2.wf(),
            map.wf(),
            map@ == map2.prefix_view(j as int).union_prefer_right(old(map)@),
        decreases n - j,
    {
        proof {
            map2.lemma_prefix_view(j as int);
            map2.lemma_prefix_fresh(j as int);
        }
        if !map.contains_key(map2.key_at_index(j).as_str()) {
            let k = map2.key_at_index(j).clone();
            let v = map2.value_at_index(j).clone();
            map.insert(k, v);
        }
        proof {
            assert(map@ =~= map2.prefix_view(j + 1).union_prefer_right(old(map)@));
        }
        j = j + 1;
    }
    proof {
        map2.lemma_prefix_view_ends();
    }
}

/// The property names, as strings, in ascending order.
pub fn keys(map: &mut ObjectMap) -> (r: Vec<Dynamic>)
    requires
        old(map).wf(),
    ensures
        *final(map) == *old(map),
        r@.len() == old(map).size(),
        forall|i: int| 0 <= i < r@.len() ==> is_string_value(#[trigger] r@[i], old(map).keys_in_order()[i]),
{
    let n = map.len();
    let mut r: Vec<Dynamic> = Vec::new();
    let mut j: usize = 0;
    while j < n
        invariant
            j <= n == map.size(),
            r@.len() == j,
            forall|i: int| 0 <= i < j ==> is_string_value(#[trigger] r@[i], map.keys_in_order()[i]),
        decreases n - j,
    {
        let s = ImmutableString::from_str(map.key_at_index(j).as_str());
        r.push(Dynamic::from_string(s));
        j = j + 1;
    }
    r
}

/// The property values, in ascending order of their names.
pub fn values(map: &mut ObjectMap) -> (r: Vec<Dynamic>)
    requires
        old(map).wf(),
    ensures
        *final(map) == *old(map),
        r@ == old(map).values_in_order(),
{
    let n = map.len();
    let mut r: Vec<Dynamic> = Vec::new();
    let mut j: usize = 0;
    while j < n
        invariant
            j <= n == map.size(),
            r@ == map.values_in_order().take(j as int),
        decreases n - j,
    {
        r.push(map.value_at_index(j).clone());
        assert(r@ =~= map.values_in_order().take(j + 1));
        j = j + 1;
    }
    assert(r@ =~= map.values_in_order());
    r
}

/// Is the value a true boolean (looking through sharing)?
pub open spec fn is_true(d: Dynamic) -> bool {
    spec_flatten(d).value matches Union::Bool(b) && b
}

/// A possible answer of the script's `==` on `a` and `b` says that they are equal.
pub open spec fn compared_equal<F: Fn(&Dynamic, &Dynamic) -> Result<Dynamic, Box<EvalAltResult>>>(
    values_equal: F,
    a: Dynamic,
    b: Dynamic,
) -> bool {
    exists|out: Result<Dynamic, Box<EvalAltResult>>| #[trigger] values_equal.ensures((&a, &b), out) && (out matches Ok(d)
        && is_true(d))
}

/// A possible answer of the script's `==` on `a` and `b` says that they differ (any
/// value but `true`).
pub open spec fn compared_unequal<F: Fn(&Dynamic, &Dynamic) -> Result<Dynamic, Box<EvalAltResult>>>(
    values_equal: F,
    a: Dynamic,
    b: Dynamic,
) -> bool {
    exists|out: Result<Dynamic, Box<EvalAltResult>>| #[trigger] values_equal.ensures((&a, &b), out) && (out matches Ok(d)
        && !is_true(d))
}

/// A possible answer of the script's `==` on `a` and `b` is the error `e`.
pub open spec fn compared_with_error<F: Fn(&Dynamic, &Dynamic) -> Result<Dynamic, Box<EvalAltResult>>>(
    values_equal: F,
    a: Dynamic,
    b: Dynamic,
    e: Box<EvalAltResult>,
) -> bool {
    values_equal.ensures((&a, &b), Err(e))
}

/// Are two maps equal (`==`)? They are when they hold as many properties and every
/// property of `map1` is in `map2` with a value that the script's `==` (`values_equal`)
/// finds equal; the properties of `map1` are compared in ascending order of name, and the
/// first difference, or the first error of `values_equal`, ends the comparison.
pub fn equals<F: Fn(&Dynamic, &Dynamic) -> Result<Dynamic, Box<EvalAltResult>>>(
    values_equal: F,
    map1: &mut ObjectMap,
    map2: ObjectMap,
) -> (r: Result<bool, Box<EvalAltResult>>)
    requires
        old(map1).wf(),
        map2.wf(),
        forall|a: &Dynamic, b: &Dynamic| #[trigger] values_equal.requires((a, b)),
    ensures
        *final(map1) == *old(map1),
        old(map1)@.len() != map2@.len() ==> r == Ok::<bool, Box<EvalAltResult>>(false),
        r == Ok::<bool, Box<EvalAltResult>>(true) ==> old(map1)@.len() == map2@.len() && forall|k: Seq<char>|
            #[trigger] old(map1)@.contains_key(k) ==> map2@.contains_key(k) && compared_equal(
                values_equal,
                old(map1)@[k],
                map2@[k],
            ),
        (r == Ok::<bool, Box<EvalAltResult>>(false) && old(map1)@.len() == map2@.len()) ==> exists|k: Seq<char>|
            #[trigger] old(map1)@.contains_key(k) && (!map2@.contains_key(k) || compared_unequal(
                values_equal,
                old(map1)@[k],
                map2@[k],
            )),
        r matches Err(e) ==> exists|k: Seq<char>|
            #[trigger] old(map1)@.contains_key(k) && map2@.contains_key(k) && compared_with_error(
                values_equal,
                old(map1)@[k],
                map2@[k],
                e,
            ),
{
    proof {
        map1.lemma_view();
        map2.lemma_view();
    }
    let n = map1.len();
    if n != map2.len() {
        return Ok(false);
    }
    if n == 0 {
        return Ok(true);
    }
    let mut i: usize = 0;
    while i < n
        invariant
            map1.wf(),
            map2.wf(),
            *map1 == *old(map1),
            n == map1.size(),
            n == map1@.len(),
            n == map2@.len(),
            i <= n,
            forall|j: int| #![trigger map1.key_at(j)] 0 <= j < i ==> map2@.contains_key(map1.key_at(j))
                && compared_equal(values_equal, map1.value_at(j), map2@[map1.key_at(j)]),
            forall|a: &Dynamic, b: &Dynamic| #[trigger] values_equal.requires((a, b)),
        decreases n - i,
    {
        proof {
            map1.lemma_view();
        }
        let k = map1.key_at_index(i);
        let v1 = map1.value_at_index(i);
        assert(map1@.contains_key(map1.key_at(i as int)));
        match map2.get(k.as_str()) {
            Some(v2) => {
                let out = values_equal(v1, v2);
                match out {
                    Ok(d) => {
                        let same = match d.as_bool() {
                            Ok(b) => b,
                            Err(_) => false,
                        };
                        if !same {
                            assert(compared_unequal(values_equal, map1.value_at(i as int), map2@[map1.key_at(i as int)]));
                            return Ok(false);
                        }
                        assert(compared_equal(values_equal, map1.value_at(i as int), map2@[map1.key_at(i as int)]));
                    },
                    Err(e) => {
                        assert(compared_with_error(values_equal, map1.value_at(i as int), map2@[map1.key_at(i as int)], e));
                        return Err(e);
                    },
                }
            },
            None => {
                return Ok(false);
            },
        }
        i = i + 1;
    }
    proof {
        assert forall|k: Seq<char>| #[trigger] map1@.contains_key(k) implies map2@.contains_key(k) && compared_equal(
            values_equal,
            map1@[k],
            map2@[k],
        ) by {
            let j = choose|j: int| 0 <= j < map1.size() && map1.key_at(j) == k;
            assert(map1.key_at(j) == k);
        }
    }
    Ok(true)
}

/// Do two maps differ (`!=`)? The negation of [`equals`], with the same errors.
pub fn not_equals<F: Fn(&Dynamic, &Dynamic) -> Result<Dynamic, Box<EvalAltResult>>>(
    values_equal: F,
    map1: &mut ObjectMap,
    map2: ObjectMap,
) -> (r: Result<bool, Box<EvalAltResult>>)
    requires
        old(map1).wf(),
        map2.wf(),
        forall|a: &Dynamic, b: &Dynamic| #[trigger] values_equal.requires((a, b)),
    ensures
        *final(map1) == *old(map1),
        old(map1)@.len() != map2@.len() ==> r == Ok::<bool, Box<EvalAltResult>>(true),
        r == Ok::<bool, Box<EvalAltResult>>(false) ==> old(map1)@.len() == map2@.len() && forall|k: Seq<char>|
            #[trigger] old(map1)@.contains_key(k) ==> map2@.contains_key(k) && compared_equal(
                values_equal,
                old(map1)@[k],
                map2@[k],
            ),
        (r == Ok::<bool, Box<EvalAltResult>>(true) && old(map1)@.len() == map2@.len()) ==> exists|k: Seq<char>|
            #[trigger] old(map1)@.contains_key(k) && (!map2@.contains_key(k) || compared_unequal(
                values_equal,
                old(map1)@[k],
                map2@[k],
            )),
        r matches Err(e) ==> exists|k: Seq<char>|
            #[trigger] old(map1)@.contains_key(k) && map2@.contains_key(k) && compared_with_error(
                values_equal,
                old(map1)@[k],
                map2@[k],
                e,
            ),
{
    match equals(values_equal, map1, map2) {
        Ok(b) => Ok(!b),
        Err(e) => Err(e),
    }
}

/// `mixin` and `fill_with` both leave the union of the property names; where both maps
/// hold a property, `mixin` takes the value of the second map and `fill_with` keeps the
/// value of the first.
pub proof fn law_mixin_and_fill_with(map: Map<Seq<char>, Dynamic>, map2: Map<Seq<char>, Dynamic>, k: Seq<char>)
    ensures
        map.union_prefer_right(map2).contains_key(k) == (map.contains_key(k) || map2.contains_key(k)),
        map2.union_prefer_right(map).contains_key(k) == (map.contains_key(k) || map2.contains_key(k)),
        map2.contains_key(k) ==> map.union_prefer_right(map2)[k] == map2[k],
        !map2.contains_key(k) && map.contains_key(k) ==> map.union_prefer_right(map2)[k] == map[k],
        map.contains_key(k) ==> map2.union_prefer_right(map)[k] == map[k],
        !map.contains_key(k) && map2.contains_key(k) ==> map2.union_prefer_right(map)[k] == map2[k],
{
}

} // verus!
