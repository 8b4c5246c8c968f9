//! Hash keys of functions, function calls and qualified variables.
use std::hash::{Hash, Hasher};
use ahash::AHasher;
use vstd::prelude::*;

verus! {

#[verifier::external_type_specification]
#[verifier::external_body]
pub struct ExAHasher(ahash::AHasher);

/// `AHasher::default`: a fresh hasher with fixed keys (built without its random-number
/// features, ahash takes constant keys).
///
/// Nothing is stated of the hasher: which algorithm it runs, and so what it computes,
/// depends on the target the crate is built for.
#[verifier::external_body]
pub fn get_hasher() -> (h: AHasher) {
    AHasher::default()
}

/// `<str as Hash>::hash` fed into an `AHasher`; what it does to the hasher's state is
/// not stated.
#[verifier::external_body]
fn hash_text(h: &mut AHasher, text: &str) {
    text.hash(h)
}

/// `<usize as Hash>::hash` fed into an `AHasher`; what it does to the hasher's state is
/// not stated.
#[verifier::external_body]
fn hash_count(h: &mut AHasher, n: usize) {
    n.hash(h)
}

/// `<u64 as Hash>::hash` fed into an `AHasher`; what it does to the hasher's state is
/// not stated.
#[verifier::external_body]
fn hash_key(h: &mut AHasher, k: u64) {
    k.hash(h)
}

/// `AHasher::finish`: the key of what was fed so far; nothing is stated of it.
#[verifier::external_body]
fn finish_hash(h: &AHasher) -> (r: u64) {
    h.finish()
}

/// The little-endian value of eight bytes.
pub open spec fn le_u64(b: Seq<u8>) -> int {
    b[0] as int + 0x100 * b[1] + 0x10000 * b[2] + 0x1000000 * b[3] + 0x100000000 * b[4]
        + 0x10000000000 * b[5] + 0x1000000000000 * b[6] + 0x100000000000000 * b[7]
}

/// The big-endian value of eight bytes.
pub open spec fn be_u64(b: Seq<u8>) -> int {
    le_u64(b.reverse())
}

/// `u64::from_ne_bytes`: the value of eight bytes in the byte order of the machine,
/// which is little-endian or big-endian.
#[verifier::external_body]
fn u64_from_ne_bytes(key: [u8; 8]) -> (r: u64)
    ensures
        r == le_u64(key@) || r == be_u64(key@),
{
    u64::from_ne_bytes(key)
}

/// A hasher that only takes one single `u64` and returns it as a hash key.
#[derive(Debug, Clone, Copy, PartialEq, Eq, Structural, Hash)]
pub struct StraightHasher(pub u64);

impl StraightHasher {
    /// The key held.
    pub fn finish(&self) -> (r: u64)
        ensures
            r == self.0,
    {
        self.0
    }

    /// Take the eight bytes of one `u64`, in the byte order of the machine, as the key.
    pub fn write(&mut self, bytes: &[u8])
        requires
            bytes@.len() == 8,
        ensures
            final(self).0 == le_u64(bytes@) || final(self).0 == be_u64(bytes@),
    {
        let key: [u8; 8] = [bytes[0], bytes[1], bytes[2], bytes[3], bytes[4], bytes[5], bytes[6], bytes[7]];
        assert(key@ =~= bytes@);
        self.0 = u64_from_ne_bytes(key);
    }
}

/// A builder of `StraightHasher`s.
#[derive(Debug, Clone, Copy, PartialEq, Eq, Structural, Hash, Default)]
pub struct StraightHasherBuilder;

impl StraightHasherBuilder {
    /// A new hasher, holding the key 42 until it is written to.
    pub fn build_hasher(&self) -> (h: StraightHasher)
        ensures
            h.0 == 42,
    {
        StraightHasher(42)
    }
}

/// An item fed into a hasher: a text, a count, or a key.
#[derive(Clone, Copy, Debug)]
pub enum HashItem<'a> {
    Text(&'a str),
    Count(usize),
    Key(u64),
}

/// The module names after the first, as text items.
pub open spec fn module_items<'a>(modules: Seq<&'a str>) -> Seq<HashItem<'a>> {
    if modules.len() <= 1 {
        Seq::empty()
    } else {
        modules.skip(1).map_values(|m: &'a str| HashItem::Text(m))
    }
}

/// Feed the items into a fresh hasher, in order, and take its key.
pub fn hash_items(items: &[HashItem]) -> u64 {
    let mut s = get_hasher();
    let mut i: usize = 0;
    while i < items.len()
        decreases items.len() - i,
    {
        match items[i] {
            HashItem::Text(t) => hash_text(&mut s, t),
            HashItem::Count(n) => hash_count(&mut s, n),
            HashItem::Key(k) => hash_key(&mut s, k),
        }
        i = i + 1;
    }
    finish_hash(&s)
}

/// The module names after the first, as text items, added after `items`.
fn push_module_items<'a>(items: &mut Vec<HashItem<'a>>, modules: &[&'a str])
    ensures
        final(items)@ == old(items)@ + module_items(modules@),
{
    let ghost start = items@;
    let mut i: usize = 1;
    if modules.len() <= 1 {
        return;
    }
    while i < modules.len()
        invariant
            1 <= i <= modules@.len(),
            items@ == start + modules@.subrange(1, i as int).map_values(|m: &'a str| HashItem::Text(m)),
        decreases modules.len() - i,
    {
        items.push(HashItem::Text(modules[i]));
        assert(modules@.subrange(1, i + 1).map_values(|m: &'a str| HashItem::Text(m)) =~= modules@.subrange(
            1,
            i as int,
        ).map_values(|m: &'a str| HashItem::Text(m)).push(HashItem::Text(modules@[i as int])));
        i = i + 1;
    }
    assert(modules@.subrange(1, modules@.len() as int) =~= modules@.skip(1));
}

/// What is fed to the hasher for a namespace-qualified variable name: the modules after
/// the first, the number of modules, then the name.
pub fn qualified_var_hash_items<'a>(modules: &[&'a str], var_name: &'a str) -> (items: Vec<HashItem<'a>>)
    ensures
        items@ == module_items(modules@) + seq![HashItem::Count(modules@.len() as usize), HashItem::Text(var_name)],
{
    let mut items: Vec<HashItem<'a>> = Vec::new();
    push_module_items(&mut items, modules);
    items.push(HashItem::Count(modules.len()));
    items.push(HashItem::Text(var_name));
    items
}

/// What is fed to the hasher for a namespace-qualified function name and number of
/// parameters: the modules after the first, the number of modules, the name, then the
/// number of parameters.
pub fn qualified_fn_hash_items<'a>(modules: &[&'a str], fn_name: &'a str, num: usize) -> (items: Vec<HashItem<'a>>)
    ensures
        items@ == module_items(modules@) + seq![
            HashItem::Count(modules@.len() as usize),
            HashItem::Text(fn_name),
            HashItem::Count(num),
        ],
{
    let mut items: Vec<HashItem<'a>> = Vec::new();
    push_module_items(&mut items, modules);
    items.push(HashItem::Count(modules.len()));
    items.push(HashItem::Text(fn_name));
    items.push(HashItem::Count(num));
    items
}

/// What is fed to the hasher for a list of parameter type keys: each key, then their
/// number.
pub fn fn_params_hash_items(params: &[u64]) -> (items: Vec<HashItem<'static>>)
    ensures
        items@ == params@.map_values(|k: u64| HashItem::Key(k)) + seq![HashItem::Count(params@.len() as usize)],
{
    let mut items: Vec<HashItem<'static>> = Vec::new();
    let mut i: usize = 0;
    while i < params.len()
        invariant
            i <= params@.len(),
            items@ == params@.subrange(0, i as int).map_values(|k: u64| HashItem::Key(k)),
        decreases params.len() - i,
    {
        items.push(HashItem::Key(params[i]));
        assert(params@.subrange(0, i + 1).map_values(|k: u64| HashItem::Key(k)) =~= params@.subrange(
            0,
            i as int,
        ).map_values(|k: u64| HashItem::Key(k)).push(HashItem::Key(params@[i as int])));
        i = i + 1;
    }
    assert(params@.subrange(0, params@.len() as int) =~= params@);
    items.push(HashItem::Count(params.len()));
    items
}

/// The key of a namespace-qualified variable name: the items of
/// [`qualified_var_hash_items`] fed into a fresh hasher.
pub fn calc_qualified_var_hash(modules: &[&str], var_name: &str) -> u64 {
    let items = qualified_var_hash_items(modules, var_name);
    hash_items(items.as_slice())
}

/// The key of a namespace-qualified function name and number of parameters: the items
/// of [`qualified_fn_hash_items`] fed into a fresh hasher.
pub fn calc_qualified_fn_hash(modules: &[&str], fn_name: &str, num: usize) -> u64 {
    let items = qualified_fn_hash_items(modules, fn_name, num);
    hash_items(items.as_slice())
}

/// The key of a function name without namespace and a number of parameters.
pub fn calc_fn_hash(fn_name: &str, num: usize) -> u64 {
    let no_modules: [&str; 0] = [];
    calc_qualified_fn_hash(&no_modules, fn_name, num)
}

/// The key of a list of parameter type keys: the items of [`fn_params_hash_items`] fed
/// into a fresh hasher.
pub fn calc_fn_params_hash(params: &[u64]) -> u64 {
    let items = fn_params_hash_items(params);
    hash_items(items.as_slice())
}

/// Combine two hash keys by taking the XOR of them.
pub fn combine_hashes(a: u64, b: u64) -> (r: u64)
    ensures
        r == a ^ b,
{
    a ^ b
}

} // verus!
