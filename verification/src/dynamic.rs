//! The `Dynamic` value type carried through scripts.
use std::rc::Rc;
use vstd::prelude::*;
use crate::immutable_string::ImmutableString;
use crate::map::ObjectMap;
use crate::packages::string_basic::{debug_quoted, debug_text};
use crate::text::{decimal_text, write_decimal};
use crate::INT;

verus! {

/// The type of the user-settable tag attached to every [`Dynamic`] value.
pub type Tag = i32;

/// Can a [`Dynamic`] value be modified?
#[derive(Clone, Copy, PartialEq, Eq, Structural, Debug, Hash)]
pub enum AccessMode {
    /// Mutable.
    ReadWrite,
    /// Immutable.
    ReadOnly,
}

/// The value held by a [`Dynamic`].
#[derive(Debug)]
pub enum Union {
    /// The unit value `()`.
    Unit,
    /// A boolean.
    Bool(bool),
    /// A string.
    Str(ImmutableString),
    /// A character.
    Char(char),
    /// An integer.
    Int(INT),
    /// An array of values (shared until it is changed).
    Array(Rc<Vec<Dynamic>>),
    /// An object map (shared until it is changed).
    Object(Rc<ObjectMap>),
    /// A value of a custom type, known here by its type name only.
    Variant(String),
    /// A shared value (a closure capture); the wrapped value is the current content.
    Shared(Box<Dynamic>),
}

/// Dynamic type containing any value.
#[derive(Debug)]
pub struct Dynamic {
    pub value: Union,
    pub tag: Tag,
    pub access: AccessMode,
}

impl Clone for Union {
    fn clone(&self) -> (r: Self)
        ensures
            r == *self,
        decreases self,
    {
        match self {
            Union::Unit => Union::Unit,
            Union::Bool(b) => Union::Bool(*b),
            Union::Str(s) => Union::Str(s.clone()),
            Union::Char(c) => Union::Char(*c),
            Union::Int(i) => Union::Int(*i),
            Union::Array(v) => Union::Array(Rc::clone(v)),
            Union::Object(m) => Union::Object(Rc::clone(m)),
            Union::Variant(n) => Union::Variant(n.clone()),
            Union::Shared(d) => Union::Shared(Box::new((**d).clone())),
        }
    }
}

impl Clone for Dynamic {
    fn clone(&self) -> (r: Self)
        ensures
            r == *self,
        decreases self,
    {
        Dynamic { value: self.value.clone(), tag: self.tag, access: self.access }
    }
}

/// The type name of a value, as reported to scripts.
pub open spec fn spec_type_desc(d: Dynamic) -> Seq<char>
    decreases d,
{
    match d.value {
        Union::Unit => "()"@,
        Union::Bool(_) => "bool"@,
        Union::Str(_) => "string"@,
        Union::Char(_) => "char"@,
        Union::Int(_) => "i64"@,
        Union::Array(_) => "array"@,
        Union::Object(_) => "map"@,
        Union::Variant(n) => n@,
        Union::Shared(inner) => spec_type_desc(*inner),
    }
}

/// The value with any sharing wrappers removed.
pub open spec fn spec_flatten(d: Dynamic) -> Dynamic
    decreases d,
{
    match d.value {
        Union::Shared(inner) => spec_flatten(*inner),
        _ => d,
    }
}

/// Is `d` a plain (untagged, modifiable) string value with text `s`?
pub open spec fn is_string_value(d: Dynamic, s: Seq<char>) -> bool {
    &&& d.value matches Union::Str(x) && x@ == s
    &&& d.tag == 0
    &&& d.access == AccessMode::ReadWrite
}

impl Dynamic {
    /// A [`Dynamic`] holding `v`, with a zero tag, modifiable.
    pub open spec fn spec_of(v: Union) -> Dynamic {
        Dynamic { value: v, tag: 0, access: AccessMode::ReadWrite }
    }

    /// The unit value `()`.
    pub fn unit() -> (d: Dynamic)
        ensures
            d == Dynamic::spec_of(Union::Unit),
    {
        Dynamic { value: Union::Unit, tag: 0, access: AccessMode::ReadWrite }
    }

    /// A boolean value.
    pub fn from_bool(b: bool) -> (d: Dynamic)
        ensures
            d == Dynamic::spec_of(Union::Bool(b)),
    {
        Dynamic { value: Union::Bool(b), tag: 0, access: AccessMode::ReadWrite }
    }

    /// An integer value.
    pub fn from_int(i: INT) -> (d: Dynamic)
        ensures
            d == Dynamic::spec_of(Union::Int(i)),
    {
        Dynamic { value: Union::Int(i), tag: 0, access: AccessMode::ReadWrite }
    }

    /// A character value.
    pub fn from_char(c: char) -> (d: Dynamic)
        ensures
            d == Dynamic::spec_of(Union::Char(c)),
    {
        Dynamic { value: Union::Char(c), tag: 0, access: AccessMode::ReadWrite }
    }

    /// A string value.
    pub fn from_string(s: ImmutableString) -> (d: Dynamic)
        ensures
            d == Dynamic::spec_of(Union::Str(s)),
    {
        Dynamic { value: Union::Str(s), tag: 0, access: AccessMode::ReadWrite }
    }

    /// An array value.
    pub fn from_array(items: Vec<Dynamic>) -> (d: Dynamic)
        ensures
            d.value matches Union::Array(a) && (*a)@ == items@,
            d.tag == 0,
            d.access == AccessMode::ReadWrite,
    {
        Dynamic { value: Union::Array(Rc::new(items)), tag: 0, access: AccessMode::ReadWrite }
    }

    /// An object map value.
    pub fn from_map(map: ObjectMap) -> (d: Dynamic)
        ensures
            d == Dynamic::spec_of(Union::Object(Rc::new(map))),
    {
        Dynamic { value: Union::Object(Rc::new(map)), tag: 0, access: AccessMode::ReadWrite }
    }

    /// A value of a custom type, known by its type name.
    pub fn from_variant(name: String) -> (d: Dynamic)
        ensures
            d == Dynamic::spec_of(Union::Variant(name)),
    {
        Dynamic { value: Union::Variant(name), tag: 0, access: AccessMode::ReadWrite }
    }

    /// Wrap a value into a shared container.
    pub fn into_shared(self) -> (d: Dynamic)
        ensures
            d == Dynamic::spec_of(Union::Shared(Box::new(self))),
    {
        Dynamic { value: Union::Shared(Box::new(self)), tag: 0, access: AccessMode::ReadWrite }
    }

    /// The tag attached to this value.
    pub fn tag(&self) -> (t: Tag)
        ensures
            t == self.tag,
    {
        self.tag
    }

    /// Attach a tag to this value.
    pub fn set_tag(&mut self, value: Tag)
        ensures
            *final(self) == (Dynamic { tag: value, ..*old(self) }),
    {
        self.tag = value;
    }

    /// Set the access mode of this value.
    pub fn set_access_mode(&mut self, mode: AccessMode)
        ensures
            *final(self) == (Dynamic { access: mode, ..*old(self) }),
    {
        self.access = mode;
    }

    /// Is this value read-only?
    pub fn is_read_only(&self) -> (r: bool)
        ensures
            r == (self.access == AccessMode::ReadOnly),
    {
        match self.access {
            AccessMode::ReadOnly => true,
            AccessMode::ReadWrite => false,
        }
    }

    /// Is this value a shared container?
    pub fn is_shared(&self) -> (r: bool)
        ensures
            r == (self.value is Shared),
    {
        match &self.value {
            Union::Shared(_) => true,
            _ => false,
        }
    }

    /// Is this value of a custom type?
    pub fn is_variant(&self) -> (r: bool)
        ensures
            r == (spec_flatten(*self).value is Variant),
        decreases self,
    {
        match &self.value {
            Union::Variant(_) => true,
            Union::Shared(inner) => inner.is_variant(),
            _ => false,
        }
    }

    /// Is this value the unit value `()`?
    pub fn is_unit(&self) -> (r: bool)
        ensures
            r == (spec_flatten(*self).value is Unit),
        decreases self,
    {
        match &self.value {
            Union::Unit => true,
            Union::Shared(inner) => inner.is_unit(),
            _ => false,
        }
    }

    /// The value as a boolean, or the actual type name if it is not one.
    pub fn as_bool(&self) -> (r: Result<bool, &str>)
        ensures
            match spec_flatten(*self).value {
                Union::Bool(b) => r == Ok::<bool, &str>(b),
                _ => r is Err && r->Err_0@ == spec_type_desc(*self),
            },
        decreases self,
    {
        match &self.value {
            Union::Bool(b) => Ok(*b),
            Union::Shared(inner) => inner.as_bool(),
            _ => Err(self.type_desc()),
        }
    }

    /// The value as a character, or the actual type name if it is not one.
    pub fn as_char(&self) -> (r: Result<char, &str>)
        ensures
            match spec_flatten(*self).value {
                Union::Char(c) => r == Ok::<char, &str>(c),
                _ => r is Err && r->Err_0@ == spec_type_desc(*self),
            },
        decreases self,
    {
        match &self.value {
            Union::Char(c) => Ok(*c),
            Union::Shared(inner) => inner.as_char(),
            _ => Err(self.type_desc()),
        }
    }

    /// The value as an integer, or the actual type name if it is not one.
    pub fn as_int(&self) -> (r: Result<INT, &str>)
        ensures
            match spec_flatten(*self).value {
                Union::Int(i) => r == Ok::<INT, &str>(i),
                _ => r is Err && r->Err_0@ == spec_type_desc(*self),
            },
        decreases self,
    {
        match &self.value {
            Union::Int(i) => Ok(*i),
            Union::Shared(inner) => inner.as_int(),
            _ => Err(self.type_desc()),
        }
    }

    /// The name of the type of the value.
    pub fn type_desc(&self) -> (r: &str)
        ensures
            r@ == spec_type_desc(*self),
        decreases self,
    {
        match &self.value {
            Union::Unit => "()",
            Union::Bool(_) => "bool",
            Union::Str(_) => "string",
            Union::Char(_) => "char",
            Union::Int(_) => "i64",
            Union::Array(_) => "array",
            Union::Object(_) => "map",
            Union::Variant(n) => n.as_str(),
            Union::Shared(inner) => inner.type_desc(),
        }
    }
}

/// The name `std`'s `Debug` formatting gives a character: the character in single
/// quotes, escaped where needed.
pub uninterp spec fn char_debug_text(c: char) -> Seq<char>;

/// Calls `std`'s `Debug` formatting on a character (`format!("{:?}", c)`); the contract
/// only names the result, as `char_debug_text` of the character.
#[verifier::external_body]
fn debug_char(c: char) -> (r: String)
    ensures
        r@ == char_debug_text(c),
{
    format!("{:?}", c)
}

/// The debug form of a value: `()`, `true` or `false`, a string or character quoted, the
/// decimal digits of an integer, the items of an array in square brackets, a map as `#`
/// followed by its quoted property names and values in braces, the type name of a value
/// of a custom type; a shared value shows its content.
pub open spec fn debug_value_text(d: Dynamic) -> Seq<char>
    decreases d,
{
    match d.value {
        Union::Unit => "()"@,
        Union::Bool(b) => if b {
            "true"@
        } else {
            "false"@
        },
        Union::Str(s) => debug_text(s@),
        Union::Char(c) => char_debug_text(c),
        Union::Int(i) => decimal_text(i as int),
        Union::Array(v) => "["@ + debug_items((*v)@) + "]"@,
        Union::Object(m) => "#{"@ + m.debug_entries() + "}"@,
        Union::Variant(n) => n@,
        Union::Shared(inner) => debug_value_text(*inner),
    }
}

/// The debug forms of the items, separated by `", "`.
pub open spec fn debug_items(items: Seq<Dynamic>) -> Seq<char>
    decreases items,
{
    if items.len() == 0 {
        Seq::empty()
    } else if items.len() == 1 {
        debug_value_text(items[0])
    } else {
        debug_items(items.drop_last()) + ", "@ + debug_value_text(items.last())
    }
}

/// Two triples of sizes added up.
pub open spec fn add_sizes(a: (int, int, int), b: (int, int, int)) -> (int, int, int) {
    (a.0 + b.0, a.1 + b.1, a.2 + b.2)
}

/// What a value adds to the data size limits: the number of array items, the number of
/// map properties, and the bytes of strings, over all arrays and maps nested in it
/// (shared values are not looked into).
pub open spec fn data_sizes(d: Dynamic) -> (int, int, int)
    decreases d,
{
    match d.value {
        Union::Array(a) => add_sizes(items_sizes((*a)@), ((*a)@.len() as int, 0, 0)),
        Union::Object(m) => add_sizes(m.values_sizes(), (0, m.size() as int, 0)),
        Union::Str(s) => (0, 0, (vstd::utf8::encode_utf8(s@).len() as usize) as int),
        _ => (0, 0, 0),
    }
}

/// The data sizes of the items, added up.
pub open spec fn items_sizes(items: Seq<Dynamic>) -> (int, int, int)
    decreases items,
{
    if items.len() == 0 {
        (0, 0, 0)
    } else {
        add_sizes(items_sizes(items.drop_last()), data_sizes(items.last()))
    }
}

/// A size, capped at the largest `usize`.
pub open spec fn capped(n: int) -> usize {
    if n > usize::MAX {
        usize::MAX
    } else {
        n as usize
    }
}

/// Sizes added up, each capped at the largest `usize`.
pub fn add_capped(a: (usize, usize, usize), b: (usize, usize, usize)) -> (r: (usize, usize, usize))
    ensures
        r.0 == capped(a.0 + b.0),
        r.1 == capped(a.1 + b.1),
        r.2 == capped(a.2 + b.2),
{
    (a.0.saturating_add(b.0), a.1.saturating_add(b.1), a.2.saturating_add(b.2))
}

/// Add the data sizes of the items (each capped at the largest `usize`).
pub fn items_data_size(items: &Vec<Dynamic>) -> (r: (usize, usize, usize))
    ensures
        r.0 == capped(items_sizes(items@).0),
        r.1 == capped(items_sizes(items@).1),
        r.2 == capped(items_sizes(items@).2),
    decreases items,
{
    let mut acc: (usize, usize, usize) = (0, 0, 0);
    let mut i: usize = 0;
    while i < items.len()
        invariant
            i <= items@.len(),
            acc.0 == capped(items_sizes(items@.subrange(0, i as int)).0),
            acc.1 == capped(items_sizes(items@.subrange(0, i as int)).1),
            acc.2 == capped(items_sizes(items@.subrange(0, i as int)).2),
        decreases items@.len() - i,
    {
        assert(decreases_to!(items => items@[i as int]));
        let d = items[i].data_size();
        proof {
            let t = items@.subrange(0, i + 1);
            assert(t.drop_last() =~= items@.subrange(0, i as int));
            assert(t.last() == items@[i as int]);
            if i == 0 {
                assert(items@.subrange(0, 0) =~= Seq::<Dynamic>::empty());
            }
            lemma_sizes_nonneg_items(items@.subrange(0, i as int));
            lemma_sizes_nonneg(items@[i as int]);
        }
        acc = add_capped(acc, d);
        i = i + 1;
    }
    assert(items@.subrange(0, items@.len() as int) =~= items@);
    acc
}

/// Sizes are never negative.
pub proof fn lemma_sizes_nonneg(d: Dynamic)
    ensures
        data_sizes(d).0 >= 0 && data_sizes(d).1 >= 0 && data_sizes(d).2 >= 0,
    decreases d,
{
    match d.value {
        Union::Array(a) => {
            lemma_sizes_nonneg_items((*a)@);
        },
        Union::Object(m) => {
            m.lemma_values_sizes_nonneg();
        },
        _ => {},
    }
}

/// Sizes of items are never negative.
pub proof fn lemma_sizes_nonneg_items(items: Seq<Dynamic>)
    ensures
        items_sizes(items).0 >= 0 && items_sizes(items).1 >= 0 && items_sizes(items).2 >= 0,
    decreases items,
{
    if items.len() > 0 {
        lemma_sizes_nonneg_items(items.drop_last());
        lemma_sizes_nonneg(items.last());
    }
}

impl Dynamic {
    /// What the value adds to the data size limits (see `data_sizes`), each size capped at
    /// the largest `usize`.
    pub fn data_size(&self) -> (r: (usize, usize, usize))
        ensures
            r.0 == capped(data_sizes(*self).0),
            r.1 == capped(data_sizes(*self).1),
            r.2 == capped(data_sizes(*self).2),
        decreases self,
    {
        match &self.value {
            Union::Array(a) => {
                let n = a.len();
                let d = items_data_size(&**a);
                proof {
                    lemma_sizes_nonneg_items((**a)@);
                }
                add_capped(d, (n, 0, 0))
            },
            Union::Object(m) => {
                let n = m.size_exec();
                let d = m.values_data_size();
                proof {
                    m.lemma_values_sizes_nonneg();
                }
                add_capped(d, (0, n, 0))
            },
            Union::Str(s) => (0, 0, s.as_str().len()),
            _ => (0, 0, 0),
        }
    }
}

/// How a value is shown as text: nothing for `()`, `true` or `false`, the text of a
/// string, the character, the decimal digits of an integer, the debug form of an array or
/// a map, and the type name of a value of a custom type.
pub open spec fn display_text(d: Dynamic) -> Seq<char>
    decreases d,
{
    match d.value {
        Union::Unit => Seq::<char>::empty(),
        Union::Bool(b) => if b {
            "true"@
        } else {
            "false"@
        },
        Union::Str(s) => s@,
        Union::Char(c) => seq![c],
        Union::Int(i) => decimal_text(i as int),
        Union::Array(_) => debug_value_text(d),
        Union::Object(_) => debug_value_text(d),
        Union::Variant(n) => n@,
        Union::Shared(inner) => display_text(*inner),
    }
}

/// Add the debug forms of the items, separated by `", "`.
pub fn write_debug_items(out: &mut String, items: &Vec<Dynamic>)
    ensures
        final(out)@ == old(out)@ + debug_items(items@),
    decreases items,
{
    let mut i: usize = 0;
    while i < items.len()
        invariant
            i <= items@.len(),
            out@ == old(out)@ + debug_items(items@.subrange(0, i as int)),
        decreases items@.len() - i,
    {
        assert(decreases_to!(items => items@[i as int]));
        if i > 0 {
            out.append(", ");
        }
        items[i].write_debug(out);
        proof {
            let t = items@.subrange(0, i + 1);
            assert(t.drop_last() =~= items@.subrange(0, i as int));
            assert(t.last() == items@[i as int]);
            if i == 0 {
                assert(items@.subrange(0, 0) =~= Seq::<Dynamic>::empty());
            }
        }
        i = i + 1;
    }
    assert(items@.subrange(0, items@.len() as int) =~= items@);
}

impl Dynamic {
    /// Add the debug form of the value.
    pub fn write_debug(&self, out: &mut String)
        ensures
            final(out)@ == old(out)@ + debug_value_text(*self),
        decreases self,
    {
        match &self.value {
            Union::Unit => out.append("()"),
            Union::Bool(b) => if *b {
                out.append("true")
            } else {
                out.append("false")
            },
            Union::Str(s) => {
                let t = debug_quoted(s.as_str());
                out.append(t.as_str());
            },
            Union::Char(c) => {
                let t = debug_char(*c);
                out.append(t.as_str());
            },
            Union::Int(i) => write_decimal(out, *i as i128),
            Union::Array(v) => {
                out.append("[");
                write_debug_items(out, &**v);
                out.append("]");
            },
            Union::Object(m) => {
                out.append("#{");
                m.write_debug_entries(out);
                out.append("}");
            },
            Union::Variant(n) => out.append(n.as_str()),
            Union::Shared(inner) => inner.write_debug(out),
        }
    }

    /// The value shown as text.
    pub fn to_text(&self) -> (r: String)
        ensures
            r@ == display_text(*self),
        decreases self,
    {
        match &self.value {
            Union::Unit => String::new(),
            Union::Bool(b) => if *b {
                String::from_str("true")
            } else {
                String::from_str("false")
            },
            Union::Str(s) => String::from_str(s.as_str()),
            Union::Char(c) => {
                let mut r = String::new();
                crate::text::push_char(&mut r, *c);
                assert(r@ == seq![*c]);
                r
            },
            Union::Int(i) => {
                let mut r = String::new();
                write_decimal(&mut r, *i as i128);
                assert(r@ == decimal_text(*i as int));
                r
            },
            Union::Array(_) | Union::Object(_) => {
                let mut r = String::new();
                self.write_debug(&mut r);
                assert(r@ == debug_value_text(*self));
                r
            },
            Union::Variant(n) => n.clone(),
            Union::Shared(inner) => inner.to_text(),
        }
    }
}

impl Dynamic {
    /// A copy of the value with any sharing wrappers removed.
    pub fn flatten_clone(&self) -> (r: Dynamic)
        ensures
            r == spec_flatten(*self),
        decreases self,
    {
        match &self.value {
            Union::Shared(inner) => inner.flatten_clone(),
            _ => self.clone(),
        }
    }

    /// The access mode of the value.
    pub fn access_mode(&self) -> (r: AccessMode)
        ensures
            r == self.access,
    {
        self.access
    }
}

} // verus!
