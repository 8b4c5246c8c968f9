//! Core language functions: reading and writing the tag of a value.
use vstd::prelude::*;
use crate::dynamic::{Dynamic, Tag};
use crate::error::EvalAltResult;
use crate::packages::arithmetic::{fails_with, make_err};
use crate::text::{decimal_text, write_decimal};
use crate::INT;

verus! {

/// The message of the error for a tag outside the range of `Tag`; `which` is `"small"`
/// or `"large"`.
pub open spec fn tag_range_message(tag: INT, which: Seq<char>) -> Seq<char> {
    decimal_text(tag as int) + " is too "@ + which + " to fit into a tag (must be between "@
        + decimal_text(Tag::MIN as int) + " and "@ + decimal_text(Tag::MAX as int) + ")"@
}

/// The tag of `value`.
pub fn get_tag(value: &mut Dynamic) -> (r: INT)
    ensures
        r == old(value).tag,
        *final(value) == *old(value),
{
    value.tag() as INT
}

fn tag_range_text(tag: INT, which: &str) -> (s: String)
    ensures
        s@ == tag_range_message(tag, which@),
{
    let mut s = String::new();
    write_decimal(&mut s, tag as i128);
    s.append(" is too ");
    s.append(which);
    s.append(" to fit into a tag (must be between ");
    write_decimal(&mut s, Tag::MIN as i128);
    s.append(" and ");
    write_decimal(&mut s, Tag::MAX as i128);
    s.append(")");
    s
}

/// Set the tag of `value`; an error, with `value` unchanged, for a tag outside the
/// range of `Tag`.
pub fn set_tag(value: &mut Dynamic, tag: INT) -> (r: Result<(), Box<EvalAltResult>>)
    ensures
        tag < Tag::MIN ==> fails_with(r, tag_range_message(tag, "small"@)) && *final(value) == *old(value),
        tag > Tag::MAX ==> fails_with(r, tag_range_message(tag, "large"@)) && *final(value) == *old(value),
        Tag::MIN <= tag <= Tag::MAX ==> r is Ok && *final(value) == (Dynamic { tag: tag as Tag, ..*old(value) }),
{
    if tag < Tag::MIN as INT {
        Err(make_err(tag_range_text(tag, "small")))
    } else if tag > Tag::MAX as INT {
        Err(make_err(tag_range_text(tag, "large")))
    } else {
        value.set_tag(tag as Tag);
        Ok(())
    }
}

/// A tag that `set_tag` accepted is the one `get_tag` reads back, and nothing else of
/// the value changes.
pub proof fn law_get_tag_reads_set_tag(value: Dynamic, tag: INT)
    requires
        Tag::MIN <= tag <= Tag::MAX,
    ensures
        (Dynamic { tag: tag as Tag, ..value }).tag == tag,
        (Dynamic { tag: tag as Tag, ..value }).value == value.value,
        (Dynamic { tag: tag as Tag, ..value }).access == value.access,
{
}

} // verus!
