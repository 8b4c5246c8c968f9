//! Lexical rules shared by the parser and function pointers.
use vstd::prelude::*;
use crate::text::str_chars;

verus! {

/// Is `c` an ASCII letter?
pub open spec fn is_ascii_letter(c: char) -> bool {
    ('a' <= c && c <= 'z') || ('A' <= c && c <= 'Z')
}

/// Is `c` an ASCII letter or digit?
pub open spec fn is_ascii_letter_or_digit(c: char) -> bool {
    is_ascii_letter(c) || ('0' <= c && c <= '9')
}

/// Scan the rest of a name, knowing whether a letter has been seen: underscores are always
/// allowed, digits only after the first letter, nothing else at all.
pub open spec fn identifier_rest(s: Seq<char>, seen_letter: bool) -> bool
    decreases s.len(),
{
    if s.len() == 0 {
        seen_letter
    } else if s[0] == '_' {
        identifier_rest(s.drop_first(), seen_letter)
    } else if is_ascii_letter(s[0]) {
        identifier_rest(s.drop_first(), true)
    } else if !seen_letter {
        false
    } else if is_ascii_letter_or_digit(s[0]) {
        identifier_rest(s.drop_first(), seen_letter)
    } else {
        false
    }
}

/// Is `s` a valid identifier: ASCII letters, digits and underscores, with a letter before
/// any digit?
pub open spec fn valid_identifier(s: Seq<char>) -> bool {
    identifier_rest(s, false)
}

/// Is the text a valid identifier?
pub fn is_valid_identifier(name: &str) -> (r: bool)
    ensures
        r == valid_identifier(name@),
{
    let v = str_chars(name);
    let mut seen_letter = false;
    let mut i: usize = 0;
    assert(v@.subrange(0, v.len() as int) == v@);
    while i < v.len()
        invariant
            v@ == name@,
            i <= v.len(),
            valid_identifier(v@) == identifier_rest(v@.subrange(i as int, v.len() as int), seen_letter),
        decreases v.len() - i,
    {
        let c = v[i];
        let ghost rest = v@.subrange(i as int, v.len() as int);
        assert(rest.len() > 0);
        assert(rest[0] == c);
        assert(v@.subrange(i as int, v.len() as int).drop_first() == v@.subrange(i + 1, v.len() as int));
        if c == '_' {
        } else if ('a' <= c && c <= 'z') || ('A' <= c && c <= 'Z') {
            seen_letter = true;
        } else if !seen_letter {
            assert(!is_ascii_letter(c));
            assert(!identifier_rest(rest, seen_letter));
            return false;
        } else if '0' <= c && c <= '9' {
        } else {
            assert(!is_ascii_letter_or_digit(c));
            assert(!identifier_rest(rest, seen_letter));
            return false;
        }
        i = i + 1;
    }
    seen_letter
}

} // verus!
