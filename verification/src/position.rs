//! Source positions of tokens and errors.
use vstd::prelude::*;
use crate::text::{decimal_text, write_decimal};

verus! {

/// A location (line number + character position) in the input script.
///
/// A line number of zero together with a character position of zero means "no position".
#[derive(Clone, Copy, PartialEq, Eq, Structural, Debug, Hash)]
pub struct Position {
    pub line: u16,
    pub pos: u16,
}

impl Position {
    /// The "no position" value.
    pub open spec fn spec_none() -> Position {
        Position { line: 0, pos: 0 }
    }

    /// A [`Position`] representing no position.
    pub fn none() -> (p: Position)
        ensures
            p == Position::spec_none(),
    {
        Position { line: 0, pos: 0 }
    }

    /// A [`Position`] representing the first character of the script.
    pub fn start() -> (p: Position)
        ensures
            p == (Position { line: 1, pos: 0 }),
    {
        Position { line: 1, pos: 0 }
    }

    /// Create a new [`Position`]; the line number must not be zero.
    pub fn new(line: u16, position: u16) -> (p: Position)
        requires
            line != 0,
        ensures
            p == (Position { line: line, pos: position }),
    {
        Position { line, pos: position }
    }

    /// Is there no [`Position`]?
    pub fn is_none(&self) -> (r: bool)
        ensures
            r == (*self == Position::spec_none()),
    {
        self.line == 0 && self.pos == 0
    }

    /// The line number, if any.
    pub fn line(&self) -> (r: Option<usize>)
        ensures
            r == (if self.line == 0 && self.pos == 0 { None } else { Some(self.line as usize) }),
    {
        if self.is_none() {
            None
        } else {
            Some(self.line as usize)
        }
    }

    /// The character position within the line, if any.
    pub fn position(&self) -> (r: Option<usize>)
        ensures
            r == (if self.pos == 0 { None } else { Some(self.pos as usize) }),
    {
        if self.is_none() || self.pos == 0 {
            None
        } else {
            Some(self.pos as usize)
        }
    }
}

/// How a position is shown: `line L, position P`, or `none`.
pub open spec fn position_text(p: Position) -> Seq<char> {
    if p == Position::spec_none() {
        "none"@
    } else {
        "line "@ + decimal_text(p.line as int) + ", position "@ + decimal_text(p.pos as int)
    }
}

impl Position {
    /// The text of the position: `line L, position P`, or `none`.
    pub fn to_text(&self) -> (r: String)
        ensures
            r@ == position_text(*self),
    {
        if self.is_none() {
            String::from_str("none")
        } else {
            let mut s = String::from_str("line ");
            write_decimal(&mut s, self.line as i128);
            s.append(", position ");
            write_decimal(&mut s, self.pos as i128);
            s
        }
    }
}

} // verus!
