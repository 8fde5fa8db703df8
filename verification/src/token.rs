//! Source positions carried by diagnostics.

use vstd::prelude::*;

verus! {

/// A location in a script: a line and a character offset within that line.
///
/// Line numbers start at 1; line 0 stands for "no position".
#[derive(Clone, Copy, Debug, PartialEq, Eq, Hash, Structural)]
pub struct Position {
    line: u16,
    pos: u16,
}

impl Position {
    /// The position at `line` (from 1) and character offset `position`.
    /// With line 0 it is the "no position" placeholder.
    pub fn new(line: u16, position: u16) -> (r: Position)
        ensures
            line != 0 ==> r.spec_line() == Some(line) && r.spec_position() == Some(position),
            line == 0 ==> r == Position::spec_none(),
    {
        if line == 0 {
            Position::none()
        } else {
            Position { line, pos: position }
        }
    }

    /// The placeholder for "no position".
    pub closed spec fn spec_none() -> Position {
        Position { line: 0, pos: 0 }
    }

    /// The placeholder for "no position".
    pub fn none() -> (r: Position)
        ensures
            r == Position::spec_none(),
            r.is_none(),
    {
        Position { line: 0, pos: 0 }
    }

    /// Whether this is the "no position" placeholder.
    pub open spec fn is_none(self) -> bool {
        self.spec_line() is None
    }

    /// The line number, if there is a position.
    pub closed spec fn spec_line(self) -> Option<u16> {
        if self.line == 0 {
            None
        } else {
            Some(self.line)
        }
    }

    /// The character offset within the line, if there is a position.
    pub closed spec fn spec_position(self) -> Option<u16> {
        if self.line == 0 {
            None
        } else {
            Some(self.pos)
        }
    }

    /// The line number, or `None` for the "no position" placeholder.
    pub fn line(&self) -> (r: Option<u16>)
        ensures
            r == self.spec_line(),
    {
        if self.line == 0 {
            None
        } else {
            Some(self.line)
        }
    }

    /// The character offset, or `None` for the "no position" placeholder.
    pub fn position(&self) -> (r: Option<u16>)
        ensures
            r == self.spec_position(),
    {
        if self.line == 0 {
            None
        } else {
            Some(self.pos)
        }
    }
}

} // verus!
