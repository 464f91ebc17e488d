//! Source locations used by every diagnostic.

use vstd::prelude::*;

verus! {

/// A location in a script: a concrete `(line, column)` pair (both counted
/// from 1), the synthetic end-of-input location, or the sentinel that says
/// no position information is available.
#[derive(Debug, Clone, Copy, PartialEq, Eq, Hash, Structural)]
pub enum Position {
    /// A concrete location; `line` and `col` are both at least 1.
    At { line: u32, col: u32 },
    /// The synthetic end-of-input location.
    Eof,
    /// No position information is available.
    NoPos,
}

impl Position {
    /// A concrete position is well formed when line and column both start at 1.
    pub open spec fn wf(self) -> bool {
        self matches Position::At { line, col } ==> line >= 1 && col >= 1
    }

    /// Create a concrete position.
    pub fn new(line: u32, col: u32) -> (r: Position)
        requires
            line >= 1,
            col >= 1,
        ensures
            r == (Position::At { line, col }),
            r.wf(),
    {
        Position::At { line, col }
    }

    /// The synthetic end-of-input position.
    pub fn eof() -> (r: Position)
        ensures
            r == Position::Eof,
    {
        Position::Eof
    }

    /// The sentinel for "no position available".
    pub fn none() -> (r: Position)
        ensures
            r == Position::NoPos,
    {
        Position::NoPos
    }

    /// True exactly on the end-of-input sentinel.
    pub fn is_eof(&self) -> (r: bool)
        ensures
            r == (*self is Eof),
    {
        matches!(self, Position::Eof)
    }

    /// True exactly on the "no position" sentinel.
    pub fn is_none(&self) -> (r: bool)
        ensures
            r == (*self is NoPos),
    {
        matches!(self, Position::NoPos)
    }
}

} // verus!
