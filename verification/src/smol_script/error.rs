//! Source positions within a named file, and the errors reported at them.

use vstd::prelude::*;

verus! {

/// A span of source text: byte offsets into the named file.
#[derive(Debug, Clone, PartialEq)]
pub struct Position {
    pub start: usize,
    pub end: usize,
    pub file: String,
}

impl Position {
    /// A span from `start` to `end` in the given file.
    pub fn new(start: usize, end: usize, file: String) -> (p: Position)
        ensures
            p.start == start,
            p.end == end,
            p.file@ == file@,
    {
        Position { start, end, file }
    }

    /// The smallest span covering both spans; the file name is taken from
    /// `self`.
    pub fn merge(&self, other: &Position) -> (p: Position)
        ensures
            p.start == if self.start <= other.start {
                self.start as int
            } else {
                other.start as int
            },
            p.end == if self.end >= other.end {
                self.end as int
            } else {
                other.end as int
            },
            p.file@ == self.file@,
    {
        Position {
            start: if self.start <= other.start {
                self.start
            } else {
                other.start
            },
            end: if self.end >= other.end {
                self.end
            } else {
                other.end
            },
            file: self.file.clone(),
        }
    }
}

/// The kinds of error the scripting front end reports.
#[derive(Debug, Clone, PartialEq, Eq, Structural)]
pub enum ErrorType {
    UndefinedWord,
    SyntaxError,
}

/// An error: its kind, a human-readable detail line, and where it occurred.
#[derive(Debug, Clone)]
pub struct Error {
    pub error: ErrorType,
    pub details: String,
    pub position: Position,
}

impl Error {
    /// An error of the given kind at the given position.
    pub fn new(error: ErrorType, details: String, position: Position) -> (e: Error)
        ensures
            e.error == error,
            e.details@ == details@,
            e.position == position,
    {
        Error { error, details, position }
    }
}

} // verus!
