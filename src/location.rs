use vstd::prelude::*;

verus! {

/// Position of a lexeme in the source text. `duplicated` tells apart the copies
/// of one token that generic expansion produces.
#[derive(Debug, Clone, Copy, PartialEq, Eq, Hash, Structural)]
pub struct Location {
    pub line: u32,
    pub column: u32,
    pub length: u32,
    pub duplicated: Option<usize>,
}

impl Location {
    /// The location of a token found at `line`, `column`, spanning `length` characters.
    pub fn new(line: u32, column: u32, length: u32) -> (r: Location)
        ensures
            r == (Location { line, column, length, duplicated: None }),
    {
        Location { line, column, length, duplicated: None }
    }

    /// The same location, marked as the `i`-th duplicate of its token.
    pub fn with_duplicated(self, i: usize) -> (r: Location)
        ensures
            r == (Location { duplicated: Some(i), ..self }),
    {
        Location { duplicated: Some(i), ..self }
    }
}

impl Default for Location {
    fn default() -> (r: Location)
        ensures
            r == (Location { line: 0, column: 0, length: 0, duplicated: None }),
    {
        Location { line: 0, column: 0, length: 0, duplicated: None }
    }
}

} // verus!
