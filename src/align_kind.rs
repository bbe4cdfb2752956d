use vstd::prelude::*;

verus! {

// Indices of the aligner's columns.
pub const IDENTIFIER: usize = 0;
pub const TYPE: usize = 1;
pub const EXPRESSION: usize = 2;
pub const WIDTH: usize = 3;
pub const ARRAY: usize = 4;
pub const ASSIGNMENT: usize = 5;
pub const PARAMETER: usize = 6;
pub const DIRECTION: usize = 7;
pub const CLOCK_DOMAIN: usize = 8;
pub const NUMBER: usize = 9;

} // verus!
