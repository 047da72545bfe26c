//! Errors reported when a byte slice cannot be read as `u16` values.

use vstd::prelude::*;
use vstd::string::StringExecFns;

verus! {

/// The byte length of the slice was not a multiple of two.
#[derive(Debug, Clone, Copy, PartialEq, Eq, Structural)]
pub struct BadByteLength;

impl BadByteLength {
    /// What the error says of itself.
    pub fn to_string(&self) -> (text: String)
        ensures
            text@ == "byte length must be a multiple of two"@,
    {
        String::from_str("byte length must be a multiple of two")
    }
}

/// The slice was not correctly aligned for `u16` access.
#[derive(Debug, Clone, Copy, PartialEq, Eq, Structural)]
pub struct AlignmentError;

impl AlignmentError {
    /// What the error says of itself.
    pub fn to_string(&self) -> (text: String)
        ensures
            text@ == "slice is not correctly aligned"@,
    {
        String::from_str("slice is not correctly aligned")
    }
}

} // verus!
