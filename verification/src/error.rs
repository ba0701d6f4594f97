//! What the machine and its parts refuse.

use vstd::prelude::*;

verus! {

/// The reason an operation was refused.
#[derive(Debug, Clone, Copy, PartialEq, Eq, Structural)]
pub enum Error {
    /// A symbol that had to be one of the letters A to Z, in either case, was not.
    NonAlphabetic,
    /// A rotor position given as a number was not below the size of the alphabet.
    InvalidPosition,
}

} // verus!
