//! The two ends of a transform, as a pipe is given them.

use vstd::prelude::*;

verus! {

/// A readable and a writable stream, by their names in effects: what is written to the one
/// is meant to come out of the other.
#[derive(Clone, Copy, Debug, PartialEq, Eq, Structural)]
pub struct ReadableWritablePair {
    pub readable: u64,
    pub writable: u64,
}

} // verus!
