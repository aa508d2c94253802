//! The results of reads.

use vstd::prelude::*;

use crate::value::Value;

verus! {

/// What a read resolves to.
#[derive(Debug, PartialEq, Eq)]
pub struct ReadResult {
    pub value: Option<Value>,
    pub done: Option<bool>,
}

} // verus!
