//! What the author of a stream gives for its source.

use vstd::prelude::*;

use crate::number::Number;
use crate::queuing::CallbackObject;
use crate::readable::options::ReadableStreamType;
use crate::value::Value;

verus! {

/// The members of an underlying source.
#[derive(Clone, Copy, Debug, PartialEq, Eq, Structural)]
pub struct UnderlyingSource {
    pub start: Option<CallbackObject>,
    pub pull: Option<CallbackObject>,
    pub cancel: Option<CallbackObject>,
    /// The kind of the stream.
    pub kind: Option<ReadableStreamType>,
    pub auto_allocate_chunk_size: Option<Number>,
}

/// The source argument of the constructor of a readable stream.
#[derive(Debug, PartialEq, Eq)]
pub enum SourceArgument {
    Missing,
    /// A value that is not an object.
    NotObject,
    /// An object with its members, or what came of reading them: the exception that was
    /// thrown, if one was.
    Object { handle: u64, members: Result<UnderlyingSource, Option<Value>> },
}

/// A source without any members.
pub open spec fn empty_source() -> UnderlyingSource {
    UnderlyingSource {
        start: None,
        pull: None,
        cancel: None,
        kind: None,
        auto_allocate_chunk_size: None,
    }
}

} // verus!
