//! What the author of a writable stream gives for its sink.

use vstd::prelude::*;

use crate::queuing::CallbackObject;
use crate::value::Value;

verus! {

/// The members of an underlying sink.
#[derive(Clone, Copy, Debug, PartialEq, Eq, Structural)]
pub struct UnderlyingSink {
    pub start: Option<CallbackObject>,
    pub write: Option<CallbackObject>,
    pub close: Option<CallbackObject>,
    pub abort: Option<CallbackObject>,
    /// Whether the sink names a kind of stream, of which there are none.
    pub has_kind: bool,
}

/// The sink argument of the constructor of a writable stream.
#[derive(Debug, PartialEq, Eq)]
pub enum SinkArgument {
    Missing,
    /// A value that is not an object.
    NotObject,
    /// An object with its members, or what came of reading them: the exception that was
    /// thrown, if one was.
    Object { handle: u64, members: Result<UnderlyingSink, Option<Value>> },
}

/// A sink without any members.
pub open spec fn empty_sink() -> UnderlyingSink {
    UnderlyingSink { start: None, write: None, close: None, abort: None, has_kind: false }
}

} // verus!
