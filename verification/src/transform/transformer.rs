//! What the author of a transform stream gives for its transformer.

use vstd::prelude::*;

use crate::queuing::CallbackObject;
use crate::value::Value;

verus! {

/// The members of a transformer.
#[derive(Clone, Copy, Debug, PartialEq, Eq, Structural)]
pub struct Transformer {
    pub start: Option<CallbackObject>,
    pub transform: Option<CallbackObject>,
    pub flush: Option<CallbackObject>,
    pub cancel: Option<CallbackObject>,
    /// Whether the transformer names a kind of readable stream, of which there are none.
    pub has_readable_type: bool,
    /// Whether the transformer names a kind of writable stream, of which there are none.
    pub has_writable_type: bool,
}

/// The transformer argument of the constructor of a transform stream.
#[derive(Debug, PartialEq, Eq)]
pub enum TransformerArgument {
    Missing,
    /// A value that is not an object.
    NotObject,
    /// An object with its members, or what came of reading them: the exception that was
    /// thrown, if one was.
    Object { handle: u64, members: Result<Transformer, Option<Value>> },
}

/// A transformer without any members.
pub open spec fn empty_transformer() -> Transformer {
    Transformer {
        start: None,
        transform: None,
        flush: None,
        cancel: None,
        has_readable_type: false,
        has_writable_type: false,
    }
}

} // verus!
