//! Reads by consumers outside this library.

use vstd::prelude::*;

use crate::readable::read_request::ReadRequest;
use crate::readable::readable_stream::{readable_world, ReadableStream};
use crate::scope::Scope;
use crate::value::Value;

verus! {

/// The steps of a consumer outside this library, by the handle under which the runtime
/// knows them.
#[derive(Clone, Copy, Debug, PartialEq, Eq, Structural)]
pub struct NativeReadSteps {
    pub consumer: u64,
}

/// Locks a stream to a default reader that is never handed to the author.
pub fn acquire_native_reader(scope: &mut Scope, stream: &mut ReadableStream) -> (result: Result<
    (),
    Value,
>)
    ensures
        (readable_world(*final(stream), *final(scope)), result) == readable_world(
            *old(stream),
            *old(scope),
        ).acquire_default_reader(),
{
    stream.set_up_readable_stream_default_reader(scope)
}

/// Reads one chunk with the reader of [`acquire_native_reader`]; `steps` take the outcome.
pub fn native_reader_read(scope: &mut Scope, stream: &mut ReadableStream, steps: NativeReadSteps)
    requires
        readable_world(*old(stream), *old(scope)).wf(),
        old(stream)@.slots.reader is Default,
    ensures
        readable_world(*final(stream), *final(scope)) == readable_world(
            *old(stream),
            *old(scope),
        ).read(ReadRequest::Native { consumer: steps.consumer }),
{
    stream.readable_stream_default_reader_read(
        scope,
        ReadRequest::Native { consumer: steps.consumer },
    );
}

} // verus!
