//! The reader that hands out chunks as they come.

use std::collections::VecDeque;

use vstd::prelude::*;

use crate::readable::read_request::ReadRequest;
use crate::readable::readable_stream::{
    readable_world, reason_or_undefined, value_or_undefined, ReadableStream,
};
use crate::scope::{Effect, PromiseRef, Scope};
use crate::value::{Message, Value};

verus! {

/// A default reader.
pub struct DefaultReader {
    /// The reads that came before their chunks.
    pub read_requests: VecDeque<ReadRequest>,
}

/// The methods of a default reader. The stream is the one that the reader was made for;
/// `attached` tells whether it still is locked to this reader.
impl DefaultReader {
    /// Makes a default reader for a stream and locks the stream to it.
    pub fn new(scope: &mut Scope, stream: &mut ReadableStream) -> (result: Result<(), Value>)
        ensures
            (readable_world(*final(stream), *final(scope)), result) == readable_world(
                *old(stream),
                *old(scope),
            ).acquire_default_reader(),
            readable_world(*old(stream), *old(scope)).sound() ==> readable_world(
                *final(stream),
                *final(scope),
            ).sound(),
    {
        stream.set_up_readable_stream_default_reader(scope)
    }

    /// Reads a chunk; `promise` settles with the outcome.
    pub fn read(scope: &mut Scope, stream: &mut ReadableStream, attached: bool, promise: u64)
        requires
            readable_world(*old(stream), *old(scope)).wf(),
            attached ==> old(stream)@.slots.reader is Default,
        ensures
            readable_world(*final(stream), *final(scope)) == ({
                let w = readable_world(*old(stream), *old(scope));
                if attached {
                    w.read(ReadRequest::Read { promise })
                } else {
                    w.emit(
                        Effect::Reject(
                            PromiseRef::Request(promise),
                            Value::TypeError(Message::ReadWithoutStream),
                        ),
                    )
                }
            }),
            readable_world(*old(stream), *old(scope)).sound() && old(scope)@.heap.len()
                < usize::MAX ==> readable_world(
                *final(stream),
                *final(scope),
            ).sound(),
    {
        if !attached {
            scope.emit(
                Effect::Reject(
                    PromiseRef::Request(promise),
                    Value::TypeError(Message::ReadWithoutStream),
                ),
            );
            return ;
        }
        stream.readable_stream_default_reader_read(scope, ReadRequest::Read { promise });
    }

    /// Releases the stream from the reader.
    pub fn release_lock(scope: &mut Scope, stream: &mut ReadableStream, attached: bool)
        ensures
            readable_world(*final(stream), *final(scope)) == ({
                let w = readable_world(*old(stream), *old(scope));
                if attached {
                    w.release()
                } else {
                    w
                }
            }),
            readable_world(*old(stream), *old(scope)).sound() ==> readable_world(
                *final(stream),
                *final(scope),
            ).sound(),
    {
        if !attached {
            return ;
        }
        stream.readable_stream_reader_generic_release(scope);
    }

    /// Cancels the stream; `promise` settles with the outcome.
    pub fn cancel(
        scope: &mut Scope,
        stream: &mut ReadableStream,
        attached: bool,
        reason: Option<Value>,
        promise: u64,
    )
        ensures
            readable_world(*final(stream), *final(scope)) == ({
                let w = readable_world(*old(stream), *old(scope));
                if attached {
                    w.cancel(reason_or_undefined(reason), PromiseRef::Request(promise))
                } else {
                    w.emit(
                        Effect::Reject(
                            PromiseRef::Request(promise),
                            Value::TypeError(Message::CancelWithoutStream),
                        ),
                    )
                }
            }),
            readable_world(*old(stream), *old(scope)).sound() ==> readable_world(
                *final(stream),
                *final(scope),
            ).sound(),
    {
        if !attached {
            scope.emit(
                Effect::Reject(
                    PromiseRef::Request(promise),
                    Value::TypeError(Message::CancelWithoutStream),
                ),
            );
            return ;
        }
        stream.readable_stream_cancel(
            scope,
            value_or_undefined(reason),
            PromiseRef::Request(promise),
        );
    }
}

} // verus!
