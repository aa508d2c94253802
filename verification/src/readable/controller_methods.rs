//! The methods of the controllers of readable streams, which the author's source calls.

use vstd::prelude::*;

use crate::buffer::{byte_length_of, view_length_of, ArrayBufferView};
use crate::number::Number;
use crate::readable::byob_request::ReadableStreamBYOBRequest;
use crate::readable::byte_algorithms::{
    byte_world, readable_byte_stream_controller_close, readable_byte_stream_controller_enqueue,
    readable_byte_stream_controller_error, readable_byte_stream_controller_get_desired_size,
};
use crate::readable::byte_respond::readable_byte_stream_controller_get_byob_request;
use crate::readable::byte_stream_controller::{
    byte_desired_size, view_ok, ByteWorld, ReadableByteStreamController,
};
use crate::readable::default_algorithms::{
    default_world, readable_stream_default_controller_can_close_or_enqueue,
    readable_stream_default_controller_close, readable_stream_default_controller_enqueue,
    readable_stream_default_controller_error, readable_stream_default_controller_get_desired_size,
};
use crate::readable::default_controller::{
    default_can_enqueue, default_desired_size, DefaultWorld, EnqueueStep,
    ReadableStreamDefaultController,
};
use crate::readable::readable_stream::{
    reason_or_undefined, value_or_undefined, ReadableStreamState,
};
use crate::readable::slots::StreamSlots;
use crate::scope::Scope;
use crate::value::{Message, Value};

verus! {

impl DefaultWorld {
    /// `close()`, which the state of the stream has to permit.
    pub open spec fn author_close(self) -> (DefaultWorld, Result<(), Value>) {
        if default_can_enqueue(self.slots, self.controller) {
            (self.close(), Ok(()))
        } else {
            (self, Err(Value::TypeError(Message::CloseNotPermitted)))
        }
    }

    /// `enqueue(chunk)`, which the state of the stream has to permit.
    pub open spec fn author_enqueue(self, chunk: Value) -> (
        DefaultWorld,
        Result<EnqueueStep, Value>,
    ) {
        if default_can_enqueue(self.slots, self.controller) {
            let (w, step) = self.enqueue(chunk);
            (w, Ok(step))
        } else {
            (self, Err(Value::TypeError(Message::EnqueueNotPermitted)))
        }
    }
}

impl ReadableStreamDefaultController {
    pub fn desired_size(&self, stream: &StreamSlots) -> (size: Option<Number>)
        ensures
            size == default_desired_size(stream@, self@),
    {
        readable_stream_default_controller_get_desired_size(stream, self)
    }

    pub fn close(&mut self, scope: &mut Scope, stream: &mut StreamSlots) -> (result: Result<
        (),
        Value,
    >)
        ensures
            (default_world(*final(stream), *final(self), *final(scope)), result) == default_world(
                *old(stream),
                *old(self),
                *old(scope),
            ).author_close(),
    {
        if !readable_stream_default_controller_can_close_or_enqueue(stream, self) {
            return Err(Value::TypeError(Message::CloseNotPermitted));
        }
        readable_stream_default_controller_close(scope, stream, self);
        Ok(())
    }

    /// Enqueues a chunk. Where the strategy has a size function, that is to be called next.
    pub fn enqueue(
        &mut self,
        scope: &mut Scope,
        stream: &mut StreamSlots,
        chunk: &Value,
    ) -> (result: Result<EnqueueStep, Value>)
        ensures
            (default_world(*final(stream), *final(self), *final(scope)), result) == default_world(
                *old(stream),
                *old(self),
                *old(scope),
            ).author_enqueue(*chunk),
    {
        if !readable_stream_default_controller_can_close_or_enqueue(stream, self) {
            return Err(Value::TypeError(Message::EnqueueNotPermitted));
        }
        Ok(readable_stream_default_controller_enqueue(scope, stream, self, chunk))
    }

    pub fn error(&mut self, scope: &mut Scope, stream: &mut StreamSlots, error: Option<Value>)
        ensures
            default_world(*final(stream), *final(self), *final(scope)) == default_world(
                *old(stream),
                *old(self),
                *old(scope),
            ).errored(reason_or_undefined(error)),
    {
        readable_stream_default_controller_error(scope, stream, self, value_or_undefined(error));
    }
}

impl ByteWorld {
    /// `close()`, which the state of the stream has to permit.
    pub open spec fn author_close(self) -> (ByteWorld, Result<(), Value>) {
        if self.controller.close_requested {
            (self, Err(Value::TypeError(Message::ByteCloseRequested)))
        } else if self.slots.state !is Readable {
            (self, Err(Value::TypeError(Message::ByteCloseNotReadable)))
        } else {
            self.close()
        }
    }

    /// `enqueue(chunk)` of a view that is not empty, which the state of the stream has to
    /// permit.
    pub open spec fn author_enqueue(self, chunk: Option<ArrayBufferView>) -> (
        ByteWorld,
        Result<(), Value>,
    ) {
        match chunk {
            None => (self, Err(Value::TypeError(Message::EnqueueNotView))),
            Some(view) => if view_length_of(self.scope.heap, view) == 0 {
                (self, Err(Value::TypeError(Message::EnqueueEmptyView)))
            } else if byte_length_of(self.scope.heap, view.buffer) == 0 {
                (self, Err(Value::TypeError(Message::EnqueueEmptyBuffer)))
            } else if self.controller.close_requested {
                (self, Err(Value::TypeError(Message::EnqueueCloseRequested)))
            } else if self.slots.state !is Readable {
                (self, Err(Value::TypeError(Message::EnqueueNotReadable)))
            } else {
                self.enqueue(view)
            },
        }
    }
}

impl ReadableByteStreamController {
    /// The request for the view that is next to be filled, if one is.
    pub fn byob_request(&mut self, scope: &Scope, stream: &StreamSlots) -> (request: Option<
        ReadableStreamBYOBRequest,
    >)
        requires
            byte_world(*stream, *old(self), *scope).memory_ok(),
        ensures
            byte_world(*stream, *final(self), *scope) == byte_world(
                *stream,
                *old(self),
                *scope,
            ).with_byob_request(),
            request == final(self)@.byob_request,
    {
        readable_byte_stream_controller_get_byob_request(scope, stream, self)
    }

    pub fn desired_size(&self, stream: &StreamSlots) -> (size: Option<Number>)
        ensures
            size == byte_desired_size(stream@, self@),
    {
        readable_byte_stream_controller_get_desired_size(stream, self)
    }

    pub fn close(&mut self, scope: &mut Scope, stream: &mut StreamSlots) -> (result: Result<
        (),
        Value,
    >)
        requires
            byte_world(*old(stream), *old(self), *old(scope)).memory_ok(),
        ensures
            (byte_world(*final(stream), *final(self), *final(scope)), result) == byte_world(
                *old(stream),
                *old(self),
                *old(scope),
            ).author_close(),
    {
        if self.close_requested {
            return Err(Value::TypeError(Message::ByteCloseRequested));
        }
        if stream.state != ReadableStreamState::Readable {
            return Err(Value::TypeError(Message::ByteCloseNotReadable));
        }
        readable_byte_stream_controller_close(scope, stream, self)
    }

    /// Enqueues the bytes of a view, which is missing where the argument was none.
    pub fn enqueue(
        &mut self,
        scope: &mut Scope,
        stream: &mut StreamSlots,
        chunk: Option<ArrayBufferView>,
    ) -> (result: Result<(), Value>)
        requires
            byte_world(*old(stream), *old(self), *old(scope)).wf(),
            chunk matches Some(view) ==> {
                &&& view_ok(old(scope)@.heap, view)
                &&& byte_world(*old(stream), *old(self), *old(scope)).foreign(view.buffer)
            },
        ensures
            (byte_world(*final(stream), *final(self), *final(scope)), result) == byte_world(
                *old(stream),
                *old(self),
                *old(scope),
            ).author_enqueue(chunk),
    {
        let view: ArrayBufferView = match chunk {
            Some(view) => view,
            None => {
                return Err(Value::TypeError(Message::EnqueueNotView));
            },
        };
        if scope.view_byte_length(view) == 0 {
            return Err(Value::TypeError(Message::EnqueueEmptyView));
        }
        if scope.byte_length(view.buffer) == 0 {
            return Err(Value::TypeError(Message::EnqueueEmptyBuffer));
        }
        if self.close_requested {
            return Err(Value::TypeError(Message::EnqueueCloseRequested));
        }
        if stream.state != ReadableStreamState::Readable {
            return Err(Value::TypeError(Message::EnqueueNotReadable));
        }
        readable_byte_stream_controller_enqueue(scope, stream, self, view)
    }

    pub fn error(&mut self, scope: &mut Scope, stream: &mut StreamSlots, error: Option<Value>)
        ensures
            byte_world(*final(stream), *final(self), *final(scope)) == byte_world(
                *old(stream),
                *old(self),
                *old(scope),
            ).errored(reason_or_undefined(error)),
    {
        readable_byte_stream_controller_error(scope, stream, self, value_or_undefined(error));
    }
}

} // verus!
