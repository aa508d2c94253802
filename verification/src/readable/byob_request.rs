//! The request by which an underlying byte source fills the view of a reader.

use vstd::prelude::*;

use crate::buffer::{live, ArrayBufferView};
use crate::number::Number;
use crate::readable::byte_algorithms::byte_world;
use crate::readable::byte_respond::{
    readable_byte_stream_controller_respond,
    readable_byte_stream_controller_respond_with_new_view,
};
use crate::readable::byte_stream_controller::{view_ok, ByteWorld, ReadableByteStreamController};
use crate::readable::slots::StreamSlots;
use crate::scope::Scope;
use crate::value::{Message, Value};

verus! {

/// A pull request for the view of a BYOB reader.
#[derive(Clone, Copy, Debug, PartialEq, Eq, Structural)]
pub struct ReadableStreamBYOBRequest {
    /// The stream whose controller made the request, until it is invalidated.
    pub controller: Option<u64>,
    /// The region that is to be filled, until the request is invalidated.
    pub view: Option<ArrayBufferView>,
}

impl ByteWorld {
    /// The answer of a source through a BYOB request that it wrote `count` bytes.
    pub open spec fn request_respond(
        self,
        request: ReadableStreamBYOBRequest,
        count: Number,
    ) -> (ByteWorld, Result<(), Value>) {
        if !count.in_range() {
            (self, Err(Value::TypeError(Message::RespondOutOfRange)))
        } else if request.controller is None {
            (self, Err(Value::TypeError(Message::RespondInvalidated)))
        } else if !live(self.scope.heap, request.view->0.buffer) {
            (self, Err(Value::TypeError(Message::RespondDetached)))
        } else {
            self.respond(count.whole())
        }
    }

    /// The answer of a source through a BYOB request with a view onto what it wrote.
    pub open spec fn request_respond_with_new_view(
        self,
        request: ReadableStreamBYOBRequest,
        view: Option<ArrayBufferView>,
    ) -> (ByteWorld, Result<(), Value>) {
        match view {
            None => (self, Err(Value::TypeError(Message::RespondNewViewNotView))),
            Some(view) => if request.controller is None {
                (self, Err(Value::TypeError(Message::RespondNewViewInvalidated)))
            } else if !live(self.scope.heap, view.buffer) {
                (self, Err(Value::TypeError(Message::RespondNewViewDetached)))
            } else {
                self.respond_with_new_view(view)
            },
        }
    }
}

impl ReadableStreamBYOBRequest {
    /// The region that is to be filled, until the request is invalidated.
    pub fn view(&self) -> (view: Option<ArrayBufferView>)
        ensures
            view == self.view,
    {
        self.view
    }

    /// Takes the answer that the source wrote `bytes_written` bytes into the view. A request
    /// that is still valid is the current one of its controller.
    pub fn respond(
        &self,
        scope: &mut Scope,
        stream: &mut StreamSlots,
        controller: &mut ReadableByteStreamController,
        bytes_written: Number,
    ) -> (result: Result<(), Value>)
        requires
            byte_world(*old(stream), *old(controller), *old(scope)).wf(),
            byte_world(*old(stream), *old(controller), *old(scope)).allocations_awaited(),
            self.controller is Some ==> {
                &&& old(controller)@.byob_request == Some(*self)
                &&& self.view is Some
            },
        ensures
            (byte_world(*final(stream), *final(controller), *final(scope)), result) == byte_world(
                *old(stream),
                *old(controller),
                *old(scope),
            ).request_respond(*self, bytes_written),
    {
        if !bytes_written.is_in_range() {
            return Err(Value::TypeError(Message::RespondOutOfRange));
        }
        let count: u64 = bytes_written.to_count();
        if self.controller.is_none() {
            return Err(Value::TypeError(Message::RespondInvalidated));
        }
        match self.view {
            Some(view) => {
                if scope.is_detached(view.buffer) {
                    return Err(Value::TypeError(Message::RespondDetached));
                }
            },
            None => {},
        }
        readable_byte_stream_controller_respond(scope, stream, controller, count)
    }

    /// Takes the answer that the source wrote into `view`, which is missing where the
    /// argument was none.
    pub fn respond_with_new_view(
        &self,
        scope: &mut Scope,
        stream: &mut StreamSlots,
        controller: &mut ReadableByteStreamController,
        view: Option<ArrayBufferView>,
    ) -> (result: Result<(), Value>)
        requires
            byte_world(*old(stream), *old(controller), *old(scope)).wf(),
            byte_world(*old(stream), *old(controller), *old(scope)).allocations_awaited(),
            self.controller is Some ==> old(controller)@.byob_request == Some(*self),
            view matches Some(view) ==> {
                &&& view_ok(old(scope)@.heap, view)
                &&& byte_world(*old(stream), *old(controller), *old(scope)).foreign(view.buffer)
            },
        ensures
            (byte_world(*final(stream), *final(controller), *final(scope)), result) == byte_world(
                *old(stream),
                *old(controller),
                *old(scope),
            ).request_respond_with_new_view(*self, view),
    {
        let view: ArrayBufferView = match view {
            Some(view) => view,
            None => {
                return Err(Value::TypeError(Message::RespondNewViewNotView));
            },
        };
        if self.controller.is_none() {
            return Err(Value::TypeError(Message::RespondNewViewInvalidated));
        }
        if scope.is_detached(view.buffer) {
            return Err(Value::TypeError(Message::RespondNewViewDetached));
        }
        readable_byte_stream_controller_respond_with_new_view(scope, stream, controller, view)
    }
}

} // verus!
