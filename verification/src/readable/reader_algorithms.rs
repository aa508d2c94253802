//! The operations on a readable stream that its readers and its source share: canceling,
//! failing, reading, and locking and releasing it.

use std::collections::VecDeque;

use vstd::prelude::*;

use crate::buffer::{live, ArrayBufferView};
use crate::number::{Number, ONE};
use crate::readable::byob_reader::BYOBReader;
use crate::readable::byte_algorithms::{
    readable_byte_stream_controller_close, readable_byte_stream_controller_enqueue,
    readable_byte_stream_controller_enqueue_rest, readable_byte_stream_controller_error,
    readable_byte_stream_controller_pull_into,
};
use crate::readable::byte_flow_laws::{
    law_byte_enqueue, law_byte_enqueue_rest, law_byte_read_into, law_byte_respond,
    law_byte_respond_with_new_view,
};
use crate::readable::byte_laws::law_byte_close;
use crate::readable::byte_memory::apart;
use crate::readable::byte_queue::lemma_sum_bound;
use crate::readable::byte_respond::{
    byte_cancel_steps, byte_pull_promise_fulfilled, byte_pull_steps, byte_release_steps,
    byte_start_promise_fulfilled, readable_byte_stream_controller_respond,
    readable_byte_stream_controller_respond_with_new_view,
};
use crate::readable::byte_stream_controller::{queue_sum, view_ok};
use crate::readable::default_algorithms::{
    cancel_steps, pull_promise_fulfilled, pull_steps, readable_stream_default_controller_close,
    readable_stream_default_controller_enqueue, readable_stream_default_controller_error,
    release_steps, start_promise_fulfilled,
};
use crate::readable::default_laws::{law_default_enqueue, law_default_source};
use crate::readable::default_reader::DefaultReader;
use crate::readable::read_request::{ReadIntoRequest, ReadRequest};
use crate::readable::readable_stream::{
    readable_world, ReadableStream, ReadableStreamState, StreamController,
};
use crate::readable::slots::StreamReader;
use crate::readable::stream_laws::{law_stream_read, law_stream_sound};
use crate::readable::stream_world::ControllerModel;
use crate::scope::{Effect, PromiseRef, Scope};
use crate::value::{Message, Value};

verus! {

/// The counter of a queue has room for two more entries, however long the queue is.
pub(crate) fn learn_room(stream: &ReadableStream)
    requires
        stream@.controller matches ControllerModel::Byte(controller) && controller.total
            == queue_sum(controller.queue),
    ensures
        stream@.controller->Byte_0.total + 2 * usize::MAX <= u128::MAX,
{
    match &stream.controller {
        StreamController::Byte(controller) => {
            let length: usize = controller.queue.len();
            proof {
                lemma_sum_bound(controller@.queue);
                let most = usize::MAX as int;
                assert(length * most + 2 * most <= u128::MAX) by (nonlinear_arith)
                    requires
                        0 <= length <= most,
                        0 <= most <= 0xffff_ffff_ffff_ffff,
                ;
            }
        },
        StreamController::Default(_) => {},
    }
}

impl ReadableStream {
    /// Cancels the stream; `result` settles with the outcome.
    pub fn readable_stream_cancel(&mut self, scope: &mut Scope, reason: Value, result: PromiseRef)
        ensures
            readable_world(*final(self), *final(scope)) == readable_world(
                *old(self),
                *old(scope),
            ).cancel(reason, result),
            readable_world(*old(self), *old(scope)).sound() ==> readable_world(
                *final(self),
                *final(scope),
            ).sound(),
    {
        proof {
            if readable_world(*self, *scope).sound() {
                law_stream_sound(readable_world(*self, *scope), reason, result);
            }
        }
        self.slots.disturbed = true;
        match self.slots.state {
            ReadableStreamState::Closed => {
                scope.emit(Effect::Resolve(result, Value::Undefined));
                return ;
            },
            ReadableStreamState::Errored => {
                scope.emit(Effect::Reject(result, self.slots.stored_error.clone()));
                return ;
            },
            ReadableStreamState::Readable => {},
        }
        self.slots.readable_stream_close(scope);
        self.slots.close_read_into_requests(scope);
        match &mut self.controller {
            StreamController::Default(controller) => {
                cancel_steps(scope, &self.slots, controller, reason, result);
            },
            StreamController::Byte(controller) => {
                byte_cancel_steps(scope, &self.slots, controller, reason, result);
            },
        }
    }

    /// Fails the stream, unless it is past that.
    pub fn readable_stream_error(&mut self, scope: &mut Scope, error: Value)
        ensures
            readable_world(*final(self), *final(scope)) == readable_world(
                *old(self),
                *old(scope),
            ).errored(error),
            readable_world(*old(self), *old(scope)).sound() ==> readable_world(
                *final(self),
                *final(scope),
            ).sound(),
    {
        proof {
            if readable_world(*self, *scope).sound() {
                law_stream_sound(readable_world(*self, *scope), error, PromiseRef::Request(0));
            }
        }
        match &mut self.controller {
            StreamController::Default(controller) => {
                readable_stream_default_controller_error(
                    scope,
                    &mut self.slots,
                    controller,
                    error,
                );
            },
            StreamController::Byte(controller) => {
                readable_byte_stream_controller_error(scope, &mut self.slots, controller, error);
            },
        }
    }

    /// Enqueues a chunk into a stream of values that counts its chunks.
    pub fn enqueue_chunk(&mut self, scope: &mut Scope, chunk: &Value)
        requires
            old(self)@.counts_chunks(),
        ensures
            readable_world(*final(self), *final(scope)) == readable_world(
                *old(self),
                *old(scope),
            ).enqueue_chunk(*chunk),
            readable_world(*old(self), *old(scope)).sound() ==> readable_world(
                *final(self),
                *final(scope),
            ).sound(),
    {
        let ghost w = readable_world(*self, *scope);
        proof {
            if w.sound() {
                law_default_enqueue(w.as_default(), *chunk, Ok(Number { bits: ONE }));
            }
        }
        match &mut self.controller {
            StreamController::Default(controller) => {
                let _ = readable_stream_default_controller_enqueue(
                    scope,
                    &mut self.slots,
                    controller,
                    chunk,
                );
            },
            StreamController::Byte(_) => {},
        }
    }

    /// Closes a stream of values by its controller.
    pub fn close_values(&mut self, scope: &mut Scope)
        requires
            old(self)@.controller is Default,
        ensures
            readable_world(*final(self), *final(scope)) == readable_world(
                *old(self),
                *old(scope),
            ).close_values(),
            readable_world(*old(self), *old(scope)).sound() ==> readable_world(
                *final(self),
                *final(scope),
            ).sound(),
    {
        proof {
            if readable_world(*self, *scope).sound() {
                law_default_source(readable_world(*self, *scope).as_default(), Value::Undefined);
            }
        }
        match &mut self.controller {
            StreamController::Default(controller) => {
                readable_stream_default_controller_close(scope, &mut self.slots, controller);
            },
            StreamController::Byte(_) => {},
        }
    }

    /// Enqueues a chunk into a byte stream.
    pub fn enqueue_bytes(&mut self, scope: &mut Scope, view: ArrayBufferView) -> (result: Result<
        (),
        Value,
    >)
        requires
            old(self)@.controller is Byte,
            readable_world(*old(self), *old(scope)).wf(),
            readable_world(*old(self), *old(scope)).as_byte().foreign(view.buffer),
            view_ok(old(scope)@.heap, view),
            view.byte_length > 0,
        ensures
            (readable_world(*final(self), *final(scope)), result) == readable_world(
                *old(self),
                *old(scope),
            ).enqueue_bytes(view),
            ({
                let w = readable_world(*old(self), *old(scope));
                &&& w.sound()
                &&& !w.as_byte().leftover_before_default()
                &&& w.scope.heap.len() + 3 <= usize::MAX
            }) ==> readable_world(*final(self), *final(scope)).sound(),
    {
        learn_room(self);
        let _: usize = scope.byte_length(view.buffer);
        proof {
            let w = readable_world(*self, *scope);
            if w.sound() && !w.as_byte().leftover_before_default() && w.scope.heap.len() + 3
                <= usize::MAX && live(w.scope.heap, view.buffer) {
                law_byte_enqueue(w.as_byte(), view);
            }
        }
        match &mut self.controller {
            StreamController::Default(_) => Ok(()),
            StreamController::Byte(controller) => readable_byte_stream_controller_enqueue(
                scope,
                &mut self.slots,
                controller,
                view,
            ),
        }
    }

    /// Goes on with a chunk for a byte stream that was left for later: bytes that an earlier
    /// reader left came to a waiting read first.
    pub fn enqueue_rest(&mut self, scope: &mut Scope, chunk: ArrayBufferView)
        requires
            old(self)@.controller matches ControllerModel::Byte(controller)
                && controller.byob_request is None,
            readable_world(*old(self), *old(scope)).wf(),
            old(self)@.slots.reader is Default,
            apart(readable_world(*old(self), *old(scope)).as_byte(), chunk.buffer),
            live(old(scope)@.heap, chunk.buffer),
            view_ok(old(scope)@.heap, chunk),
            chunk.byte_length > 0,
        ensures
            readable_world(*final(self), *final(scope)) == readable_world(
                *old(self),
                *old(scope),
            ).enqueue_rest(chunk),
            ({
                let w = readable_world(*old(self), *old(scope)).as_byte();
                &&& w.sound()
                &&& w.slots.state is Readable
                &&& w.controller.pending.len() > 0
                    ==> w.controller.pending[0].reader_type is Default
            }) ==> readable_world(*final(self), *final(scope)).sound(),
    {
        learn_room(self);
        let _: usize = scope.byte_length(chunk.buffer);
        proof {
            let w = readable_world(*self, *scope).as_byte();
            if w.sound() && w.slots.state is Readable && (w.controller.pending.len() > 0
                ==> w.controller.pending[0].reader_type is Default) {
                law_byte_enqueue_rest(w, chunk);
            }
        }
        match &mut self.controller {
            StreamController::Default(_) => {},
            StreamController::Byte(controller) => {
                readable_byte_stream_controller_enqueue_rest(
                    scope,
                    &mut self.slots,
                    controller,
                    chunk,
                );
            },
        }
    }

    /// Closes a byte stream by its controller.
    pub fn close_bytes(&mut self, scope: &mut Scope) -> (result: Result<(), Value>)
        requires
            old(self)@.controller is Byte,
            readable_world(*old(self), *old(scope)).wf(),
        ensures
            (readable_world(*final(self), *final(scope)), result) == readable_world(
                *old(self),
                *old(scope),
            ).close_bytes(),
            readable_world(*old(self), *old(scope)).sound() ==> readable_world(
                *final(self),
                *final(scope),
            ).sound(),
    {
        proof {
            if readable_world(*self, *scope).sound() {
                law_byte_close(readable_world(*self, *scope).as_byte());
            }
        }
        match &mut self.controller {
            StreamController::Default(_) => Ok(()),
            StreamController::Byte(controller) => readable_byte_stream_controller_close(
                scope,
                &mut self.slots,
                controller,
            ),
        }
    }

    /// Takes the answer of a byte source that it wrote `count` bytes.
    pub fn respond_bytes(&mut self, scope: &mut Scope, count: u64) -> (result: Result<(), Value>)
        requires
            old(self)@.controller is Byte,
            readable_world(*old(self), *old(scope)).as_byte().sound(),
            old(self)@.controller->Byte_0.pending.len() > 0,
        ensures
            (readable_world(*final(self), *final(scope)), result) == readable_world(
                *old(self),
                *old(scope),
            ).respond_bytes(count),
            readable_world(*old(self), *old(scope)).sound() && old(scope)@.heap.len() + 2
                <= usize::MAX ==> readable_world(
                *final(self),
                *final(scope),
            ).sound(),
    {
        proof {
            let w = readable_world(*self, *scope);
            if w.sound() && w.scope.heap.len() + 2 <= usize::MAX {
                law_byte_respond(w.as_byte(), count);
            }
        }
        match &mut self.controller {
            StreamController::Default(_) => Ok(()),
            StreamController::Byte(controller) => readable_byte_stream_controller_respond(
                scope,
                &mut self.slots,
                controller,
                count,
            ),
        }
    }

    /// Takes the answer of a byte source with a view onto what it wrote.
    pub fn respond_with_view(&mut self, scope: &mut Scope, view: ArrayBufferView) -> (result:
        Result<(), Value>)
        requires
            old(self)@.controller is Byte,
            readable_world(*old(self), *old(scope)).as_byte().sound(),
            old(self)@.controller->Byte_0.pending.len() > 0,
            readable_world(*old(self), *old(scope)).as_byte().foreign(view.buffer),
            live(old(scope)@.heap, view.buffer),
            view_ok(old(scope)@.heap, view),
        ensures
            (readable_world(*final(self), *final(scope)), result) == readable_world(
                *old(self),
                *old(scope),
            ).respond_with_view(view),
            readable_world(*old(self), *old(scope)).sound() && old(scope)@.heap.len() + 2
                <= usize::MAX ==> readable_world(
                *final(self),
                *final(scope),
            ).sound(),
    {
        proof {
            let w = readable_world(*self, *scope);
            if w.sound() && w.scope.heap.len() + 2 <= usize::MAX {
                law_byte_respond_with_new_view(w.as_byte(), view);
            }
        }
        match &mut self.controller {
            StreamController::Default(_) => Ok(()),
            StreamController::Byte(controller) =>
                readable_byte_stream_controller_respond_with_new_view(
                scope,
                &mut self.slots,
                controller,
                view,
            ),
        }
    }

    /// Whether a byte source is being asked to fill a region.
    pub fn has_pending_pull_into(&self) -> (has: bool)
        ensures
            has == (self@.controller matches ControllerModel::Byte(controller)
                && controller.pending.len() > 0),
    {
        match &self.controller {
            StreamController::Default(_) => false,
            StreamController::Byte(controller) => controller.pending_pull_intos.len() > 0,
        }
    }

    /// Reads a chunk for the default reader of the stream.
    pub fn readable_stream_default_reader_read(&mut self, scope: &mut Scope, request: ReadRequest)
        requires
            readable_world(*old(self), *old(scope)).wf(),
            old(self)@.slots.reader is Default,
        ensures
            readable_world(*final(self), *final(scope)) == readable_world(
                *old(self),
                *old(scope),
            ).read(request),
            readable_world(*old(self), *old(scope)).sound() && old(scope)@.heap.len()
                < usize::MAX ==> readable_world(
                *final(self),
                *final(scope),
            ).sound(),
    {
        proof {
            let w = readable_world(*self, *scope);
            if w.sound() && w.scope.heap.len() < usize::MAX {
                law_stream_read(w, request);
            }
        }
        self.slots.disturbed = true;
        match self.slots.state {
            ReadableStreamState::Closed => {
                request.close_steps(scope);
            },
            ReadableStreamState::Errored => {
                request.error_steps(scope, self.slots.stored_error.clone());
            },
            ReadableStreamState::Readable => {
                match &mut self.controller {
                    StreamController::Default(controller) => {
                        pull_steps(scope, &mut self.slots, controller, request);
                    },
                    StreamController::Byte(controller) => {
                        byte_pull_steps(scope, &mut self.slots, controller, request);
                    },
                }
            },
        }
    }

    /// Reads into a view for the BYOB reader of the stream.
    pub fn readable_stream_byob_reader_read(
        &mut self,
        scope: &mut Scope,
        view: ArrayBufferView,
        min: usize,
        request: ReadIntoRequest,
    )
        requires
            readable_world(*old(self), *old(scope)).wf(),
            old(self)@.slots.reader is Byob,
            readable_world(*old(self), *old(scope)).as_byte().foreign(view.buffer),
            view_ok(old(scope)@.heap, view),
            min > 0,
            min * view.kind.size() <= view.byte_length,
        ensures
            readable_world(*final(self), *final(scope)) == readable_world(
                *old(self),
                *old(scope),
            ).read_into(view, min, request),
            readable_world(*old(self), *old(scope)).sound() && old(scope)@.heap.len() + 2
                <= usize::MAX ==> readable_world(
                *final(self),
                *final(scope),
            ).sound(),
    {
        let _: usize = scope.byte_length(view.buffer);
        proof {
            let w = readable_world(*self, *scope);
            if w.sound() && w.scope.heap.len() + 2 <= usize::MAX {
                law_byte_read_into(w, view, min, request);
            }
        }
        self.slots.disturbed = true;
        match self.slots.state {
            ReadableStreamState::Errored => {
                request.error_steps(scope, self.slots.stored_error.clone());
                return ;
            },
            _ => {},
        }
        match &mut self.controller {
            StreamController::Default(_) => {},
            StreamController::Byte(controller) => {
                readable_byte_stream_controller_pull_into(
                    scope,
                    &mut self.slots,
                    controller,
                    view,
                    min,
                    request,
                );
            },
        }
    }

    /// Releases the stream from its reader.
    pub fn readable_stream_reader_generic_release(&mut self, scope: &mut Scope)
        ensures
            readable_world(*final(self), *final(scope)) == readable_world(
                *old(self),
                *old(scope),
            ).release(),
            readable_world(*old(self), *old(scope)).sound() ==> readable_world(
                *final(self),
                *final(scope),
            ).sound(),
    {
        proof {
            if readable_world(*self, *scope).sound() {
                law_stream_sound(
                    readable_world(*self, *scope),
                    Value::Undefined,
                    PromiseRef::Request(0),
                );
            }
        }
        self.slots.reject_released_closed_promise(scope);
        match &mut self.controller {
            StreamController::Default(controller) => {
                release_steps(controller);
            },
            StreamController::Byte(controller) => {
                byte_release_steps(controller);
            },
        }
        self.slots.unlock_and_error_requests(scope);
    }

    /// Locks the stream to a new default reader.
    pub fn set_up_readable_stream_default_reader(&mut self, scope: &mut Scope) -> (result: Result<
        (),
        Value,
    >)
        ensures
            (readable_world(*final(self), *final(scope)), result) == readable_world(
                *old(self),
                *old(scope),
            ).acquire_default_reader(),
            readable_world(*old(self), *old(scope)).sound() ==> readable_world(
                *final(self),
                *final(scope),
            ).sound(),
    {
        proof {
            if readable_world(*self, *scope).sound() {
                law_stream_sound(
                    readable_world(*self, *scope),
                    Value::Undefined,
                    PromiseRef::Request(0),
                );
            }
        }
        if self.slots.is_locked() {
            return Err(Value::TypeError(Message::ReaderLocked));
        }
        let read_requests: VecDeque<ReadRequest> = VecDeque::new();
        self.slots.readable_stream_reader_generic_initialize(
            scope,
            StreamReader::Default(DefaultReader { read_requests }),
        );
        Ok(())
    }

    /// Locks the stream to a new BYOB reader.
    pub fn set_up_readable_stream_byob_reader(&mut self, scope: &mut Scope) -> (result: Result<
        (),
        Value,
    >)
        ensures
            (readable_world(*final(self), *final(scope)), result) == readable_world(
                *old(self),
                *old(scope),
            ).acquire_byob_reader(),
            readable_world(*old(self), *old(scope)).sound() ==> readable_world(
                *final(self),
                *final(scope),
            ).sound(),
    {
        proof {
            if readable_world(*self, *scope).sound() {
                law_stream_sound(
                    readable_world(*self, *scope),
                    Value::Undefined,
                    PromiseRef::Request(0),
                );
            }
        }
        if self.slots.is_locked() {
            return Err(Value::TypeError(Message::ReaderLocked));
        }
        match &self.controller {
            StreamController::Default(_) => {
                return Err(Value::TypeError(Message::ByobOnNonByteStream));
            },
            StreamController::Byte(_) => {},
        }
        let read_into_requests: VecDeque<ReadIntoRequest> = VecDeque::new();
        self.slots.readable_stream_reader_generic_initialize(
            scope,
            StreamReader::Byob(BYOBReader { read_into_requests }),
        );
        Ok(())
    }

    /// Takes note that the source has started.
    pub fn start_promise_fulfilled(&mut self, scope: &mut Scope)
        ensures
            readable_world(*final(self), *final(scope)) == readable_world(
                *old(self),
                *old(scope),
            ).start_fulfilled(),
            readable_world(*old(self), *old(scope)).sound() ==> readable_world(
                *final(self),
                *final(scope),
            ).sound(),
    {
        proof {
            if readable_world(*self, *scope).sound() {
                law_stream_sound(
                    readable_world(*self, *scope),
                    Value::Undefined,
                    PromiseRef::Request(0),
                );
            }
        }
        match &mut self.controller {
            StreamController::Default(controller) => {
                start_promise_fulfilled(scope, &self.slots, controller);
            },
            StreamController::Byte(controller) => {
                byte_start_promise_fulfilled(scope, &self.slots, controller);
            },
        }
    }

    /// Takes note that a pull has come to its end.
    pub fn pull_promise_fulfilled(&mut self, scope: &mut Scope)
        ensures
            readable_world(*final(self), *final(scope)) == readable_world(
                *old(self),
                *old(scope),
            ).pull_fulfilled(),
            readable_world(*old(self), *old(scope)).sound() ==> readable_world(
                *final(self),
                *final(scope),
            ).sound(),
    {
        proof {
            if readable_world(*self, *scope).sound() {
                law_stream_sound(
                    readable_world(*self, *scope),
                    Value::Undefined,
                    PromiseRef::Request(0),
                );
            }
        }
        match &mut self.controller {
            StreamController::Default(controller) => {
                pull_promise_fulfilled(scope, &self.slots, controller);
            },
            StreamController::Byte(controller) => {
                byte_pull_promise_fulfilled(scope, &self.slots, controller);
            },
        }
    }
}

} // verus!
