//! How an underlying byte source answers a BYOB request, and the other steps that a byte
//! stream's controller contributes to its stream.

use vstd::prelude::*;

use crate::buffer::{live, transferred, ArrayBufferView, ViewKind};
use crate::readable::byob_request::ReadableStreamBYOBRequest;
use crate::readable::byte_algorithms::{
    byte_world, readable_byte_stream_controller_call_pull_if_needed,
    readable_byte_stream_controller_clear_algorithms,
    readable_byte_stream_controller_clear_pending_pull_intos,
    readable_byte_stream_controller_error,
    readable_byte_stream_controller_fill_read_request_from_queue,
    readable_byte_stream_controller_invalidate_byob_request,
    readable_byte_stream_controller_respond_in_closed_state,
    readable_byte_stream_controller_respond_in_readable_state,
    readable_byte_stream_controller_shift_pending_pull_into, reset_byte_queue,
};
use crate::readable::byte_memory::lemma_move_head;
use crate::readable::byte_queue::lemma_sum_zero;
use crate::readable::byte_stream_controller::{
    descriptor_ok, view_ok, PullIntoDescriptor, ReadableByteStreamController, ReaderType,
};
use crate::readable::read_request::ReadRequest;
use crate::readable::readable_stream::ReadableStreamState;
use crate::readable::slots::StreamSlots;
use crate::scope::{Call, Effect, PromiseRef, Scope};
use crate::value::{Message, Value};

verus! {

/// Takes an answer of the source that has passed the checks.
pub fn readable_byte_stream_controller_respond_internal(
    scope: &mut Scope,
    stream: &mut StreamSlots,
    controller: &mut ReadableByteStreamController,
    bytes_written: usize,
) -> (result: Result<(), Value>)
    requires
        byte_world(*old(stream), *old(controller), *old(scope)).memory_ok(),
        byte_world(*old(stream), *old(controller), *old(scope)).kinds_ok(),
        byte_world(*old(stream), *old(controller), *old(scope)).counts_ok(),
        byte_world(*old(stream), *old(controller), *old(scope)).allocations_awaited(),
        old(stream)@.state !is Errored,
        old(controller)@.pending.len() > 0,
        live(old(scope)@.heap, old(controller)@.pending[0].buffer),
        old(stream)@.state is Readable ==> {
            &&& bytes_written > 0
            &&& old(controller)@.pending[0].bytes_filled + bytes_written <= old(
                controller,
            )@.pending[0].byte_length
        },
    ensures
        (byte_world(*final(stream), *final(controller), *final(scope)), result) == byte_world(
            *old(stream),
            *old(controller),
            *old(scope),
        ).respond_internal(bytes_written),
{
    readable_byte_stream_controller_invalidate_byob_request(scope, stream, controller);
    if stream.state == ReadableStreamState::Closed {
        readable_byte_stream_controller_respond_in_closed_state(scope, stream, controller);
    } else {
        match readable_byte_stream_controller_respond_in_readable_state(
            scope,
            stream,
            controller,
            bytes_written,
        ) {
            Ok(()) => {},
            Err(error) => {
                return Err(error);
            },
        }
    }
    readable_byte_stream_controller_call_pull_if_needed(scope, stream, controller);
    Ok(())
}

/// Gives the first descriptor the buffer at `buffer`.
fn replace_first_buffer(controller: &mut ReadableByteStreamController, buffer: usize)
    requires
        old(controller)@.pending.len() > 0,
    ensures
        final(controller)@ == old(controller)@.with_head(
            (PullIntoDescriptor { buffer, ..old(controller)@.pending[0] }),
        ),
{
    let mut head: PullIntoDescriptor = readable_byte_stream_controller_shift_pending_pull_into(
        controller,
    );
    head.buffer = buffer;
    controller.pending_pull_intos.push_front(head);
    assert(controller@.pending =~= old(controller)@.pending.update(0, head));
}

/// Takes the answer that the source wrote `bytes_written` bytes into the first
/// descriptor.
pub fn readable_byte_stream_controller_respond(
    scope: &mut Scope,
    stream: &mut StreamSlots,
    controller: &mut ReadableByteStreamController,
    bytes_written: u64,
) -> (result: Result<(), Value>)
    requires
        byte_world(*old(stream), *old(controller), *old(scope)).wf(),
        byte_world(*old(stream), *old(controller), *old(scope)).allocations_awaited(),
        old(controller)@.pending.len() > 0,
    ensures
        (byte_world(*final(stream), *final(controller), *final(scope)), result) == byte_world(
            *old(stream),
            *old(controller),
            *old(scope),
        ).respond(bytes_written),
{
    let ghost start = byte_world(*stream, *controller, *scope);
    let first: PullIntoDescriptor = controller.pending_pull_intos[0];
    assert(descriptor_ok(scope@.heap, controller@.pending[0]));
    if stream.state == ReadableStreamState::Closed {
        if bytes_written != 0 {
            return Err(Value::TypeError(Message::BytesWrittenNonZeroClosed));
        }
    } else {
        if bytes_written == 0 {
            return Err(Value::TypeError(Message::BytesWrittenZeroReadable));
        }
        if bytes_written > (first.byte_length - first.bytes_filled) as u64 {
            return Err(Value::RangeError(Message::BytesWrittenTooLarge));
        }
    }
    let transferred: usize = match scope.transfer(first.buffer) {
        Ok(buffer) => buffer,
        Err(error) => {
            return Err(error);
        },
    };
    replace_first_buffer(controller, transferred);
    proof {
        lemma_move_head(start, first.buffer);
        assert(byte_world(*stream, *controller, *scope) =~= start.move_head(first.buffer));
    }
    readable_byte_stream_controller_respond_internal(
        scope,
        stream,
        controller,
        bytes_written as usize,
    )
}

/// Takes the answer that the source wrote into `view`, which stands for the rest of the
/// first descriptor.
pub fn readable_byte_stream_controller_respond_with_new_view(
    scope: &mut Scope,
    stream: &mut StreamSlots,
    controller: &mut ReadableByteStreamController,
    view: ArrayBufferView,
) -> (result: Result<(), Value>)
    requires
        byte_world(*old(stream), *old(controller), *old(scope)).wf(),
        byte_world(*old(stream), *old(controller), *old(scope)).allocations_awaited(),
        byte_world(*old(stream), *old(controller), *old(scope)).foreign(view.buffer)
            || view.buffer == old(controller)@.pending[0].buffer,
        old(controller)@.pending.len() > 0,
        live(old(scope)@.heap, view.buffer),
        view_ok(old(scope)@.heap, view),
    ensures
        (byte_world(*final(stream), *final(controller), *final(scope)), result) == byte_world(
            *old(stream),
            *old(controller),
            *old(scope),
        ).respond_with_new_view(view),
{
    let ghost start = byte_world(*stream, *controller, *scope);
    let first: PullIntoDescriptor = controller.pending_pull_intos[0];
    assert(descriptor_ok(scope@.heap, controller@.pending[0]));
    let buffer_length: usize = scope.byte_length(view.buffer);
    if stream.state == ReadableStreamState::Closed {
        if view.byte_length != 0 {
            return Err(Value::TypeError(Message::ViewNonEmptyClosed));
        }
    } else {
        if view.byte_length == 0 {
            return Err(Value::TypeError(Message::ViewEmptyReadable));
        }
    }
    if first.byte_offset + first.bytes_filled != view.byte_offset {
        return Err(Value::RangeError(Message::ViewOffsetMismatch));
    }
    if first.buffer_byte_length != buffer_length {
        return Err(Value::RangeError(Message::ViewBufferLengthMismatch));
    }
    if first.bytes_filled + view.byte_length > first.byte_length {
        return Err(Value::RangeError(Message::ViewTooLong));
    }
    let transferred: usize = match scope.transfer(view.buffer) {
        Ok(buffer) => buffer,
        Err(error) => {
            return Err(error);
        },
    };
    replace_first_buffer(controller, transferred);
    proof {
        lemma_move_head(start, view.buffer);
        assert(byte_world(*stream, *controller, *scope) =~= start.move_head(view.buffer));
    }
    readable_byte_stream_controller_respond_internal(scope, stream, controller, view.byte_length)
}

/// What the controller does when its stream is canceled.
pub fn byte_cancel_steps(
    scope: &mut Scope,
    stream: &StreamSlots,
    controller: &mut ReadableByteStreamController,
    reason: Value,
    result: PromiseRef,
)
    ensures
        byte_world(*stream, *final(controller), *final(scope)) == byte_world(
            *stream,
            *old(controller),
            *old(scope),
        ).cancel_steps(reason, result),
{
    readable_byte_stream_controller_clear_pending_pull_intos(scope, stream, controller);
    reset_byte_queue(controller);
    scope.emit(
        Effect::Invoke {
            call: Call::ReadableCancel { stream: stream.id, reason, result },
            algorithm: controller.cancel_algorithm,
            receiver: controller.algorithm_receiver.clone(),
        },
    );
    readable_byte_stream_controller_clear_algorithms(controller);
}

/// What the controller does for a read by a default reader.
pub fn byte_pull_steps(
    scope: &mut Scope,
    stream: &mut StreamSlots,
    controller: &mut ReadableByteStreamController,
    request: ReadRequest,
)
    requires
        byte_world(*old(stream), *old(controller), *old(scope)).memory_ok(),
        old(stream)@.state is Readable,
        old(stream)@.reader is Default,
    ensures
        byte_world(*final(stream), *final(controller), *final(scope)) == byte_world(
            *old(stream),
            *old(controller),
            *old(scope),
        ).pull_steps(request),
{
    if controller.queue_total_size > 0 {
        proof {
            lemma_sum_zero(scope@.heap, controller@.queue);
        }
        readable_byte_stream_controller_fill_read_request_from_queue(
            scope,
            stream,
            controller,
            request,
        );
        return ;
    }
    match controller.auto_allocate_chunk_size {
        Some(size) => {
            let buffer: usize = match scope.allocate(size) {
                Ok(buffer) => buffer,
                Err(error) => {
                    request.error_steps(scope, error);
                    return ;
                },
            };
            controller.pending_pull_intos.push_back(
                PullIntoDescriptor {
                    buffer,
                    buffer_byte_length: size,
                    byte_offset: 0,
                    byte_length: size,
                    bytes_filled: 0,
                    minimum_fill: 1,
                    element_size: 1,
                    view_kind: ViewKind::Uint8,
                    reader_type: ReaderType::Default,
                },
            );
        },
        None => {},
    }
    stream.add_read_request(request);
    readable_byte_stream_controller_call_pull_if_needed(scope, stream, controller);
}

/// What the controller does when the reader of its stream is released.
pub fn byte_release_steps(controller: &mut ReadableByteStreamController)
    ensures
        final(controller)@ == old(controller)@.released(),
{
    if controller.pending_pull_intos.len() > 0 {
        let mut head: PullIntoDescriptor = readable_byte_stream_controller_shift_pending_pull_into(
            controller,
        );
        head.reader_type = ReaderType::Released;
        controller.pending_pull_intos.clear();
        controller.pending_pull_intos.push_back(head);
        assert(controller@.pending =~= old(controller)@.released().pending);
    }
}

/// The BYOB request for the first descriptor.
pub fn readable_byte_stream_controller_get_byob_request(
    scope: &Scope,
    stream: &StreamSlots,
    controller: &mut ReadableByteStreamController,
) -> (request: Option<ReadableStreamBYOBRequest>)
    requires
        byte_world(*stream, *old(controller), *scope).memory_ok(),
    ensures
        byte_world(*stream, *final(controller), *scope) == byte_world(
            *stream,
            *old(controller),
            *scope,
        ).with_byob_request(),
        request == final(controller)@.byob_request,
{
    if controller.byob_request.is_none() && controller.pending_pull_intos.len() > 0 {
        let first: PullIntoDescriptor = controller.pending_pull_intos[0];
        assert(descriptor_ok(scope@.heap, controller@.pending[0]));
        let view: ArrayBufferView = ArrayBufferView {
            kind: ViewKind::Uint8,
            buffer: first.buffer,
            byte_offset: first.byte_offset + first.bytes_filled,
            byte_length: first.byte_length - first.bytes_filled,
        };
        controller.byob_request = Some(
            ReadableStreamBYOBRequest { controller: Some(stream.id), view: Some(view) },
        );
    }
    controller.byob_request
}

/// The source has started.
pub fn byte_start_promise_fulfilled(
    scope: &mut Scope,
    stream: &StreamSlots,
    controller: &mut ReadableByteStreamController,
)
    ensures
        byte_world(*stream, *final(controller), *final(scope)) == byte_world(
            *stream,
            *old(controller),
            *old(scope),
        ).start_fulfilled(),
{
    controller.started = true;
    readable_byte_stream_controller_call_pull_if_needed(scope, stream, controller);
}

/// The source has failed to start.
pub fn byte_start_promise_rejected(
    scope: &mut Scope,
    stream: &mut StreamSlots,
    controller: &mut ReadableByteStreamController,
    reason: Value,
)
    ensures
        byte_world(*final(stream), *final(controller), *final(scope)) == byte_world(
            *old(stream),
            *old(controller),
            *old(scope),
        ).errored(reason),
{
    readable_byte_stream_controller_error(scope, stream, controller, reason);
}

/// A pull has come to its end.
pub fn byte_pull_promise_fulfilled(
    scope: &mut Scope,
    stream: &StreamSlots,
    controller: &mut ReadableByteStreamController,
)
    ensures
        byte_world(*stream, *final(controller), *final(scope)) == byte_world(
            *stream,
            *old(controller),
            *old(scope),
        ).pull_fulfilled(),
{
    controller.pulling = false;
    if controller.pull_again {
        controller.pull_again = false;
        readable_byte_stream_controller_call_pull_if_needed(scope, stream, controller);
    }
}

/// A pull has failed.
pub fn byte_pull_promise_rejected(
    scope: &mut Scope,
    stream: &mut StreamSlots,
    controller: &mut ReadableByteStreamController,
    error: Value,
)
    ensures
        byte_world(*final(stream), *final(controller), *final(scope)) == byte_world(
            *old(stream),
            *old(controller),
            *old(scope),
        ).errored(error),
{
    readable_byte_stream_controller_error(scope, stream, controller, error);
}

} // verus!
