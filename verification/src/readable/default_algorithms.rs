//! The operations of readable streams of values.

use vstd::prelude::*;

use crate::algorithms::{dequeue_value, enqueue_value_with_size, reset_queue};
use crate::number::{Number, ONE};
use crate::readable::default_controller::{
    default_can_enqueue, default_desired_size, default_should_pull, DefaultWorld, EnqueueStep,
    ReadableStreamDefaultController,
};
use crate::readable::read_request::ReadRequest;
use crate::readable::readable_stream::ReadableStreamState;
use crate::readable::slots::StreamSlots;
use crate::scope::{Algorithm, Call, Effect, PromiseRef, Scope};
use crate::value::Value;

verus! {

/// A stream and its controller in a scope.
pub open spec fn default_world(
    stream: StreamSlots,
    controller: ReadableStreamDefaultController,
    scope: Scope,
) -> DefaultWorld {
    DefaultWorld { slots: stream@, controller: controller@, scope: scope@ }
}

pub fn readable_stream_default_controller_can_close_or_enqueue(
    stream: &StreamSlots,
    controller: &ReadableStreamDefaultController,
) -> (can: bool)
    ensures
        can == default_can_enqueue(stream@, controller@),
{
    !controller.close_requested && stream.state == ReadableStreamState::Readable
}

pub fn readable_stream_default_controller_get_desired_size(
    stream: &StreamSlots,
    controller: &ReadableStreamDefaultController,
) -> (size: Option<Number>)
    ensures
        size == default_desired_size(stream@, controller@),
{
    match stream.state {
        ReadableStreamState::Errored => None,
        ReadableStreamState::Closed => Some(Number { bits: 0 }),
        ReadableStreamState::Readable => Some(
            controller.strategy_hwm.subtract(controller.queue_total_size),
        ),
    }
}

pub fn readable_stream_default_controller_should_call_pull(
    stream: &StreamSlots,
    controller: &ReadableStreamDefaultController,
) -> (should: bool)
    ensures
        should == default_should_pull(stream@, controller@),
{
    if !readable_stream_default_controller_can_close_or_enqueue(stream, controller) {
        return false;
    }
    if !controller.started {
        return false;
    }
    if stream.is_locked() && stream.num_read_requests() > 0 {
        return true;
    }
    controller.strategy_hwm.subtract(controller.queue_total_size).is_positive()
}

/// Whether the readable side of a transform stream pushes back.
pub fn readable_stream_default_controller_has_backpressure(
    stream: &StreamSlots,
    controller: &ReadableStreamDefaultController,
) -> (backpressure: bool)
    ensures
        backpressure == !default_should_pull(stream@, controller@),
{
    !readable_stream_default_controller_should_call_pull(stream, controller)
}

pub fn readable_stream_default_controller_call_pull_if_needed(
    scope: &mut Scope,
    stream: &StreamSlots,
    controller: &mut ReadableStreamDefaultController,
)
    ensures
        default_world(*stream, *final(controller), *final(scope)) == default_world(
            *stream,
            *old(controller),
            *old(scope),
        ).call_pull(),
{
    if !readable_stream_default_controller_should_call_pull(stream, controller) {
        return ;
    }
    if controller.pulling {
        controller.pull_again = true;
        return ;
    }
    controller.pulling = true;
    scope.emit(
        Effect::Invoke {
            call: Call::ReadablePull { stream: stream.id },
            algorithm: controller.pull_algorithm,
            receiver: controller.algorithm_receiver.clone(),
        },
    );
}

pub fn readable_stream_default_controller_clear_algorithms(
    controller: &mut ReadableStreamDefaultController,
)
    ensures
        final(controller)@ == old(controller)@.cleared_algorithms(),
{
    controller.pull_algorithm = Algorithm::Undefined;
    controller.cancel_algorithm = Algorithm::Undefined;
    controller.strategy_size_algorithm = Algorithm::Undefined;
}

pub fn readable_stream_default_controller_close(
    scope: &mut Scope,
    stream: &mut StreamSlots,
    controller: &mut ReadableStreamDefaultController,
)
    ensures
        default_world(*final(stream), *final(controller), *final(scope)) == default_world(
            *old(stream),
            *old(controller),
            *old(scope),
        ).close(),
{
    if !readable_stream_default_controller_can_close_or_enqueue(stream, controller) {
        return ;
    }
    controller.close_requested = true;
    if controller.queue.len() == 0 {
        readable_stream_default_controller_clear_algorithms(controller);
        stream.readable_stream_close(scope);
    }
}

pub fn readable_stream_default_controller_error(
    scope: &mut Scope,
    stream: &mut StreamSlots,
    controller: &mut ReadableStreamDefaultController,
    error: Value,
)
    ensures
        default_world(*final(stream), *final(controller), *final(scope)) == default_world(
            *old(stream),
            *old(controller),
            *old(scope),
        ).errored(error),
{
    if stream.state != ReadableStreamState::Readable {
        return ;
    }
    reset_queue(controller);
    assert(controller@ =~= old(controller)@.reset_queue());
    readable_stream_default_controller_clear_algorithms(controller);
    stream.readable_stream_error(scope, error);
}

/// Puts a chunk for which no reader waits into the queue, once its size is known.
pub fn readable_stream_default_controller_enqueue_with_size(
    scope: &mut Scope,
    stream: &mut StreamSlots,
    controller: &mut ReadableStreamDefaultController,
    chunk: Value,
    size: Result<Number, Value>,
) -> (result: Result<(), Value>)
    ensures
        (default_world(*final(stream), *final(controller), *final(scope)), result)
            == default_world(*old(stream), *old(controller), *old(scope)).enqueue_with_size(
            chunk,
            size,
        ),
{
    let size: Number = match size {
        Ok(size) => size,
        Err(error) => {
            readable_stream_default_controller_error(scope, stream, controller, error.clone());
            return Err(error);
        },
    };
    match enqueue_value_with_size(controller, chunk, size) {
        Ok(()) => {
            assert(controller@ =~= old(controller)@.enqueued(chunk, size));
            readable_stream_default_controller_call_pull_if_needed(scope, stream, controller);
            Ok(())
        },
        Err(error) => {
            assert(controller@ =~= old(controller)@);
            readable_stream_default_controller_error(scope, stream, controller, error.clone());
            Err(error)
        },
    }
}

/// Takes a chunk from the source.
pub fn readable_stream_default_controller_enqueue(
    scope: &mut Scope,
    stream: &mut StreamSlots,
    controller: &mut ReadableStreamDefaultController,
    chunk: &Value,
) -> (step: EnqueueStep)
    ensures
        (default_world(*final(stream), *final(controller), *final(scope)), step) == default_world(
            *old(stream),
            *old(controller),
            *old(scope),
        ).enqueue(*chunk),
{
    if !readable_stream_default_controller_can_close_or_enqueue(stream, controller) {
        return EnqueueStep::Done;
    }
    if stream.is_locked() && stream.num_read_requests() > 0 {
        stream.readable_stream_fulfill_read_request(scope, chunk.clone(), false);
        readable_stream_default_controller_call_pull_if_needed(scope, stream, controller);
        return EnqueueStep::Done;
    }
    match controller.strategy_size_algorithm {
        Algorithm::Undefined | Algorithm::One => {
            let _ = readable_stream_default_controller_enqueue_with_size(
                scope,
                stream,
                controller,
                chunk.clone(),
                Ok(Number { bits: ONE }),
            );
            EnqueueStep::Done
        },
        algorithm => EnqueueStep::NeedsSize(algorithm),
    }
}

/// What the controller does when its stream is canceled.
pub fn cancel_steps(
    scope: &mut Scope,
    stream: &StreamSlots,
    controller: &mut ReadableStreamDefaultController,
    reason: Value,
    result: PromiseRef,
)
    ensures
        default_world(*stream, *final(controller), *final(scope)) == default_world(
            *stream,
            *old(controller),
            *old(scope),
        ).cancel_steps(reason, result),
{
    reset_queue(controller);
    assert(controller@ =~= old(controller)@.reset_queue());
    scope.emit(
        Effect::Invoke {
            call: Call::ReadableCancel { stream: stream.id, reason, result },
            algorithm: controller.cancel_algorithm,
            receiver: controller.algorithm_receiver.clone(),
        },
    );
    readable_stream_default_controller_clear_algorithms(controller);
}

/// What the controller does for a read.
pub fn pull_steps(
    scope: &mut Scope,
    stream: &mut StreamSlots,
    controller: &mut ReadableStreamDefaultController,
    request: ReadRequest,
)
    requires
        old(stream)@.state is Readable,
        old(stream)@.reader is Default,
    ensures
        default_world(*final(stream), *final(controller), *final(scope)) == default_world(
            *old(stream),
            *old(controller),
            *old(scope),
        ).pull_steps(request),
{
    if controller.queue.len() > 0 {
        let chunk: Value = dequeue_value(controller);
        assert(controller@ =~= old(controller)@.dequeued());
        if controller.close_requested && controller.queue.len() == 0 {
            readable_stream_default_controller_clear_algorithms(controller);
            stream.readable_stream_close(scope);
        } else {
            readable_stream_default_controller_call_pull_if_needed(scope, stream, controller);
        }
        request.chunk_steps(scope, chunk);
    } else {
        stream.add_read_request(request);
        readable_stream_default_controller_call_pull_if_needed(scope, stream, controller);
    }
}

/// What the controller does when the reader of its stream is released: nothing.
pub fn release_steps(controller: &mut ReadableStreamDefaultController)
    ensures
        *final(controller) == *old(controller),
{
}

/// The source has started.
pub fn start_promise_fulfilled(
    scope: &mut Scope,
    stream: &StreamSlots,
    controller: &mut ReadableStreamDefaultController,
)
    ensures
        default_world(*stream, *final(controller), *final(scope)) == default_world(
            *stream,
            *old(controller),
            *old(scope),
        ).start_fulfilled(),
{
    controller.started = true;
    readable_stream_default_controller_call_pull_if_needed(scope, stream, controller);
}

/// The source has failed to start.
pub fn start_promise_rejected(
    scope: &mut Scope,
    stream: &mut StreamSlots,
    controller: &mut ReadableStreamDefaultController,
    reason: Value,
)
    ensures
        default_world(*final(stream), *final(controller), *final(scope)) == default_world(
            *old(stream),
            *old(controller),
            *old(scope),
        ).errored(reason),
{
    readable_stream_default_controller_error(scope, stream, controller, reason);
}

/// A pull has come to its end.
pub fn pull_promise_fulfilled(
    scope: &mut Scope,
    stream: &StreamSlots,
    controller: &mut ReadableStreamDefaultController,
)
    ensures
        default_world(*stream, *final(controller), *final(scope)) == default_world(
            *stream,
            *old(controller),
            *old(scope),
        ).pull_fulfilled(),
{
    controller.pulling = false;
    if controller.pull_again {
        controller.pull_again = false;
        readable_stream_default_controller_call_pull_if_needed(scope, stream, controller);
    }
}

/// A pull has failed.
pub fn pull_promise_rejected(
    scope: &mut Scope,
    stream: &mut StreamSlots,
    controller: &mut ReadableStreamDefaultController,
    error: Value,
)
    ensures
        default_world(*final(stream), *final(controller), *final(scope)) == default_world(
            *old(stream),
            *old(controller),
            *old(scope),
        ).errored(error),
{
    readable_stream_default_controller_error(scope, stream, controller, error);
}

} // verus!
