//! What holds of writable streams whatever is done with them.

use vstd::prelude::*;

use crate::algorithms::sized;
use crate::number::Number;
use crate::scope::{Call, Effect, PromiseRef};
use crate::value::{Message, Value};
use crate::writable::default_controller::{close_sentinel, WritableControllerModel};
use crate::writable::world::{AbortStep, WritableModel, WritableWorld};
use crate::writable::writable_stream::WritableStreamState;

verus! {

/// A failure that takes effect at once leaves a stream well formed. It may come at a moment
/// when the queue is no longer in step with the writes.
proof fn lemma_finish_erroring(w: WritableWorld)
    requires
        w.stream.state is Erroring,
        !w.stream.operation_in_flight(),
        w.stream.controller.started,
        w.stream.writer matches Some(writer) ==> writer.ready is Rejected,
    ensures
        w.finish_erroring().stream.wf(),
        w.finish_erroring().stream.state is Errored,
{
}

/// What a stream may owe when it begins to fail: all but that its queue is in step with
/// its writes and its backpressure up to date.
pub open spec fn may_fail(stream: WritableModel) -> bool {
    &&& stream.state is Writable
    &&& stream.in_flight_write is Some ==> stream.in_flight_close is None
    &&& stream.in_flight_close is Some ==> {
        &&& stream.close_request is None
        &&& stream.controller.queue.len() == 0
        &&& stream.write_requests.len() == 0
    }
    &&& stream.operation_in_flight() ==> stream.controller.started
    &&& stream.writer matches Some(writer) ==> writer.closed is Pending
    &&& WritableModel { state: WritableStreamState::Erroring, ..stream }.queue_ok()
}

proof fn lemma_start_erroring(w: WritableWorld, reason: Value)
    requires
        may_fail(w.stream),
    ensures
        w.start_erroring(reason).stream.wf(),
        w.start_erroring(reason).stream.state is Erroring
            || w.start_erroring(reason).stream.state is Errored,
{
    let begun = w.with_stream(
        WritableModel {
            state: WritableStreamState::Erroring,
            stored_error: reason,
            ..w.stream
        },
    ).ready_rejected(reason);
    if !w.stream.operation_in_flight() && w.stream.controller.started {
        lemma_finish_erroring(begun);
    }
}

/// A stream that is failed by its controller is left well formed.
pub proof fn law_controller_error(w: WritableWorld, error: Value)
    requires
        w.stream.wf(),
    ensures
        w.controller_error_if_needed(error).stream.wf(),
        w.controller_error_if_needed(error).stream.state !is Writable,
        w.stream.state is Writable ==> w.controller_error_if_needed(error).stream.stored_error
            == error,
{
    if w.stream.state is Writable {
        let cleared = w.with_controller(w.stream.controller.cleared_algorithms());
        lemma_start_erroring(cleared, error);
    }
}

/// A write leaves a stream well formed, whatever the size of its chunk.
pub proof fn law_write(
    w: WritableWorld,
    owned: bool,
    chunk: Value,
    size: Result<Number, Value>,
    promise: PromiseRef,
)
    requires
        w.stream.wf(),
        owned ==> w.stream.locked(),
    ensures
        w.write_sized(owned, chunk, size, promise).stream.wf(),
{
    match size {
        Err(error) => {
            law_controller_error(w, error);
        },
        Ok(number) => {
            if owned && w.stream.state is Writable && !w.stream.close_queued_or_in_flight() {
                let asked = w.with_stream(
                    WritableModel {
                        write_requests: w.stream.write_requests.push(promise),
                        ..w.stream
                    },
                );
                if number.countable() {
                    let queued = asked.with_controller(
                        asked.stream.controller.enqueued(chunk, number),
                    );
                    let signaled = queued.refresh_backpressure();
                    assert(signaled.stream.controller == queued.stream.controller);
                    assert(signaled.stream.write_requests == asked.stream.write_requests);
                } else {
                    lemma_start_erroring(
                        asked.with_controller(asked.stream.controller.cleared_algorithms()),
                        Value::RangeError(Message::SizeOutOfRange),
                    );
                }
            }
        },
    }
}

/// A close leaves a stream well formed.
pub proof fn law_close(w: WritableWorld, promise: PromiseRef)
    requires
        w.stream.wf(),
        !w.stream.close_queued_or_in_flight(),
    ensures
        w.close(promise).stream.wf(),
        w.close_with_error_propagation(promise).stream.wf(),
{
    if !w.stream.ended() {
        let queue = w.stream.controller.queue.push(close_sentinel());
        assert(queue.last() == close_sentinel());
        if w.stream.controller.queue.len() == 0 {
            assert(queue.drop_first() =~= Seq::empty());
        }
    }
}

/// An abort leaves a stream well formed.
pub proof fn law_abort(w: WritableWorld, reason: Value, promise: PromiseRef)
    requires
        w.stream.wf(),
    ensures
        w.abort(reason, promise).0.stream.wf(),
        w.abort_signaled(reason, promise).0.stream.wf(),
        w.abort_signaled(reason, promise).0.stream.state !is Writable,
{
    if w.stream.state is Writable {
        let asked = w.with_stream(
            WritableModel {
                pending_abort: Some(
                    crate::writable::writable_stream::PendingAbortRequest {
                        promise,
                        reason,
                        was_already_erroring: false,
                    },
                ),
                ..w.stream
            },
        );
        lemma_start_erroring(asked, reason);
    }
}

/// The outcome of a start leaves a stream well formed.
pub proof fn law_started(w: WritableWorld, error: Value)
    requires
        w.stream.wf(),
        !w.stream.ended(),
        !w.stream.controller.started,
    ensures
        w.start_fulfilled().stream.wf(),
        w.start_rejected(error).stream.wf(),
        w.start_rejected(error).stream.state is Errored,
{
    let started = w.with_controller(
        WritableControllerModel { started: true, ..w.stream.controller },
    );
    if w.stream.state is Writable {
        lemma_start_erroring(started, error);
        let queue = w.stream.controller.queue;
        if queue.len() == 1 && queue[0].is_close_sentinel {
            assert(queue.drop_first() =~= Seq::empty());
        }
    } else {
        lemma_finish_erroring(started);
    }
}

/// The outcome of a write of the sink leaves a stream well formed.
pub proof fn law_written(w: WritableWorld, error: Value)
    requires
        w.stream.wf(),
        w.stream.in_flight_write is Some,
    ensures
        w.write_fulfilled().stream.wf(),
        w.write_rejected(error).stream.wf(),
{
    let queue = w.stream.controller.queue;
    let done = w.with_stream(
        WritableModel {
            in_flight_write: None,
            controller: w.stream.controller.dequeued(),
            ..w.stream
        },
    ).resolve(w.stream.in_flight_write->0);
    let left = queue.drop_first();
    assert forall|i: int| 0 <= i < left.len() implies #[trigger] left[i] == queue[i + 1] by {}
    if w.stream.state is Writable {
        let signaled = done.refresh_backpressure();
        assert(signaled.stream.controller == done.stream.controller);
        if left.len() == 1 && left[0].is_close_sentinel {
            assert(left.drop_first() =~= Seq::empty());
        }
        let failed = w.with_controller(w.stream.controller.cleared_algorithms());
        lemma_start_erroring_after_write(w, failed, error);
    } else {
        lemma_finish_erroring(done);
        let failed = w.with_stream(WritableModel { in_flight_write: None, ..w.stream }).reject(
            w.stream.in_flight_write->0,
            error,
        );
        lemma_finish_erroring(failed);
    }
}

/// A write that fails the stream takes effect at once: nothing else is under way.
proof fn lemma_start_erroring_after_write(w: WritableWorld, failed: WritableWorld, error: Value)
    requires
        w.stream.wf(),
        w.stream.state is Writable,
        w.stream.in_flight_write is Some,
        failed == w.with_controller(w.stream.controller.cleared_algorithms()),
    ensures
        w.write_rejected(error).stream.wf(),
        w.write_rejected(error).stream.state is Errored,
{
    let told = failed.with_stream(
        WritableModel { in_flight_write: None, ..failed.stream },
    ).reject(w.stream.in_flight_write->0, error);
    let begun = told.with_stream(
        WritableModel {
            state: WritableStreamState::Erroring,
            stored_error: error,
            ..told.stream
        },
    ).ready_rejected(error);
    lemma_finish_erroring(begun);
}

/// The outcome of a close of the sink leaves a stream well formed, and ends it.
pub proof fn law_closed(w: WritableWorld, error: Value)
    requires
        w.stream.wf(),
        w.stream.in_flight_close is Some,
    ensures
        w.finish_in_flight_close().stream.wf(),
        w.finish_in_flight_close().stream.state is Closed,
        w.finish_in_flight_close_with_error(error).stream.wf(),
        w.finish_in_flight_close_with_error(error).stream.state is Errored,
{
    let failed = w.with_stream(
        WritableModel { in_flight_close: None, pending_abort: None, ..w.stream },
    ).reject(w.stream.in_flight_close->0, error);
    let told = match w.stream.pending_abort {
        Some(request) => failed.reject(request.promise, error),
        None => failed,
    };
    if w.stream.state is Writable {
        let begun = told.with_stream(
            WritableModel {
                state: WritableStreamState::Erroring,
                stored_error: error,
                ..told.stream
            },
        ).ready_rejected(error);
        lemma_finish_erroring(begun);
    } else {
        lemma_finish_erroring(told);
    }
}

/// The outcome of an abort of the sink leaves a stream well formed.
pub proof fn law_aborted(w: WritableWorld, promise: PromiseRef, error: Value)
    requires
        w.stream.wf(),
        w.stream.state is Errored,
    ensures
        w.abort_fulfilled(promise).stream.wf(),
        w.abort_rejected(promise, error).stream.wf(),
        w.abort_fulfilled(promise).stream.close_request is None,
        w.abort_rejected(promise, error).stream.close_request is None,
{
}

/// Locking and releasing leave a stream well formed; a locked stream cannot be locked again.
pub proof fn law_writer_lock(w: WritableWorld)
    requires
        w.stream.wf(),
    ensures
        w.acquire_writer().0.stream.wf(),
        w.stream.locked() ==> w.acquire_writer() == (
            w,
            Err::<(), Value>(Value::TypeError(Message::WriterLocked)),
        ),
        !w.stream.locked() ==> w.acquire_writer().1 is Ok
            && w.acquire_writer().0.stream.locked(),
        w.release().stream.wf(),
        !w.release().stream.locked(),
{
}

/// A stream that has closed or failed never changes its state again: it takes no more
/// chunks, and every write and close of it is refused.
pub proof fn law_end_is_final(
    w: WritableWorld,
    chunk: Value,
    size: Result<Number, Value>,
    reason: Value,
    promise: PromiseRef,
)
    requires
        w.stream.wf(),
        w.stream.ended(),
    ensures
        w.controller_error_if_needed(reason) == w,
        w.write_sized(true, chunk, size, promise).stream == w.stream,
        w.close(promise).stream == w.stream,
        w.abort(reason, promise) == (
            w.resolve(promise),
            AbortStep::Done,
        ),
        w.abort_signaled(reason, promise).0.stream == w.stream,
{
}

/// A stream that is about to fail never takes chunks again: it can only fail, or close if
/// its sink was at that.
pub proof fn law_erroring_stays(
    w: WritableWorld,
    chunk: Value,
    size: Result<Number, Value>,
    reason: Value,
    promise: PromiseRef,
)
    requires
        w.stream.wf(),
        w.stream.state is Erroring,
    ensures
        w.controller_error_if_needed(reason) == w,
        w.write_sized(true, chunk, size, promise).stream == w.stream,
        w.abort_signaled(reason, promise).0.stream.state is Erroring,
        w.stream.in_flight_write is Some ==> w.write_fulfilled().stream.state is Errored,
        w.stream.in_flight_write is Some ==> w.write_rejected(reason).stream.state is Errored,
        w.stream.in_flight_close is Some ==> w.finish_in_flight_close().stream.state is Closed,
{
}

/// The chunks reach the sink one at a time and in the order in which they were written: it
/// is handed the first chunk of the queue, and only when it is at nothing.
pub proof fn law_one_write_at_a_time(w: WritableWorld)
    requires
        w.stream.wf(),
        w.stream.state is Writable,
    ensures
        w.stream.operation_in_flight() && w.stream.in_flight_write is Some ==> w.advance_queue()
            == w,
        w.stream.controller.queue.len() > 0 && w.stream.controller.started
            && w.stream.in_flight_write is None && !w.stream.controller.queue[0].is_close_sentinel
            ==> w.advance_queue().scope.effects.last() == (Effect::Invoke {
            call: Call::WritableWrite {
                stream: w.stream.id,
                chunk: w.stream.controller.queue[0].value,
            },
            algorithm: w.stream.controller.write_algorithm,
            receiver: w.stream.controller.receiver,
        }),
{
}

/// A chunk that is written comes last in the queue, and its promise last among those that
/// wait, or is the one that the sink is at.
pub proof fn law_write_appends(w: WritableWorld, chunk: Value, size: Number, promise: PromiseRef)
    requires
        size.countable(),
        w.stream.wf(),
        w.stream.state is Writable,
        w.stream.locked(),
        !w.stream.close_queued_or_in_flight(),
    ensures
        ({
            let after = w.write_sized(true, chunk, Ok(size), promise).stream;
            &&& after.controller.queue == w.stream.controller.queue.push(sized(chunk, size))
            &&& if w.stream.controller.started && !w.stream.operation_in_flight() {
                after.in_flight_write == Some(promise) && after.write_requests.len() == 0
            } else {
                &&& after.in_flight_write == w.stream.in_flight_write
                &&& after.write_requests == w.stream.write_requests.push(promise)
            }
        }),
{
    let asked = w.with_stream(
        WritableModel { write_requests: w.stream.write_requests.push(promise), ..w.stream },
    );
    let queued = asked.with_controller(asked.stream.controller.enqueued(chunk, size));
    let signaled = queued.refresh_backpressure();
    assert(signaled.stream.controller == queued.stream.controller);
    assert(signaled.stream.write_requests == asked.stream.write_requests);
    if w.stream.controller.started && !w.stream.operation_in_flight() {
        assert(w.stream.write_requests.len() == 0);
        assert(asked.stream.write_requests.drop_first() =~= Seq::empty());
    }
}

/// When the stream fails for good, every write that waited fails with its error, in order.
pub proof fn law_failure_rejects_writes(w: WritableWorld)
    requires
        w.stream.wf(),
    ensures
        ({
            let requests = w.stream.write_requests;
            let after = w.finish_erroring();
            &&& after.stream.write_requests.len() == 0
            &&& after.stream.controller.queue.len() == 0
            &&& forall|i: int|
                0 <= i < requests.len() ==> after.scope.effects[w.scope.effects.len() + i]
                    == Effect::Reject(
                    #[trigger] requests[i],
                    w.stream.stored_error,
                )
        }),
{
}

/// The writer's `ready` promise is pending just while the stream asks for no more chunks.
pub proof fn law_ready_tells_backpressure(stream: WritableModel)
    requires
        stream.wf(),
        stream.state is Writable,
        !stream.close_queued_or_in_flight(),
        stream.writer is Some,
    ensures
        stream.writer->0.ready is Pending <==> stream.desired_size().not_positive(),
{
}

/// Two aborts of one stream share their outcome: the second is told by the promise of the
/// first.
pub proof fn law_aborts_share(
    w: WritableWorld,
    reason: Value,
    promise: PromiseRef,
    again: PromiseRef,
)
    requires
        w.stream.wf(),
        w.stream.pending_abort is Some,
    ensures
        w.abort_signaled(reason, again) == (w, w.stream.pending_abort->0.promise),
{
}

} // verus!
