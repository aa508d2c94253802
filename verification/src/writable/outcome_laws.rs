//! What becomes of each write, close and abort of a writable stream.

use vstd::prelude::*;

use crate::number::{Number, ONE};
use crate::queuing::ValueWithSize;
use crate::scope::{Call, Effect, PromiseRef, ScopeModel};
use crate::value::{Message, Value};
use crate::writable::default_writer::{PromiseState, WritableStreamDefaultWriter};
use crate::writable::world::{AbortStep, WritableModel, WritableWorld, WriteStep};
use crate::writable::writable_stream::{PendingAbortRequest, WritableStreamState};

verus! {

/// The rejections of some promises, in order.
pub open spec fn all_rejected(promises: Seq<PromiseRef>, error: Value) -> Seq<Effect> {
    Seq::new(promises.len(), |i: int| Effect::Reject(promises[i], error))
}

/// What the failure of the `closed` promise of the writer comes to, where there is a writer.
pub open spec fn closed_fails(stream: WritableModel, scope: ScopeModel, error: Value)
    -> ScopeModel {
    let closed = PromiseRef::WriterClosed(stream.id);
    match stream.writer {
        None => scope,
        Some(_) => scope.emit(Effect::Reject(closed, error)).emit(Effect::MarkHandled(closed)),
    }
}

/// The writer once its `closed` promise has failed, if that was pending.
pub open spec fn writer_failed(writer: Option<WritableStreamDefaultWriter>) -> Option<
    WritableStreamDefaultWriter,
> {
    match writer {
        None => None,
        Some(writer) => Some(
            WritableStreamDefaultWriter {
                closed: if writer.closed is Pending {
                    PromiseState::Rejected
                } else {
                    writer.closed
                },
                ..writer
            },
        ),
    }
}

/// What a close that waits comes to when the stream fails, and the `closed` promise with it.
pub open spec fn close_fails(stream: WritableModel, scope: ScopeModel, error: Value)
    -> ScopeModel {
    match stream.close_request {
        None => closed_fails(stream, scope, error),
        Some(promise) => closed_fails(stream, scope.emit(Effect::Reject(promise, error)), error),
    }
}

/// What the failure of the `ready` promise of the writer comes to, where there is a writer; one
/// that was settled is replaced first.
pub open spec fn ready_fails(stream: WritableModel, scope: ScopeModel, error: Value)
    -> ScopeModel {
    let ready = PromiseRef::WriterReady(stream.id);
    match stream.writer {
        None => scope,
        Some(writer) => {
            let fresh = if writer.ready is Pending {
                scope
            } else {
                scope.emit(Effect::NewPromise(ready))
            };
            fresh.emit(Effect::Reject(ready, error)).emit(Effect::MarkHandled(ready))
        },
    }
}

/// A stream that fails for good drops what waits in it. The writes that waited fail with its
/// error, in order, whatever else there is; then an abort that was asked for while the stream
/// was writable has the sink called with its reason, and is settled by what comes of that; one
/// that came later fails with the error of the stream; and where none did, so do a close that
/// waits and the `closed` promise.
pub proof fn law_fails_for_good(w: WritableWorld)
    ensures
        ({
            let error = w.stream.stored_error;
            let after = w.finish_erroring();
            let told = w.scope.emit_all(all_rejected(w.stream.write_requests, error));
            &&& after.stream.state is Errored
            &&& after.stream.stored_error == error
            &&& after.stream.controller.queue.len() == 0
            &&& after.stream.controller.total == (Number { bits: 0 })
            &&& after.stream.write_requests.len() == 0
            &&& after.stream.pending_abort is None
            &&& match w.stream.pending_abort {
                Some(request) if !request.was_already_erroring => {
                    &&& after.scope == told.emit(
                        Effect::Invoke {
                            call: Call::WritableAbort {
                                stream: w.stream.id,
                                reason: request.reason,
                                promise: request.promise,
                            },
                            algorithm: w.stream.controller.abort_algorithm,
                            receiver: w.stream.controller.receiver,
                        },
                    ).emit(Effect::ClearAlgorithms { stream: w.stream.id })
                    &&& after.stream.close_request == w.stream.close_request
                    &&& after.stream.writer == w.stream.writer
                },
                Some(request) => {
                    &&& after.scope == close_fails(
                        w.stream,
                        told.emit(Effect::Reject(request.promise, error)),
                        error,
                    )
                    &&& after.stream.close_request is None
                    &&& after.stream.writer == writer_failed(w.stream.writer)
                },
                None => {
                    &&& after.scope == close_fails(w.stream, told, error)
                    &&& after.stream.close_request is None
                    &&& after.stream.writer == writer_failed(w.stream.writer)
                },
            }
        }),
{
    assert(crate::writable::world::write_rejections(
        w.stream.write_requests,
        w.stream.stored_error,
    ) =~= all_rejected(w.stream.write_requests, w.stream.stored_error));
}

/// A stream begins to fail: its `ready` promise fails at once, and it fails for good as soon as
/// its sink is at nothing.
pub proof fn law_begins_to_fail(w: WritableWorld, reason: Value)
    ensures
        ({
            let after = w.start_erroring(reason);
            let idle = w.stream.in_flight_write is None && w.stream.in_flight_close is None
                && w.stream.controller.started;
            let begun = WritableWorld {
                stream: WritableModel {
                    state: WritableStreamState::Erroring,
                    stored_error: reason,
                    writer: match w.stream.writer {
                        None => None,
                        Some(writer) => Some(
                            WritableStreamDefaultWriter { ready: PromiseState::Rejected, ..writer },
                        ),
                    },
                    ..w.stream
                },
                scope: ready_fails(w.stream, w.scope, reason),
            };
            &&& idle ==> after == begun.finish_erroring()
            &&& !idle ==> after == begun
        }),
{
}

/// An abort of a stream that has ended is done; of any other its author is told first.
pub proof fn law_abort_is_signaled(w: WritableWorld, reason: Value, promise: PromiseRef)
    ensures
        ({
            let ended = w.stream.state is Closed || w.stream.state is Errored;
            &&& ended ==> w.abort(reason, promise) == (
                w.emit(Effect::Resolve(promise, Value::Undefined)),
                AbortStep::Done,
            )
            &&& !ended ==> w.abort(reason, promise) == (
                w.emit(Effect::SignalAbort { stream: w.stream.id, reason }),
                AbortStep::Signaling,
            )
        }),
{
}

/// The abort of a writable stream that has started and whose sink is at nothing calls the sink
/// with the reason at once, whatever waits in the queue; its promise is not settled by that.
pub proof fn law_idle_stream_aborted(w: WritableWorld, reason: Value, promise: PromiseRef)
    requires
        w.stream.state is Writable,
        w.stream.pending_abort is None,
        w.stream.controller.started,
        w.stream.in_flight_write is None,
        w.stream.in_flight_close is None,
    ensures
        ({
            let (after, outcome) = w.abort_signaled(reason, promise);
            &&& outcome == promise
            &&& after.stream.state is Errored
            &&& after.stream.stored_error == reason
            &&& after.stream.write_requests.len() == 0
            &&& after.scope == ready_fails(w.stream, w.scope, reason).emit_all(
                all_rejected(w.stream.write_requests, reason),
            ).emit(
                Effect::Invoke {
                    call: Call::WritableAbort { stream: w.stream.id, reason, promise },
                    algorithm: w.stream.controller.abort_algorithm,
                    receiver: w.stream.controller.receiver,
                },
            ).emit(Effect::ClearAlgorithms { stream: w.stream.id })
        }),
{
    let asked = w.with_stream(
        WritableModel {
            pending_abort: Some(
                PendingAbortRequest { promise, reason, was_already_erroring: false },
            ),
            ..w.stream
        },
    );
    law_begins_to_fail(asked, reason);
    let begun = asked.with_stream(
        WritableModel {
            state: WritableStreamState::Erroring,
            stored_error: reason,
            ..asked.stream
        },
    ).ready_rejected(reason);
    law_fails_for_good(begun);
}

/// The abort of a writable stream whose sink is at something, or has not started, waits for
/// that; the stream takes no more chunks meanwhile, and nothing is asked of the sink.
pub proof fn law_busy_stream_aborted(w: WritableWorld, reason: Value, promise: PromiseRef)
    requires
        w.stream.state is Writable,
        w.stream.pending_abort is None,
        !w.stream.controller.started || w.stream.in_flight_write is Some
            || w.stream.in_flight_close is Some,
    ensures
        ({
            let (after, outcome) = w.abort_signaled(reason, promise);
            &&& outcome == promise
            &&& after.stream.state is Erroring
            &&& after.stream.stored_error == reason
            &&& after.stream.pending_abort == Some(
                PendingAbortRequest { promise, reason, was_already_erroring: false },
            )
            &&& after.stream.write_requests == w.stream.write_requests
            &&& after.stream.controller == w.stream.controller
            &&& after.stream.close_request == w.stream.close_request
            &&& after.scope == ready_fails(w.stream, w.scope, reason)
        }),
{
}

/// An abort of a stream that has ended, that is about to fail, or that has been asked for one
/// before.
pub proof fn law_late_abort(w: WritableWorld, reason: Value, promise: PromiseRef)
    ensures
        ({
            let (after, outcome) = w.abort_signaled(reason, promise);
            let ended = w.stream.state is Closed || w.stream.state is Errored;
            &&& ended ==> outcome == promise && after == w.emit(
                Effect::Resolve(promise, Value::Undefined),
            )
            &&& !ended && w.stream.pending_abort is Some ==> after == w && outcome
                == w.stream.pending_abort->0.promise
            &&& w.stream.state is Erroring && w.stream.pending_abort is None ==> {
                &&& outcome == promise
                &&& after.scope == w.scope
                &&& after.stream == (WritableModel {
                    pending_abort: Some(
                        PendingAbortRequest {
                            promise,
                            reason: Value::Undefined,
                            was_already_erroring: true,
                        },
                    ),
                    ..w.stream
                })
            }
        }),
{
}

/// The promise of an abort is settled by what the sink makes of it; a close that waited and the
/// `closed` promise fail after that with the error of the stream.
pub proof fn law_abort_settled(w: WritableWorld, promise: PromiseRef, error: Value)
    ensures
        w.abort_fulfilled(promise).scope == close_fails(
            w.stream,
            w.scope.emit(Effect::Resolve(promise, Value::Undefined)),
            w.stream.stored_error,
        ),
        w.abort_rejected(promise, error).scope == close_fails(
            w.stream,
            w.scope.emit(Effect::Reject(promise, error)),
            w.stream.stored_error,
        ),
        w.abort_fulfilled(promise).stream.writer == writer_failed(w.stream.writer),
        w.abort_rejected(promise, error).stream.writer == writer_failed(w.stream.writer),
        w.abort_fulfilled(promise).stream.close_request is None,
        w.abort_rejected(promise, error).stream.close_request is None,
        w.abort_fulfilled(promise).stream.state == w.stream.state,
        w.abort_rejected(promise, error).stream.state == w.stream.state,
{
}

/// Whether the writer knows of the room in the queue: while chunks are taken, the `ready`
/// promise is pending just where there is none.
pub open spec fn room_told(before: WritableModel, after: WritableModel) -> bool {
    let full = after.controller.hwm.minus(after.controller.total).not_positive();
    &&& after.backpressure == full
    &&& match before.writer {
        None => after.writer is None,
        Some(writer) => after.writer == Some(
            WritableStreamDefaultWriter {
                ready: if full == before.backpressure {
                    writer.ready
                } else if full {
                    PromiseState::Pending
                } else if writer.ready is Pending {
                    PromiseState::Fulfilled
                } else {
                    writer.ready
                },
                ..writer
            },
        ),
    }
}

/// What the change of the room in the queue comes to for the writer, where there is one.
pub open spec fn room_effects(before: WritableModel, full: bool, scope: ScopeModel) -> ScopeModel {
    let ready = PromiseRef::WriterReady(before.id);
    if before.writer is None || full == before.backpressure {
        scope
    } else if full {
        scope.emit(Effect::NewPromise(ready))
    } else {
        scope.emit(Effect::Resolve(ready, Value::Undefined))
    }
}

/// A write that a stream takes comes last in its queue, which grows by its size. The writer
/// hears whether there is room left. A sink that is at nothing is asked to write the first
/// chunk of the queue, and the promise of the first write then waits for the sink alone.
pub proof fn law_write_taken(w: WritableWorld, chunk: Value, size: Number, promise: PromiseRef)
    requires
        w.stream.state is Writable,
        w.stream.close_request is None,
        w.stream.in_flight_close is None,
        size.countable(),
        w.stream.controller.queue.len() > 0 ==> !w.stream.controller.queue[0].is_close_sentinel,
    ensures
        ({
            let after = w.write_sized(true, chunk, Ok(size), promise);
            let queue = w.stream.controller.queue;
            let grown = queue.push(ValueWithSize { value: chunk, size, is_close_sentinel: false });
            let waiting = w.stream.write_requests.push(promise);
            let full = w.stream.controller.hwm.minus(
                w.stream.controller.total.plus(size),
            ).not_positive();
            let told = room_effects(w.stream, full, w.scope);
            &&& after.stream.controller.queue == grown
            &&& after.stream.controller.total == w.stream.controller.total.plus(size)
            &&& after.stream.state is Writable
            &&& room_told(w.stream, after.stream)
            &&& if w.stream.controller.started && w.stream.in_flight_write is None {
                &&& after.stream.in_flight_write == Some(waiting[0])
                &&& after.stream.write_requests == waiting.drop_first()
                &&& after.scope == told.emit(
                    Effect::Invoke {
                        call: Call::WritableWrite { stream: w.stream.id, chunk: grown[0].value },
                        algorithm: w.stream.controller.write_algorithm,
                        receiver: w.stream.controller.receiver,
                    },
                )
            } else {
                &&& after.stream.in_flight_write == w.stream.in_flight_write
                &&& after.stream.write_requests == waiting
                &&& after.scope == told
            }
        }),
{
}

/// A write that a stream does not take is refused: after the writer was released, after the
/// stream has failed or has begun to, and after it was asked to close.
pub proof fn law_write_refused(
    w: WritableWorld,
    owned: bool,
    chunk: Value,
    size: Result<Number, Value>,
    promise: PromiseRef,
)
    requires
        size is Ok || w.stream.state !is Writable,
    ensures
        ({
            let after = w.write_sized(owned, chunk, size, promise);
            let closing = w.stream.close_request is Some || w.stream.in_flight_close is Some
                || w.stream.state is Closed;
            let refusal = if !owned {
                Some(Value::TypeError(Message::WriteReleased))
            } else if w.stream.state is Errored {
                Some(w.stream.stored_error)
            } else if closing {
                Some(Value::TypeError(Message::WriteClosing))
            } else if w.stream.state is Erroring {
                Some(w.stream.stored_error)
            } else {
                None
            };
            refusal matches Some(error) ==> after == w.emit(Effect::Reject(promise, error))
        }),
{
}

/// A chunk whose size cannot be counted fails the stream, and its write with it.
pub proof fn law_write_of_no_size(
    w: WritableWorld,
    chunk: Value,
    size: Result<Number, Value>,
    promise: PromiseRef,
)
    requires
        w.stream.state is Writable,
        w.stream.close_request is None,
        w.stream.in_flight_close is None,
        size matches Ok(size) ==> !size.countable(),
    ensures
        ({
            let after = w.write_sized(true, chunk, size, promise);
            let error = match size {
                Ok(_) => Value::RangeError(Message::SizeOutOfRange),
                Err(error) => error,
            };
            &&& after.stream.state is Erroring || after.stream.state is Errored
            &&& after.stream.stored_error == error
            &&& w.stream.in_flight_write is None && w.stream.controller.started
                ==> after.stream.state is Errored
            &&& after.stream.state is Errored || size is Err ==> exists|i: int|
                0 <= i < after.scope.effects.len() && #[trigger] after.scope.effects[i]
                    == Effect::Reject(promise, error)
            &&& after.stream.state is Erroring && size is Ok ==> after.stream.write_requests
                == w.stream.write_requests.push(promise)
        }),
{
    let after = w.write_sized(true, chunk, size, promise);
    match size {
        Err(error) => {
            assert(after.scope.effects[after.scope.effects.len() - 1] == Effect::Reject(
                promise,
                error,
            ));
        },
        Ok(_) => {
            let error = Value::RangeError(Message::SizeOutOfRange);
            let asked = w.with_stream(
                WritableModel { write_requests: w.stream.write_requests.push(promise), ..w.stream },
            );
            let cleared = asked.with_controller(asked.stream.controller.cleared_algorithms());
            law_begins_to_fail(cleared, error);
            if after.stream.state is Errored {
                let begun = cleared.with_stream(
                    WritableModel {
                        state: WritableStreamState::Erroring,
                        stored_error: error,
                        ..cleared.stream
                    },
                ).ready_rejected(error);
                law_fails_for_good(begun);
                let place = (begun.scope.effects.len() + w.stream.write_requests.len()) as int;
                let told = begun.scope.emit_all(
                    all_rejected(begun.stream.write_requests, error),
                );
                assert(told.effects[place] == Effect::Reject(promise, error));
                assert(after.scope.effects[place] == told.effects[place]);
            }
        },
    }
}

/// A chunk whose size could not be found fails a stream that is writable, whatever else becomes
/// of its write, which fails last.
pub proof fn law_write_unmeasured(
    w: WritableWorld,
    owned: bool,
    chunk: Value,
    error: Value,
    promise: PromiseRef,
)
    requires
        w.stream.state is Writable,
    ensures
        ({
            let after = w.write_sized(owned, chunk, Err(error), promise);
            let closing = w.stream.close_request is Some || w.stream.in_flight_close is Some;
            &&& after.stream.stored_error == error
            &&& after.stream.state is Erroring || after.stream.state is Errored
            &&& after.stream == w.controller_error_if_needed(error).stream
            &&& after.scope == w.controller_error_if_needed(error).scope.emit(
                Effect::Reject(
                    promise,
                    if !owned {
                        Value::TypeError(Message::WriteReleased)
                    } else if closing && after.stream.state is Erroring {
                        Value::TypeError(Message::WriteClosing)
                    } else {
                        error
                    },
                ),
            )
        }),
{
    law_controller_fails(w, error);
}

/// A write is taken with the size one where the strategy measures no chunks, and otherwise once
/// its size has been asked for.
pub proof fn law_write_is_measured(w: WritableWorld, chunk: Value, promise: PromiseRef)
    ensures
        ({
            let own_size = w.stream.controller.size_algorithm is Undefined
                || w.stream.controller.size_algorithm is One;
            &&& own_size ==> w.write(chunk, promise) == (
                w.write_sized(true, chunk, Ok(Number { bits: ONE }), promise),
                WriteStep::Done,
            )
            &&& !own_size ==> w.write(chunk, promise) == (
                w,
                WriteStep::NeedsSize(w.stream.controller.size_algorithm),
            )
        }),
{
}

/// What a sink that is at nothing is asked for next: the first chunk of the queue, or to close
/// where that comes first; nothing where the queue is empty, the sink has not started or is
/// at a write. A stream that is about to fail does so instead.
pub proof fn law_sink_is_asked(w: WritableWorld)
    ensures
        ({
            let queue = w.stream.controller.queue;
            let after = w.advance_queue();
            if !w.stream.controller.started || w.stream.in_flight_write is Some {
                after == w
            } else if w.stream.state is Erroring {
                after == w.finish_erroring()
            } else if queue.len() == 0 {
                after == w
            } else if queue[0].is_close_sentinel {
                &&& after.stream.in_flight_close == w.stream.close_request
                &&& after.stream.close_request is None
                &&& after.stream.controller.queue == queue.drop_first()
                &&& after.stream.state == w.stream.state
                &&& after.stream.write_requests == w.stream.write_requests
                &&& after.scope == w.scope.emit(
                    Effect::Invoke {
                        call: Call::WritableClose { stream: w.stream.id },
                        algorithm: w.stream.controller.close_algorithm,
                        receiver: w.stream.controller.receiver,
                    },
                ).emit(Effect::ClearAlgorithms { stream: w.stream.id })
            } else {
                &&& after.stream == (WritableModel {
                    in_flight_write: Some(w.stream.write_requests[0]),
                    write_requests: w.stream.write_requests.drop_first(),
                    ..w.stream
                })
                &&& after.scope == w.scope.emit(
                    Effect::Invoke {
                        call: Call::WritableWrite { stream: w.stream.id, chunk: queue[0].value },
                        algorithm: w.stream.controller.write_algorithm,
                        receiver: w.stream.controller.receiver,
                    },
                )
            }
        }),
{
}

/// A chunk that the sink has written leaves the queue and its size, and its promise is
/// resolved. The writer hears of the room that there is again, while chunks are still taken;
/// then the sink is asked for what comes next.
pub proof fn law_chunk_written(w: WritableWorld)
    requires
        w.stream.in_flight_write is Some,
        w.stream.controller.queue.len() > 0,
    ensures
        ({
            let after = w.write_fulfilled();
            let queue = w.stream.controller.queue;
            let less = w.stream.controller.total.minus(queue[0].size);
            let total = if less.below_zero() {
                Number { bits: 0 }
            } else {
                less
            };
            let full = w.stream.controller.hwm.minus(total).not_positive();
            let takes = w.stream.state is Writable && w.stream.close_request is None
                && w.stream.in_flight_close is None;
            let settled = w.scope.emit(
                Effect::Resolve(w.stream.in_flight_write->0, Value::Undefined),
            );
            let told = if takes {
                room_effects(w.stream, full, settled)
            } else {
                settled
            };
            &&& w.stream.state is Writable && w.stream.controller.started ==> {
                &&& takes && (queue.len() == 1 || !queue[1].is_close_sentinel) ==> room_told(
                    w.stream,
                    after.stream,
                )
                &&& queue.len() == 1 ==> after.stream.controller.queue.len() == 0
                    && after.stream.in_flight_write is None && after.scope == told
                    && after.stream.controller.total == total
                &&& queue.len() > 1 && queue[1].is_close_sentinel ==> {
                    &&& after.stream.in_flight_close == w.stream.close_request
                    &&& after.stream.in_flight_write is None
                    &&& after.scope == told.emit(
                        Effect::Invoke {
                            call: Call::WritableClose { stream: w.stream.id },
                            algorithm: w.stream.controller.close_algorithm,
                            receiver: w.stream.controller.receiver,
                        },
                    ).emit(Effect::ClearAlgorithms { stream: w.stream.id })
                }
                &&& queue.len() > 1 && !queue[1].is_close_sentinel ==> {
                    &&& after.stream.controller.queue == queue.drop_first()
                    &&& after.stream.controller.total == total
                    &&& after.stream.in_flight_write == Some(w.stream.write_requests[0])
                    &&& after.stream.write_requests == w.stream.write_requests.drop_first()
                    &&& after.scope == told.emit(
                        Effect::Invoke {
                            call: Call::WritableWrite { stream: w.stream.id, chunk: queue[1].value },
                            algorithm: w.stream.controller.write_algorithm,
                            receiver: w.stream.controller.receiver,
                        },
                    )
                }
            }
            &&& w.stream.state is Erroring && w.stream.controller.started ==> {
                &&& after.stream.state is Errored
                &&& after.scope.effects[w.scope.effects.len() as int] == Effect::Resolve(
                    w.stream.in_flight_write->0,
                    Value::Undefined,
                )
            }
        }),
{
    let queue = w.stream.controller.queue;
    if queue.len() > 1 {
        assert(queue.drop_first()[0] == queue[1]);
    }
    if w.stream.state is Erroring && w.stream.controller.started {
        let done = w.with_stream(
            WritableModel {
                in_flight_write: None,
                controller: w.stream.controller.dequeued(),
                ..w.stream
            },
        ).resolve(w.stream.in_flight_write->0);
        law_fails_for_good(done);
    }
}

/// A chunk that the sink has failed to write fails its write, and the stream with the same
/// error, or with the one that it is about to fail with already.
pub proof fn law_chunk_not_written(w: WritableWorld, error: Value)
    requires
        w.stream.in_flight_write is Some,
        w.stream.state is Writable || w.stream.state is Erroring,
    ensures
        ({
            let after = w.write_rejected(error);
            let idle = w.stream.controller.started && w.stream.in_flight_close is None;
            let told = w.scope.emit(Effect::Reject(w.stream.in_flight_write->0, error));
            let waiting = w.stream.write_requests;
            let both = ready_fails(w.stream, told, error);
            &&& after.stream.in_flight_write is None
            &&& w.stream.state is Writable ==> {
                &&& after.stream.stored_error == error
                &&& idle ==> after.stream.state is Errored
                &&& idle && w.stream.pending_abort is None ==> after.scope == close_fails(
                    w.stream,
                    both.emit_all(all_rejected(waiting, error)),
                    error,
                )
                &&& !idle ==> {
                    &&& after.stream.state is Erroring
                    &&& after.stream.write_requests == waiting
                    &&& after.scope == both
                }
            }
            &&& w.stream.state is Erroring ==> after == (WritableWorld {
                stream: WritableModel { in_flight_write: None, ..w.stream },
                scope: told,
            }).finish_erroring()
        }),
{
    assert(crate::writable::world::write_rejections(w.stream.write_requests, error)
        =~= all_rejected(w.stream.write_requests, error));
}

/// A close of a stream that takes chunks comes behind those that wait; where none does and the
/// sink is at nothing, the sink is asked at once. A writer that waits for room need wait no
/// longer. A stream that has ended cannot be closed.
pub proof fn law_close_asked(w: WritableWorld, promise: PromiseRef)
    ensures
        ({
            let after = w.close(promise);
            let queue = w.stream.controller.queue;
            let ready = PromiseRef::WriterReady(w.stream.id);
            let told = if w.stream.state is Writable && w.stream.backpressure
                && w.stream.writer is Some {
                w.scope.emit(Effect::Resolve(ready, Value::Undefined))
            } else {
                w.scope
            };
            &&& w.stream.state is Closed || w.stream.state is Errored ==> after == w.emit(
                Effect::Reject(promise, Value::TypeError(Message::CloseNotWritable)),
            )
            &&& w.stream.state is Writable && (!w.stream.controller.started
                || w.stream.in_flight_write is Some) ==> {
                &&& after.stream.close_request == Some(promise)
                &&& after.stream.controller.queue.len() == queue.len() + 1
                &&& after.stream.controller.queue.drop_last() == queue
                &&& after.stream.controller.queue.last().is_close_sentinel
                &&& after.stream.controller.total == w.stream.controller.total
                &&& after.stream.state is Writable
                &&& after.scope == told
            }
            &&& w.stream.state is Erroring && (!w.stream.controller.started
                || w.stream.in_flight_write is Some) ==> {
                &&& after.stream.close_request == Some(promise)
                &&& after.stream.controller.queue.drop_last() == queue
                &&& after.stream.state is Erroring
                &&& after.stream.writer == w.stream.writer
                &&& after.scope == w.scope
            }
            &&& w.stream.state is Writable && w.stream.controller.started
                && w.stream.in_flight_write is None && queue.len() == 0 ==> {
                &&& after.stream.in_flight_close == Some(promise)
                &&& after.stream.close_request is None
                &&& after.stream.controller.queue.len() == 0
                &&& after.stream.state is Writable
                &&& after.scope == told.emit(
                    Effect::Invoke {
                        call: Call::WritableClose { stream: w.stream.id },
                        algorithm: w.stream.controller.close_algorithm,
                        receiver: w.stream.controller.receiver,
                    },
                ).emit(Effect::ClearAlgorithms { stream: w.stream.id })
            }
        }),
{
    let queue = w.stream.controller.queue.push(
        crate::writable::default_controller::close_sentinel(),
    );
    assert(queue.drop_last() =~= w.stream.controller.queue);
    assert(w.stream.controller.queue.len() == 0 ==> queue.drop_first() =~= Seq::empty());
}

/// A pipe closes its destination whatever state it is in.
pub proof fn law_close_for_pipe(w: WritableWorld, promise: PromiseRef)
    ensures
        ({
            let closing = w.stream.close_request is Some || w.stream.in_flight_close is Some
                || w.stream.state is Closed;
            w.close_with_error_propagation(promise) == if closing {
                w.emit(Effect::Resolve(promise, Value::Undefined))
            } else if w.stream.state is Errored {
                w.emit(Effect::Reject(promise, w.stream.stored_error))
            } else {
                w.close(promise)
            }
        }),
{
}

/// A sink that has closed ends the stream well, even if an abort was asked for meanwhile, which
/// is then done; the `closed` promise is resolved last.
pub proof fn law_sink_closed(w: WritableWorld)
    requires
        w.stream.in_flight_close is Some,
    ensures
        ({
            let after = w.finish_in_flight_close();
            let closed = PromiseRef::WriterClosed(w.stream.id);
            let done = w.scope.emit(
                Effect::Resolve(w.stream.in_flight_close->0, Value::Undefined),
            );
            let both = match w.stream.pending_abort {
                Some(request) if w.stream.state is Erroring => done.emit(
                    Effect::Resolve(request.promise, Value::Undefined),
                ),
                _ => done,
            };
            &&& after.stream.state is Closed
            &&& after.stream.in_flight_close is None
            &&& w.stream.state is Erroring ==> after.stream.stored_error == Value::Undefined
                && after.stream.pending_abort is None
            &&& after.scope == match w.stream.writer {
                None => both,
                Some(_) => both.emit(Effect::Resolve(closed, Value::Undefined)),
            }
            &&& w.stream.writer matches Some(writer) ==> after.stream.writer == Some(
                WritableStreamDefaultWriter {
                    closed: if writer.closed is Pending {
                        PromiseState::Fulfilled
                    } else {
                        writer.closed
                    },
                    ..writer
                },
            )
        }),
{
}

/// A sink that has failed to close fails the close, an abort that was asked for meanwhile, and
/// then the stream.
pub proof fn law_sink_not_closed(w: WritableWorld, error: Value)
    requires
        w.stream.in_flight_close is Some,
    ensures
        ({
            let after = w.finish_in_flight_close_with_error(error);
            let close = w.scope.emit(Effect::Reject(w.stream.in_flight_close->0, error));
            let told = match w.stream.pending_abort {
                Some(request) => close.emit(Effect::Reject(request.promise, error)),
                None => close,
            };
            let failing = WritableWorld {
                stream: WritableModel { in_flight_close: None, pending_abort: None, ..w.stream },
                scope: told,
            };
            &&& w.stream.state is Writable ==> after == failing.start_erroring(error)
            &&& w.stream.state is Erroring ==> after == failing.finish_erroring()
        }),
{
}

/// A sink that has started is asked for what waits; one that has failed to start fails the
/// stream.
pub proof fn law_sink_started(w: WritableWorld, error: Value)
    requires
        w.stream.state is Writable || w.stream.state is Erroring,
    ensures
        w.start_fulfilled() == (WritableWorld {
            stream: WritableModel {
                controller: crate::writable::default_controller::WritableControllerModel {
                    started: true,
                    ..w.stream.controller
                },
                ..w.stream
            },
            ..w
        }).advance_queue(),
        w.stream.in_flight_write is None && w.stream.in_flight_close is None ==> {
            &&& w.start_rejected(error).stream.state is Errored
            &&& w.stream.state is Writable ==> w.start_rejected(error).stream.stored_error == error
            &&& w.stream.state is Erroring ==> w.start_rejected(error).stream.stored_error
                == w.stream.stored_error
        },
{
}

/// A stream that its controller fails begins to fail with that error, and needs its algorithms
/// no longer; one that is past being writable stays as it is.
pub proof fn law_controller_fails(w: WritableWorld, error: Value)
    ensures
        ({
            let after = w.controller_error_if_needed(error);
            &&& w.stream.state !is Writable ==> after == w
            &&& w.stream.state is Writable ==> {
                &&& after.stream.stored_error == error
                &&& after.stream.controller.size_algorithm is Undefined
                &&& after.stream.controller.write_algorithm is Undefined
                &&& if w.stream.in_flight_write is None && w.stream.in_flight_close is None
                    && w.stream.controller.started {
                    after.stream.state is Errored
                } else {
                    &&& after.stream.state is Erroring
                    &&& after.stream.close_request == w.stream.close_request
                    &&& after.stream.in_flight_close == w.stream.in_flight_close
                    &&& after.stream.write_requests == w.stream.write_requests
                    &&& after.scope == ready_fails(w.stream, w.scope, error)
                }
            }
        }),
{
}

/// A new writer has promises that tell the state of the stream from the start: `ready` is
/// pending just where the stream takes chunks and has no room for them, and `closed` as long
/// as the stream may still close. A stream is locked to one writer at a time.
pub proof fn law_new_writer(w: WritableWorld)
    ensures
        ({
            let (after, result) = w.acquire_writer();
            let ready = PromiseRef::WriterReady(w.stream.id);
            let closed = PromiseRef::WriterClosed(w.stream.id);
            let error = w.stream.stored_error;
            let closing = w.stream.close_request is Some || w.stream.in_flight_close is Some;
            let fresh = w.scope.emit(Effect::NewPromise(ready));
            if w.stream.writer is Some {
                (after, result) == (
                    w,
                    Err::<(), Value>(Value::TypeError(Message::WriterLocked)),
                )
            } else {
                &&& result is Ok
                &&& after.stream == (WritableModel { writer: after.stream.writer, ..w.stream })
                &&& match w.stream.state {
                    WritableStreamState::Writable => if !closing && w.stream.backpressure {
                        &&& after.scope == fresh.emit(Effect::NewPromise(closed))
                        &&& after.stream.writer == Some(
                            WritableStreamDefaultWriter {
                                ready: PromiseState::Pending,
                                closed: PromiseState::Pending,
                            },
                        )
                    } else {
                        &&& after.scope == fresh.emit(
                            Effect::Resolve(ready, Value::Undefined),
                        ).emit(Effect::NewPromise(closed))
                        &&& after.stream.writer == Some(
                            WritableStreamDefaultWriter {
                                ready: PromiseState::Fulfilled,
                                closed: PromiseState::Pending,
                            },
                        )
                    },
                    WritableStreamState::Erroring => {
                        &&& after.scope == fresh.emit(Effect::Reject(ready, error)).emit(
                            Effect::MarkHandled(ready),
                        ).emit(Effect::NewPromise(closed))
                        &&& after.stream.writer == Some(
                            WritableStreamDefaultWriter {
                                ready: PromiseState::Rejected,
                                closed: PromiseState::Pending,
                            },
                        )
                    },
                    WritableStreamState::Closed => {
                        &&& after.scope == fresh.emit(
                            Effect::Resolve(ready, Value::Undefined),
                        ).emit(Effect::NewPromise(closed)).emit(
                            Effect::Resolve(closed, Value::Undefined),
                        )
                        &&& after.stream.writer == Some(
                            WritableStreamDefaultWriter {
                                ready: PromiseState::Fulfilled,
                                closed: PromiseState::Fulfilled,
                            },
                        )
                    },
                    WritableStreamState::Errored => {
                        &&& after.scope == fresh.emit(Effect::Reject(ready, error)).emit(
                            Effect::MarkHandled(ready),
                        ).emit(Effect::NewPromise(closed)).emit(
                            Effect::Reject(closed, error),
                        ).emit(Effect::MarkHandled(closed))
                        &&& after.stream.writer == Some(
                            WritableStreamDefaultWriter {
                                ready: PromiseState::Rejected,
                                closed: PromiseState::Rejected,
                            },
                        )
                    },
                }
            }
        }),
{
}

/// A writer that lets go of its stream leaves the stream as it is; both its promises fail, new
/// ones where the old had been settled.
pub proof fn law_writer_lets_go(w: WritableWorld)
    requires
        w.stream.writer is Some,
    ensures
        ({
            let after = w.release();
            let gone = Value::TypeError(Message::WriterReleasedClosed);
            let closed = PromiseRef::WriterClosed(w.stream.id);
            let first = ready_fails(w.stream, w.scope, gone);
            let fresh = if w.stream.writer->0.closed is Pending {
                first
            } else {
                first.emit(Effect::NewPromise(closed))
            };
            &&& after.stream == (WritableModel { writer: None, ..w.stream })
            &&& after.scope == fresh.emit(Effect::Reject(closed, gone)).emit(
                Effect::MarkHandled(closed),
            )
        }),
{
}

/// The room that the writer is told of: what the high-water mark leaves above what waits, none
/// once the stream has closed, and none to speak of once it has failed or is about to.
pub proof fn law_writer_room(stream: WritableModel)
    ensures
        stream.writer_desired_size() == match stream.state {
            WritableStreamState::Writable => Some(
                stream.controller.hwm.minus(stream.controller.total),
            ),
            WritableStreamState::Closed => Some(Number { bits: 0 }),
            _ => None,
        },
{
}

} // verus!
