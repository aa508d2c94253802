//! What becomes of each chunk, and of the end of either side, of a transform stream.

use vstd::prelude::*;

use crate::number::{Number, ONE};
use crate::readable::default_controller::EnqueueStep;
use crate::readable::stream_world::ReadableWorld;
use crate::readable::value_laws::wants_chunks;
use crate::scope::{Algorithm, Call, Effect, PromiseRef, ScopeModel};
use crate::transform::transform_stream_default_controller::TransformStreamDefaultController;
use crate::transform::world::{TransformModel, TransformWorld};
use crate::value::{Message, Value};

verus! {

/// Whether the readable side takes chunks.
pub open spec fn takes_output(stream: TransformModel) -> bool {
    &&& stream.readable.slots.state is Readable
    &&& !stream.readable.controller->Default_0.close_requested
}

/// Whether a transform stream has lost its algorithms, and kept the rest of its controller.
pub open spec fn transformer_dropped(
    before: TransformStreamDefaultController,
    after: TransformStreamDefaultController,
) -> bool {
    &&& after.transform_algorithm is Undefined
    &&& after.flush_algorithm is Undefined
    &&& after.cancel_algorithm is Undefined
    &&& after.finish_promise == before.finish_promise
}

/// What the change of the backpressure comes to: whoever waited for it is told, and there is a
/// new promise for the next change.
pub open spec fn change_told(stream: TransformModel, scope: ScopeModel) -> ScopeModel {
    let change = PromiseRef::BackpressureChange(stream.id);
    let told = if stream.has_change_promise {
        scope.emit(Effect::Resolve(change, Value::Undefined))
    } else {
        scope
    };
    told.emit(Effect::NewPromise(change))
}

/// A change of the backpressure is told to whoever waits for it. Writes are let through where
/// they were held back, and nothing is told where they were not.
pub proof fn law_backpressure_told(w: TransformWorld, backpressure: bool)
    ensures
        w.set_backpressure(backpressure) == (TransformWorld {
            stream: TransformModel { backpressure, has_change_promise: true, ..w.stream },
            scope: change_told(w.stream, w.scope),
        }),
        w.stream.backpressure ==> w.unblock_write() == (TransformWorld {
            stream: TransformModel { backpressure: false, has_change_promise: true, ..w.stream },
            scope: change_told(w.stream, w.scope),
        }),
        !w.stream.backpressure ==> w.unblock_write() == w,
{
}

/// What the transformer gives comes out at the readable side, and nothing else changes there
/// but what that brings with it; once the readable side wants no more, writes are held back.
/// Where the readable side takes nothing more, the transformer is told so, and nothing changes.
pub proof fn law_output_enqueued(w: TransformWorld, chunk: Value)
    requires
        w.stream.readable.controller is Default,
    ensures
        ({
            let (after, result) = w.enqueue(chunk);
            let before = w.readable_side().as_default();
            let (given, step) = before.enqueue(chunk);
            if !takes_output(w.stream) {
                &&& after == w
                &&& result == Err::<EnqueueStep, Value>(
                    Value::TypeError(Message::TransformEnqueueNotPermitted),
                )
            } else if step is NeedsSize {
                after == w && result == Ok::<EnqueueStep, Value>(step)
            } else {
                &&& result == Ok::<EnqueueStep, Value>(EnqueueStep::Done)
                &&& after.stream.readable == ReadableWorld::from_default(given).stream
                &&& after.stream.writable == w.stream.writable
                &&& after.stream.controller == w.stream.controller
                &&& after.stream.backpressure == (w.stream.backpressure || !wants_chunks(given))
                &&& after.scope == if !w.stream.backpressure && !wants_chunks(given) {
                    change_told(w.stream, given.scope)
                } else {
                    given.scope
                }
            }
        }),
{
}

/// A chunk whose size was asked for comes out in the same way; where the size will not do, the
/// readable side fails with the error, and the writable side with it.
pub proof fn law_output_measured(w: TransformWorld, chunk: Value, size: Result<Number, Value>)
    requires
        w.stream.readable.controller is Default,
        w.stream.readable.slots.state is Readable,
    ensures
        ({
            let (after, result) = w.enqueue_sized(chunk, size);
            let (given, _) = w.readable_side().as_default().enqueue_with_size(chunk, size);
            match size {
                Ok(number) if number.countable() => {
                    &&& result is Ok
                    &&& after.stream.readable == ReadableWorld::from_default(given).stream
                    &&& after.stream.writable == w.stream.writable
                    &&& after.stream.controller == w.stream.controller
                    &&& after.stream.backpressure == (w.stream.backpressure || !wants_chunks(
                        given,
                    ))
                },
                _ => {
                    let error = match size {
                        Ok(_) => Value::RangeError(Message::SizeOutOfRange),
                        Err(error) => error,
                    };
                    &&& result == Err::<(), Value>(error)
                    &&& after.stream.readable.slots.state is Errored
                    &&& after.stream.readable.slots.stored_error == error
                    &&& !after.stream.backpressure
                    &&& transformer_dropped(w.stream.controller, after.stream.controller)
                    &&& w.stream.writable.state is Writable ==> after.stream.writable.state
                        !is Writable && after.stream.writable.stored_error == error
                },
            }
        }),
{
}

/// A transform stream that fails does so on both sides with the same error; its transformer is
/// needed no longer, and a write that was held back is let through to hear of it.
pub proof fn law_both_sides_fail(w: TransformWorld, error: Value)
    requires
        w.stream.readable.controller is Default,
    ensures
        ({
            let after = w.errored(error);
            &&& w.stream.readable.slots.state is Readable ==> {
                &&& after.stream.readable.slots.state is Errored
                &&& after.stream.readable.slots.stored_error == error
            }
            &&& w.stream.readable.slots.state !is Readable ==> after.stream.readable
                == w.stream.readable
            &&& w.stream.writable.state is Writable ==> {
                &&& after.stream.writable.state is Erroring || after.stream.writable.state
                    is Errored
                &&& after.stream.writable.stored_error == error
            }
            &&& w.stream.writable.state !is Writable ==> after.stream.writable
                == w.stream.writable
            &&& transformer_dropped(w.stream.controller, after.stream.controller)
            &&& !after.stream.backpressure
            &&& w.stream.backpressure ==> after.scope.effects.last() == Effect::NewPromise(
                PromiseRef::BackpressureChange(w.stream.id),
            )
        }),
{
}

/// A transformer that ends the stream closes the readable side, at once where nothing waits in
/// it, and fails the writable side.
pub proof fn law_transformer_terminates(w: TransformWorld)
    requires
        w.stream.readable.controller is Default,
    ensures
        ({
            let after = w.terminated();
            let gone = Value::TypeError(Message::TransformTerminated);
            let queue = w.stream.readable.controller->Default_0.queue;
            &&& takes_output(w.stream) ==> {
                &&& after.stream.readable.controller->Default_0.close_requested
                &&& after.stream.readable.controller->Default_0.queue == queue
                &&& queue.len() == 0 ==> after.stream.readable.slots.state is Closed
                &&& queue.len() > 0 ==> after.stream.readable.slots == w.stream.readable.slots
            }
            &&& !takes_output(w.stream) ==> after.stream.readable == w.stream.readable
            &&& w.stream.writable.state is Writable ==> {
                &&& after.stream.writable.state is Erroring || after.stream.writable.state
                    is Errored
                &&& after.stream.writable.stored_error == gone
            }
            &&& w.stream.writable.state !is Writable ==> after.stream.writable
                == w.stream.writable
            &&& transformer_dropped(w.stream.controller, after.stream.controller)
            &&& !after.stream.backpressure
        }),
{
}

/// A chunk that is written goes to the transformer with a promise for what comes of it: at
/// once, or where writes are held back once that has changed. If the writable side is about to
/// fail by then, the write fails with its error instead.
pub proof fn law_chunk_goes_to_transformer(w: TransformWorld, chunk: Value, promise: u64)
    ensures
        ({
            let handed = Effect::Invoke {
                call: Call::Transform { transform: w.stream.id, chunk, outcome: promise },
                algorithm: w.stream.controller.transform_algorithm,
                receiver: w.stream.controller.algorithm_receiver,
            };
            let waits = Effect::WriteAfter {
                change: PromiseRef::BackpressureChange(w.stream.id),
                transform: w.stream.id,
                chunk,
                promise,
            };
            let failed = Effect::Reject(
                PromiseRef::Request(promise),
                w.stream.writable.stored_error,
            );
            let written = w.sink_write(chunk, promise);
            let later = w.write_after_backpressure(chunk, promise);
            &&& written.stream == w.stream
            &&& later.stream == w.stream
            &&& written.scope == w.scope.emit(
                if w.stream.backpressure {
                    waits
                } else {
                    handed
                },
            )
            &&& later.scope == w.scope.emit(
                if w.stream.writable.state is Erroring {
                    failed
                } else {
                    handed
                },
            )
        }),
{
}

/// A transformer that fails on a chunk fails the stream, and then the write of that chunk.
pub proof fn law_transformer_fails(w: TransformWorld, error: Value, promise: u64)
    ensures
        w.transform_rejected(error, promise).stream == w.errored(error).stream,
        w.transform_rejected(error, promise).scope == w.errored(error).scope.emit(
            Effect::Reject(PromiseRef::Request(promise), error),
        ),
{
}

/// Whether the transformer has been told of the end of a stream, once and for all.
pub open spec fn told_of_end(
    before: TransformWorld,
    after: TransformWorld,
    call: Call,
    algorithm: Algorithm,
) -> bool {
    if before.stream.controller.finish_promise {
        after == before
    } else {
        &&& after.stream == (TransformModel {
            controller: TransformStreamDefaultController {
                finish_promise: true,
                ..before.stream.controller
            },
            ..before.stream
        })
        &&& after.scope == before.scope.emit(
            Effect::NewPromise(PromiseRef::Finish(before.stream.id)),
        ).emit(
            Effect::Invoke {
                call,
                algorithm,
                receiver: before.stream.controller.algorithm_receiver,
            },
        ).emit(Effect::ClearTransform { transform: before.stream.id })
    }
}

/// A close of the writable side flushes the transformer; an abort of it, or a cancelation of the
/// readable side, has the transformer canceled with the reason. What comes first counts.
pub proof fn law_transformer_hears_of_end(w: TransformWorld, reason: Value)
    ensures
        told_of_end(
            w,
            w.sink_close(),
            Call::TransformFlush { transform: w.stream.id },
            w.stream.controller.flush_algorithm,
        ),
        told_of_end(
            w,
            w.sink_abort(reason),
            Call::TransformAbort { transform: w.stream.id, reason },
            w.stream.controller.cancel_algorithm,
        ),
        told_of_end(
            w,
            w.source_cancel(reason),
            Call::TransformCancel { transform: w.stream.id, reason },
            w.stream.controller.cancel_algorithm,
        ),
{
}

/// A transformer that has flushed lets the readable side end, unless that has failed, of which
/// the close then hears.
pub proof fn law_flushed(w: TransformWorld)
    requires
        w.stream.readable.controller is Default,
    ensures
        ({
            let after = w.sink_close_fulfilled();
            let finish = PromiseRef::Finish(w.stream.id);
            let queue = w.stream.readable.controller->Default_0.queue;
            &&& after.stream.writable == w.stream.writable
            &&& after.stream.controller == w.stream.controller
            &&& if w.stream.readable.slots.state is Errored {
                &&& after.stream == w.stream
                &&& after.scope == w.scope.emit(
                    Effect::Reject(finish, w.stream.readable.slots.stored_error),
                )
            } else {
                &&& after.scope.effects.last() == Effect::Resolve(finish, Value::Undefined)
                &&& takes_output(w.stream) && queue.len() == 0
                    ==> after.stream.readable.slots.state is Closed
                &&& takes_output(w.stream) && queue.len() > 0
                    ==> after.stream.readable.slots.state is Readable
                    && after.stream.readable.controller->Default_0.close_requested
                    && after.stream.readable.controller->Default_0.queue == queue
            }
        }),
{
}

/// A transformer that has been canceled by an abort of the writable side fails the readable
/// side with the reason of the abort, unless that has failed before, of which the abort then
/// hears.
pub proof fn law_abort_reaches_readable(w: TransformWorld, reason: Value)
    requires
        w.stream.readable.controller is Default,
    ensures
        ({
            let after = w.sink_abort_fulfilled(reason);
            let finish = PromiseRef::Finish(w.stream.id);
            &&& after.stream.writable == w.stream.writable
            &&& after.stream.controller == w.stream.controller
            &&& if w.stream.readable.slots.state is Errored {
                &&& after.stream == w.stream
                &&& after.scope == w.scope.emit(
                    Effect::Reject(finish, w.stream.readable.slots.stored_error),
                )
            } else {
                &&& after.scope.effects.last() == Effect::Resolve(finish, Value::Undefined)
                &&& w.stream.readable.slots.state is Readable ==> {
                    &&& after.stream.readable.slots.state is Errored
                    &&& after.stream.readable.slots.stored_error == reason
                }
                &&& w.stream.readable.slots.state is Closed ==> after.stream.readable
                    == w.stream.readable
            }
        }),
{
}

/// A transformer that fails to flush, or to be canceled by an abort, fails the readable side
/// and whoever waits for that with its error.
pub proof fn law_end_fails_readable(w: TransformWorld, error: Value)
    requires
        w.stream.readable.controller is Default,
    ensures
        ({
            let after = w.sink_rejected(error);
            &&& after.stream.writable == w.stream.writable
            &&& after.stream.controller == w.stream.controller
            &&& after.scope.effects.last() == Effect::Reject(
                PromiseRef::Finish(w.stream.id),
                error,
            )
            &&& w.stream.readable.slots.state is Readable ==> {
                &&& after.stream.readable.slots.state is Errored
                &&& after.stream.readable.slots.stored_error == error
            }
        }),
{
}

/// A cancelation of the readable side fails the writable side: with the reason where the
/// transformer took it well, and with its error where it did not; a write that was held back is
/// let through to hear of it. Where the writable side had failed before, the cancelation hears
/// of that.
pub proof fn law_cancelation_reaches_writable(w: TransformWorld, reason: Value)
    ensures
        ({
            let after = w.source_cancel_fulfilled(reason);
            let finish = PromiseRef::Finish(w.stream.id);
            if w.stream.writable.state is Errored {
                &&& after.stream == w.stream
                &&& after.scope == w.scope.emit(
                    Effect::Reject(finish, w.stream.writable.stored_error),
                )
            } else {
                &&& after.scope.effects.last() == Effect::Resolve(finish, Value::Undefined)
                &&& !after.stream.backpressure
                &&& after.stream.readable == w.stream.readable
                &&& w.stream.writable.state is Writable ==> {
                    &&& after.stream.writable.state is Erroring || after.stream.writable.state
                        is Errored
                    &&& after.stream.writable.stored_error == reason
                }
            }
        }),
        ({
            let after = w.source_cancel_rejected(reason);
            &&& after.scope.effects.last() == Effect::Reject(
                PromiseRef::Finish(w.stream.id),
                reason,
            )
            &&& !after.stream.backpressure
            &&& after.stream.readable == w.stream.readable
            &&& w.stream.writable.state is Writable ==> {
                &&& after.stream.writable.state is Erroring || after.stream.writable.state
                    is Errored
                &&& after.stream.writable.stored_error == reason
            }
        }),
{
}

/// What is written to a stream that passes its chunks on comes out at the other side as it is:
/// a read that waits there is handed it, and otherwise it comes last in the queue.
pub proof fn law_output_reaches_reader(w: TransformWorld, chunk: Value)
    requires
        w.stream.readable.controller is Default,
        takes_output(w.stream),
        w.stream.readable.controller->Default_0.size_algorithm is Undefined
            || w.stream.readable.controller->Default_0.size_algorithm is One,
    ensures
        ({
            let after = w.enqueue(chunk).0;
            let requests = w.stream.readable.slots.requests();
            let queue = w.stream.readable.controller->Default_0.queue;
            let last = after.stream.readable.controller->Default_0.queue.last();
            &&& requests.len() > 0 ==> {
                &&& after.scope.effects[w.scope.effects.len() as int]
                    == crate::readable::read_request::chunk_effect(requests[0], chunk)
                &&& after.stream.readable.slots.requests() == requests.drop_first()
                &&& after.stream.readable.controller->Default_0.queue == queue
            }
            &&& requests.len() == 0 ==> {
                &&& after.stream.readable.controller->Default_0.queue.len() == queue.len() + 1
                &&& after.stream.readable.controller->Default_0.queue.drop_last() == queue
                &&& last.value == chunk
                &&& last.size == (Number { bits: ONE })
            }
        }),
{
    crate::readable::value_laws::law_value_enqueued(w.readable_side().as_default(), chunk);
}

} // verus!
