//! How a pipe passes the end of one of its streams on to the other.

use vstd::prelude::*;

use crate::readable::pipe::{PipeAction, PipeState, PipeWorld, PipeWriteStep};
use crate::readable::pipe_laws::lemma_proceed_state;
use crate::readable::read_request::ReadRequest;
use crate::readable::slots::ReaderModel;
use crate::readable::stream_world::{ControllerModel, ReadableModel};
use crate::scope::{Algorithm, Call, Effect, Microtask, PromiseRef, Reaction};
use crate::value::{Message, Value};

verus! {

/// The algorithm by which the source of a stream hears of a cancelation.
pub open spec fn cancel_of(stream: ReadableModel) -> Algorithm {
    match stream.controller {
        ControllerModel::Default(controller) => controller.cancel_algorithm,
        ControllerModel::Byte(controller) => controller.cancel_algorithm,
    }
}

/// The `this` of the algorithms of the source of a stream.
pub open spec fn receiver_of(stream: ReadableModel) -> Value {
    match stream.controller {
        ControllerModel::Default(controller) => controller.receiver,
        ControllerModel::Byte(controller) => controller.receiver,
    }
}

/// Whether a shutdown has begun that is going to do `action` to the other stream, with
/// `error`, and to end the pipe with `original`. While the destination takes chunks, it
/// touches neither stream before the chunks that were read have been written.
pub open spec fn begun(
    before: PipeWorld,
    after: PipeWorld,
    action: PipeAction,
    error: Value,
    original: Option<Value>,
) -> bool {
    let open = before.dest.state is Writable && before.dest.close_request is None
        && before.dest.in_flight_close is None;
    let waits = open && before.state.pending_writes > 0;
    &&& after.state == (PipeState {
        shutting_down: true,
        shutdown_waiting: waits || before.state.shutdown_waiting,
        action_kind: action,
        action_error: error,
        original_error: original,
        finished: after.state.finished,
        ..before.state
    })
    &&& open ==> {
        &&& after.state.finished == before.state.finished
        &&& after.source == before.source
        &&& after.dest == before.dest
    }
    &&& waits ==> after.scope == before.scope
    &&& open && !waits ==> after.scope == before.scope.emit(
        Effect::Queue(Microtask::PipeShutdown { pipe: before.state.id }),
    )
}

proof fn lemma_begun(w: PipeWorld, action: PipeAction, error: Value, original: Option<Value>)
    requires
        !w.state.shutting_down,
    ensures
        begun(w, w.shutdown(action, error, original), action, error, original),
{
    lemma_proceed_state(
        w.with_state(
            PipeState {
                shutting_down: true,
                action_kind: action,
                action_error: error,
                original_error: original,
                ..w.state
            },
        ),
    );
}

/// A failure of the source begins a shutdown that aborts the destination with the same error,
/// unless that is prevented, and that the pipe ends with; whatever has been read and not yet
/// been written.
pub proof fn law_pipe_source_fails(w: PipeWorld, error: Value)
    requires
        !w.state.shutting_down,
    ensures
        begun(
            w,
            w.forward_error(error),
            if w.state.prevent_abort {
                PipeAction::Nothing
            } else {
                PipeAction::AbortDest
            },
            if w.state.prevent_abort {
                Value::Undefined
            } else {
                error
            },
            Some(error),
        ),
{
    lemma_begun(w, PipeAction::Nothing, Value::Undefined, Some(error));
    lemma_begun(w, PipeAction::AbortDest, error, Some(error));
}

/// A failure of the destination begins a shutdown that cancels the source with the same error,
/// unless that is prevented, and that the pipe ends with.
pub proof fn law_pipe_dest_fails(w: PipeWorld, error: Value)
    requires
        !w.state.shutting_down,
    ensures
        begun(
            w,
            w.backward_error(error),
            if w.state.prevent_cancel {
                PipeAction::Nothing
            } else {
                PipeAction::CancelSource
            },
            if w.state.prevent_cancel {
                Value::Undefined
            } else {
                error
            },
            Some(error),
        ),
{
    lemma_begun(w, PipeAction::Nothing, Value::Undefined, Some(error));
    lemma_begun(w, PipeAction::CancelSource, error, Some(error));
}

/// The end of the source begins a shutdown that closes the destination, unless that is
/// prevented, and that ends well.
pub proof fn law_pipe_source_closes(w: PipeWorld)
    requires
        !w.state.shutting_down,
    ensures
        begun(
            w,
            w.forward_close(),
            if w.state.prevent_close {
                PipeAction::Nothing
            } else {
                PipeAction::CloseWriter
            },
            Value::Undefined,
            None,
        ),
{
    lemma_begun(w, PipeAction::Nothing, Value::Undefined, None);
    lemma_begun(w, PipeAction::CloseWriter, Value::Undefined, None);
}

/// A signal that is aborted begins a shutdown that the pipe ends with its reason.
pub proof fn law_pipe_signal_aborts(w: PipeWorld, reason: Value)
    requires
        !w.state.shutting_down,
    ensures
        begun(
            w,
            w.abort_by_signal(reason),
            PipeAction::AbortAlgorithm,
            reason,
            Some(reason),
        ),
{
    lemma_begun(w, PipeAction::AbortAlgorithm, reason, Some(reason));
}

/// The destination is aborted with the error of the shutdown: its author is told, while it is
/// open, and the pipe goes on after that; of one that has ended nothing is asked.
pub proof fn law_pipe_aborts_dest(w: PipeWorld)
    requires
        w.state.action_kind is AbortDest,
    ensures
        w.proceed().state == w.state,
        w.proceed().source == w.source,
        w.proceed().dest == w.dest,
        w.dest.state is Writable || w.dest.state is Erroring ==> w.proceed().scope == w.scope.emit(
            Effect::NewPromise(PromiseRef::PipeAction(w.state.id)),
        ).emit(
            Effect::SignalAbort { stream: w.dest.id, reason: w.state.action_error },
        ).emit(Effect::PipeAbortSignaled { pipe: w.state.id }),
        w.dest.state is Closed || w.dest.state is Errored ==> w.proceed().scope == w.scope.emit(
            Effect::NewPromise(PromiseRef::PipeAction(w.state.id)),
        ).emit(
            Effect::Resolve(PromiseRef::PipeAction(w.state.id), Value::Undefined),
        ).emit(
            Effect::OnSettled(
                PromiseRef::PipeAction(w.state.id),
                Reaction::PipeAction { pipe: w.state.id },
            ),
        ),
{
    reveal(PipeWorld::proceed);
}

/// The abort of the destination after its author has heard of it: an open one begins to fail
/// with the error of the shutdown, and the pipe waits for that, or sees to its source next
/// where a signal asked for the shutdown.
pub proof fn law_pipe_dest_aborted(w: PipeWorld)
    ensures
        ({
            let after = w.abort_signaled();
            let aborted = match w.dest.pending_abort {
                Some(request) if w.dest.state is Writable || w.dest.state is Erroring =>
                    request.promise,
                _ => PromiseRef::PipeAction(w.state.id),
            };
            &&& after.state == w.state
            &&& after.source == w.source
            &&& w.dest.state is Writable && w.dest.pending_abort is None ==> {
                &&& after.dest.state is Erroring || after.dest.state is Errored
                &&& after.dest.stored_error == w.state.action_error
            }
            &&& after.scope.effects.last() == if w.state.action_kind is AbortAlgorithm {
                Effect::PipeCancelSource { pipe: w.state.id, aborted }
            } else {
                Effect::OnSettled(aborted, Reaction::PipeAction { pipe: w.state.id })
            }
        }),
{
}

/// The source is canceled with the error of the shutdown, and the pipe waits for that.
pub proof fn law_pipe_cancels_source(w: PipeWorld)
    requires
        w.state.action_kind is CancelSource,
    ensures
        ({
            let after = w.proceed();
            let place = after.scope.effects.len() - 2;
            let promise = PromiseRef::PipeCancel(w.state.id);
            &&& after.state == w.state
            &&& after.dest == w.dest
            &&& after.scope.effects[w.scope.effects.len() as int] == Effect::NewPromise(promise)
            &&& after.scope.effects.last() == Effect::OnSettled(
                promise,
                Reaction::PipeAction { pipe: w.state.id },
            )
            &&& after.source.slots.disturbed
            &&& w.source.slots.state is Readable ==> {
                &&& after.source.slots.state is Closed
                &&& after.scope.effects[place] == (Effect::Invoke {
                    call: Call::ReadableCancel {
                        stream: w.source.slots.id,
                        reason: w.state.action_error,
                        result: promise,
                    },
                    algorithm: cancel_of(w.source),
                    receiver: receiver_of(w.source),
                })
            }
            &&& w.source.slots.state is Closed ==> after.scope.effects[place] == Effect::Resolve(
                promise,
                Value::Undefined,
            )
            &&& w.source.slots.state is Errored ==> after.scope.effects[place] == Effect::Reject(
                promise,
                w.source.slots.stored_error,
            )
        }),
{
    reveal(PipeWorld::proceed);
}

/// The destination is closed behind the chunks that were written to it, and the pipe waits for
/// that. One that is being closed needs nothing more; one that has failed fails the action.
pub proof fn law_pipe_closes_dest(w: PipeWorld)
    requires
        w.state.action_kind is CloseWriter,
    ensures
        ({
            let after = w.proceed();
            let promise = PromiseRef::PipeAction(w.state.id);
            let closing = w.dest.close_request is Some || w.dest.in_flight_close is Some
                || w.dest.state is Closed;
            &&& after.state == w.state
            &&& after.source == w.source
            &&& after.scope.effects[w.scope.effects.len() as int] == Effect::NewPromise(promise)
            &&& after.scope.effects.last() == Effect::OnSettled(
                promise,
                Reaction::PipeAction { pipe: w.state.id },
            )
            &&& closing ==> after.dest == w.dest && after.scope.effects[after.scope.effects.len()
                - 2] == Effect::Resolve(promise, Value::Undefined)
            &&& !closing && w.dest.state is Errored ==> after.dest == w.dest
                && after.scope.effects[after.scope.effects.len() - 2] == Effect::Reject(
                promise,
                w.dest.stored_error,
            )
            &&& !closing && w.dest.state is Writable ==> if w.dest.controller.started
                && w.dest.in_flight_write is None && w.dest.controller.queue.len() == 0 {
                &&& after.dest.in_flight_close == Some(promise)
                &&& after.scope.effects[after.scope.effects.len() - 3] == (Effect::Invoke {
                    call: Call::WritableClose { stream: w.dest.id },
                    algorithm: w.dest.controller.close_algorithm,
                    receiver: w.dest.controller.receiver,
                })
            } else if w.dest.in_flight_write is Some || !w.dest.controller.started {
                &&& after.dest.close_request == Some(promise)
                &&& after.dest.controller.queue.len() == w.dest.controller.queue.len() + 1
                &&& after.dest.controller.queue.drop_last() == w.dest.controller.queue
                &&& after.dest.controller.queue.last().is_close_sentinel
            } else {
                true
            }
        }),
{
    reveal(PipeWorld::proceed);
    assert(w.dest.controller.queue.push(
        crate::writable::default_controller::close_sentinel(),
    ).drop_last() =~= w.dest.controller.queue);
}

/// What an aborted signal asks for: the destination is aborted, unless that is prevented, and
/// the source canceled, unless that is prevented, each only while it is open; the pipe waits
/// for both.
pub proof fn law_pipe_aborts_both(w: PipeWorld)
    requires
        w.state.action_kind is AbortAlgorithm,
    ensures
        ({
            let after = w.proceed();
            let action = PromiseRef::PipeAction(w.state.id);
            &&& after.state == w.state
            &&& after.dest == w.dest
            &&& w.state.prevent_abort ==> after == w.cancel_for_signal(None)
            &&& !w.state.prevent_abort && w.dest.state is Writable ==> {
                &&& after.source == w.source
                &&& after.scope == w.scope.emit(Effect::NewPromise(action)).emit(
                    Effect::SignalAbort { stream: w.dest.id, reason: w.state.action_error },
                ).emit(Effect::PipeAbortSignaled { pipe: w.state.id })
            }
            &&& !w.state.prevent_abort && w.dest.state !is Writable ==> {
                let settled = w.emit(Effect::NewPromise(action)).emit(
                    Effect::Resolve(action, Value::Undefined),
                );
                after == settled.cancel_for_signal(Some(action))
            }
        }),
{
    reveal(PipeWorld::proceed);
}

/// The part of the source in that.
pub proof fn law_pipe_cancels_for_signal(w: PipeWorld, aborted: Option<PromiseRef>)
    ensures
        ({
            let after = w.cancel_for_signal(aborted);
            let promise = PromiseRef::PipeCancel(w.state.id);
            let place = after.scope.effects.len() - 2;
            let both = Reaction::PipeAction { pipe: w.state.id };
            &&& after.state == w.state
            &&& after.dest == w.dest
            &&& w.state.prevent_cancel ==> after.source == w.source && after.scope == w.scope.emit(
                Effect::OnBothSettled(aborted, None, both),
            )
            &&& !w.state.prevent_cancel ==> {
                &&& after.scope.effects[w.scope.effects.len() as int] == Effect::NewPromise(
                    promise,
                )
                &&& after.scope.effects.last() == Effect::OnBothSettled(
                    aborted,
                    Some(promise),
                    both,
                )
                &&& w.source.slots.state is Readable ==> {
                    &&& after.source.slots.state is Closed
                    &&& after.scope.effects[place] == (Effect::Invoke {
                        call: Call::ReadableCancel {
                            stream: w.source.slots.id,
                            reason: w.state.action_error,
                            result: promise,
                        },
                        algorithm: cancel_of(w.source),
                        receiver: receiver_of(w.source),
                    })
                }
                &&& w.source.slots.state !is Readable ==> {
                    &&& after.source == w.source
                    &&& after.scope.effects[place] == Effect::Resolve(promise, Value::Undefined)
                }
            }
        }),
{
}

/// A shutdown without an action lets go of both streams and settles the pipe: it fails where
/// there is an error, and only there.
pub proof fn law_pipe_ends(w: PipeWorld)
    requires
        w.state.action_kind is Nothing,
    ensures
        w.proceed() == w.finalize(w.state.original_error),
{
    reveal(PipeWorld::proceed);
}

/// The end of a pipe leaves what its streams hold: it only takes the locks away, has its
/// signal forget it, and settles its promise once.
pub proof fn law_pipe_lets_go(w: PipeWorld, error: Option<Value>)
    ensures
        ({
            let after = w.finalize(error);
            let effects = after.scope.effects;
            &&& after.state == (PipeState { finished: true, ..w.state })
            &&& after.source.slots.reader is Unlocked
            &&& after.source.slots.state == w.source.slots.state
            &&& after.source.slots.stored_error == w.source.slots.stored_error
            &&& w.source.controller is Default ==> after.source.controller == w.source.controller
            &&& after.dest.writer is None
            &&& after.dest.state == w.dest.state
            &&& after.dest.stored_error == w.dest.stored_error
            &&& after.dest.controller == w.dest.controller
            &&& after.dest.write_requests == w.dest.write_requests
            &&& after.dest.in_flight_write == w.dest.in_flight_write
            &&& after.dest.in_flight_close == w.dest.in_flight_close
            &&& after.dest.close_request == w.dest.close_request
            &&& after.dest.pending_abort == w.dest.pending_abort
            &&& effects.last() == match error {
                Some(error) => Effect::Reject(PromiseRef::Pipe(w.state.id), error),
                None => Effect::Resolve(PromiseRef::Pipe(w.state.id), Value::Undefined),
            }
            &&& w.state.signal matches Some(signal) ==> effects[effects.len() - 2] == (
            Effect::RemoveAbortAlgorithm { signal, pipe: w.state.id })
        }),
{
}

/// A shutdown that waited goes on when the last write has settled, and does what it set out to
/// do: the failure of the source reaches the destination whatever was being written.
pub proof fn law_pipe_failure_follows_writes(w: PipeWorld, error: Value)
    requires
        !w.state.shutting_down,
        !w.state.prevent_abort,
        w.state.pending_writes == 1,
        w.dest.state is Writable,
        w.dest.close_request is None,
        w.dest.in_flight_close is None,
    ensures
        w.forward_error(error).write_settled().scope == w.scope.emit(
            Effect::NewPromise(PromiseRef::PipeAction(w.state.id)),
        ).emit(Effect::SignalAbort { stream: w.dest.id, reason: error }).emit(
            Effect::PipeAbortSignaled { pipe: w.state.id },
        ),
        w.forward_error(error).write_settled().state.original_error == Some(error),
        w.forward_error(error).write_settled().state.finished == w.state.finished,
{
    let drained = w.forward_error(error).with_state(
        PipeState { shutdown_waiting: false, ..w.forward_error(error).fewer_writes() },
    );
    law_pipe_source_fails(w, error);
    law_pipe_aborts_dest(drained);
}

/// The same for any shutdown: what it comes to is the same whether its writes were done when it
/// began or are done later, and a write less is all that changes before that.
pub proof fn law_pipe_resumes(w: PipeWorld)
    requires
        w.state.pending_writes > 0,
    ensures
        ({
            let fewer = PipeState {
                pending_writes: (w.state.pending_writes - 1) as u32,
                ..w.state
            };
            &&& w.state.pending_writes == 1 && w.state.shutdown_waiting ==> w.write_settled()
                == w.with_state(PipeState { shutdown_waiting: false, ..fewer }).proceed()
            &&& w.state.pending_writes > 1 || !w.state.shutdown_waiting ==> w.write_settled()
                == w.with_state(fewer)
            &&& w.proceed_deferred() == w.with_state(
                PipeState { shutdown_waiting: true, ..w.state },
            )
        }),
{
}

/// Without writes under way a shutdown goes on in its microtask.
pub proof fn law_pipe_goes_on(w: PipeWorld)
    requires
        w.state.pending_writes == 0,
    ensures
        w.proceed_deferred() == w.proceed(),
{
}

/// A pipe at work reads when its destination asks for chunks, and waits for that after each
/// write; the outcome of the write is waited for too.
pub proof fn law_pipe_turns(w: PipeWorld, promise: PromiseRef)
    requires
        !w.state.shutting_down,
    ensures
        w.step() == w.emit(
            Effect::OnFulfilled(
                PromiseRef::WriterReady(w.dest.id),
                Reaction::PipeReady { pipe: w.state.id },
            ),
        ),
        w.ready().source == w.from().read(ReadRequest::Pipe { pipe: w.state.id }).stream,
        w.ready().scope == w.from().read(ReadRequest::Pipe { pipe: w.state.id }).scope,
        w.ready().dest == w.dest,
        w.ready().state == w.state,
        w.written(promise) == w.emit(
            Effect::OnSettled(promise, Reaction::PipeWritten { pipe: w.state.id }),
        ).emit(
            Effect::OnFulfilled(
                PromiseRef::WriterReady(w.dest.id),
                Reaction::PipeReady { pipe: w.state.id },
            ),
        ),
{
}

/// A chunk that was read is written even while the pipe shuts down, and is dropped only once
/// the pipe has let go of its destination. The pipe hears of the outcome either way.
pub proof fn law_pipe_writes_what_it_read(w: PipeWorld, promise: PromiseRef)
    requires
        w.state.pending_writes > 0,
    ensures
        w.state.finished ==> w.write(promise) == (
            w.with_state(
                PipeState {
                    pending_chunk: Value::Undefined,
                    pending_writes: (w.state.pending_writes - 1) as u32,
                    ..w.state
                },
            ),
            PipeWriteStep::Done,
        ),
        !w.state.finished ==> {
            let (after, step) = w.write(promise);
            &&& after.state == (PipeState { pending_chunk: Value::Undefined, ..w.state })
            &&& after.source == w.source
            &&& match w.dest.controller.size_algorithm {
                Algorithm::Undefined | Algorithm::One => {
                    let written = w.to().write(w.state.pending_chunk, promise).0;
                    let told = written.scope.emit(
                        Effect::OnSettled(promise, Reaction::PipeWritten { pipe: w.state.id }),
                    );
                    &&& step is Done
                    &&& after.dest == written.stream
                    &&& after.scope == if w.state.shutting_down {
                        told
                    } else {
                        told.emit(
                            Effect::OnFulfilled(
                                PromiseRef::WriterReady(w.dest.id),
                                Reaction::PipeReady { pipe: w.state.id },
                            ),
                        )
                    }
                },
                algorithm => {
                    &&& step == (PipeWriteStep::NeedsSize {
                        algorithm,
                        chunk: w.state.pending_chunk,
                    })
                    &&& after.dest == w.dest
                    &&& after.scope == w.scope
                },
            }
        },
{
    assert(w.to().write(w.state.pending_chunk, promise).0.stream.id == w.dest.id) by {
        lemma_write_keeps_id(w, promise);
    }
}

proof fn lemma_write_keeps_id(w: PipeWorld, promise: PromiseRef)
    ensures
        w.to().write(w.state.pending_chunk, promise).0.stream.id == w.dest.id,
{
}

/// What a pipe looks out for when both its streams are open: a failure of either, and the end
/// of the source; and it begins by waiting for its destination to ask for a chunk.
pub proof fn law_pipe_looks_out(w: PipeWorld)
    requires
        !w.state.shutting_down,
        w.source.slots.state is Readable,
        w.dest.state is Writable || w.dest.state is Erroring,
        w.dest.close_request is None,
        w.dest.in_flight_close is None,
    ensures
        w.start() == w.emit(
            Effect::OnRejected(
                PromiseRef::ReaderClosed(w.source.slots.id),
                Reaction::PipeForwardError { pipe: w.state.id },
            ),
        ).emit(
            Effect::OnRejected(
                PromiseRef::WriterClosed(w.dest.id),
                Reaction::PipeBackwardError { pipe: w.state.id },
            ),
        ).emit(
            Effect::OnFulfilled(
                PromiseRef::ReaderClosed(w.source.slots.id),
                Reaction::PipeForwardClose { pipe: w.state.id },
            ),
        ).emit(
            Effect::OnFulfilled(
                PromiseRef::WriterReady(w.dest.id),
                Reaction::PipeReady { pipe: w.state.id },
            ),
        ),
{
}

/// A pipe that begins locks both streams, and a signal that has been aborted keeps it from
/// reading anything.
pub proof fn law_pipe_locks(w: PipeWorld, aborted: Option<Value>)
    requires
        w.source.slots.reader is Unlocked,
        w.dest.writer is None,
    ensures
        ({
            let locked = w.locked();
            &&& locked.source.slots.reader == ReaderModel::Default(Seq::empty())
            &&& locked.source.slots.disturbed
            &&& locked.source.slots.state == w.source.slots.state
            &&& locked.source.controller == w.source.controller
            &&& locked.dest.writer is Some
            &&& locked.dest.state == w.dest.state
            &&& locked.dest.controller == w.dest.controller
            &&& locked.state == w.state
            &&& w.state.signal is Some && aborted is Some ==> w.begin(aborted)
                == locked.native_passed().emit(
                Effect::NewPromise(PromiseRef::Pipe(w.state.id)),
            ).abort_by_signal(aborted->0)
            &&& w.state.signal is Some && aborted is None ==> w.begin(aborted)
                == locked.native_passed().emit(
                Effect::NewPromise(PromiseRef::Pipe(w.state.id)),
            ).emit(
                Effect::AddAbortAlgorithm { signal: w.state.signal->0, pipe: w.state.id },
            ).start()
            &&& w.state.signal is None ==> w.begin(aborted) == locked.native_passed().emit(
                Effect::NewPromise(PromiseRef::Pipe(w.state.id)),
            ).start()
        }),
{
}

/// A pipe whose stream has ended before it starts does for that end what it would have done
/// for it later.
pub proof fn law_pipe_starts_after_end(w: PipeWorld)
    requires
        !w.state.shutting_down,
    ensures
        w.source.slots.state is Errored ==> w.start().state.action_kind == (
        if w.state.prevent_abort {
            PipeAction::Nothing
        } else {
            PipeAction::AbortDest
        }),
        w.source.slots.state !is Errored && w.dest.state is Errored
            ==> w.start().state.action_kind == (if w.state.prevent_cancel {
            PipeAction::Nothing
        } else {
            PipeAction::CancelSource
        }),
        w.source.slots.state is Closed && w.dest.state !is Errored
            ==> w.start().state.action_kind == (if w.state.prevent_close {
            PipeAction::Nothing
        } else {
            PipeAction::CloseWriter
        }),
        w.source.slots.state is Readable && (w.dest.state is Closed || (w.dest.state !is Errored
            && (w.dest.close_request is Some || w.dest.in_flight_close is Some))) ==> {
            let closed = Value::TypeError(Message::PipeDestinationClosed);
            &&& w.start().state.action_kind == (if w.state.prevent_cancel {
                PipeAction::Nothing
            } else {
                PipeAction::CancelSource
            })
            &&& w.start().state.original_error == Some(closed)
            &&& !w.state.prevent_cancel ==> w.start().state.action_error == closed
        },
{
    let id = w.state.id;
    let reader = PromiseRef::ReaderClosed(w.source.slots.id);
    let writer = PromiseRef::WriterClosed(w.dest.id);
    let first = w.emit(Effect::OnRejected(reader, Reaction::PipeForwardError { pipe: id }));
    let second = first.emit(
        Effect::OnRejected(writer, Reaction::PipeBackwardError { pipe: id }),
    );
    let third = second.emit(
        Effect::OnFulfilled(reader, Reaction::PipeForwardClose { pipe: id }),
    );
    if w.source.slots.state is Errored {
        law_pipe_source_fails(w, w.source.slots.stored_error);
    } else if w.dest.state is Errored {
        law_pipe_dest_fails(first, w.dest.stored_error);
    } else if w.source.slots.state is Closed {
        law_pipe_source_closes(second);
    } else {
        law_pipe_dest_fails(third, Value::TypeError(Message::PipeDestinationClosed));
    }
}

} // verus!
