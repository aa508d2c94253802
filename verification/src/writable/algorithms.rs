//! The operations on writable streams.

use std::collections::VecDeque;

use vstd::prelude::*;

use crate::algorithms::{dequeue_value, enqueue_value_with_size, peek_queue_value, reset_queue};
use crate::number::{Number, ONE};
use crate::queuing::ValueWithSize;
use crate::scope::{Algorithm, Call, Effect, PromiseRef, Scope};
use crate::value::{Message, Value};
use crate::writable::default_controller::close_sentinel;
use crate::writable::default_writer::{PromiseState, WritableStreamDefaultWriter};
use crate::writable::laws::{
    law_abort, law_aborted, law_close, law_closed, law_controller_error, law_started, law_write,
    law_writer_lock, law_written,
};
use crate::writable::world::{write_rejections, AbortStep, WritableModel, WriteStep};
use crate::writable::writable_stream::{
    writable_world, PendingAbortRequest, WritableStream, WritableStreamState,
};

verus! {

/// Rejects the promises of writes, first come first served.
fn reject_write_requests(scope: &mut Scope, requests: VecDeque<PromiseRef>, error: &Value)
    ensures
        final(scope)@ == old(scope)@.emit_all(write_rejections(requests@, *error)),
{
    let ghost all = requests@;
    let mut waiting: VecDeque<PromiseRef> = requests;
    let ghost mut settled: int = 0;
    while waiting.len() > 0
        invariant
            0 <= settled <= all.len(),
            waiting@ == all.skip(settled),
            scope@ == old(scope)@.emit_all(write_rejections(all.take(settled), *error)),
        decreases waiting.len(),
    {
        match waiting.pop_front() {
            Some(promise) => {
                scope.emit(Effect::Reject(promise, error.clone()));
                proof {
                    settled = settled + 1;
                }
                assert(write_rejections(all.take(settled), *error) =~= write_rejections(
                    all.take(settled - 1),
                    *error,
                ).push(Effect::Reject(promise, *error)));
                assert(scope@ =~= old(scope)@.emit_all(
                    write_rejections(all.take(settled), *error),
                ));
            },
            None => {},
        }
    }
    assert(all.take(settled) =~= all);
}

impl WritableStream {
    /// Whether the stream is locked to a writer.
    pub fn is_writable_stream_locked(&self) -> (locked: bool)
        ensures
            locked == self@.locked(),
    {
        self.writer.is_some()
    }

    /// Whether a close waits or is under way.
    pub fn writable_stream_close_queued_or_in_flight(&self) -> (closing: bool)
        ensures
            closing == self@.close_queued_or_in_flight(),
    {
        self.close_request.is_some() || self.in_flight_close_request.is_some()
    }

    /// Whether the sink is at a write or a close.
    pub fn writable_stream_has_operation_marked_in_flight(&self) -> (in_flight: bool)
        ensures
            in_flight == self@.operation_in_flight(),
    {
        self.in_flight_write_request.is_some() || self.in_flight_close_request.is_some()
    }

    /// Whether the stream has closed or failed.
    fn has_ended(&self) -> (ended: bool)
        ensures
            ended == self@.ended(),
    {
        self.state == WritableStreamState::Closed || self.state == WritableStreamState::Errored
    }

    /// Rejects the writer's `ready` promise; where it had been settled, a new one takes its
    /// place.
    pub fn writable_stream_default_writer_ensure_ready_promise_rejected(
        &mut self,
        scope: &mut Scope,
        error: &Value,
    )
        ensures
            writable_world(*final(self), *final(scope)) == writable_world(
                *old(self),
                *old(scope),
            ).ready_rejected(*error),
    {
        let ready: PromiseRef = PromiseRef::WriterReady(self.id);
        match self.writer {
            Some(writer) => {
                if writer.ready != PromiseState::Pending {
                    scope.emit(Effect::NewPromise(ready));
                }
                scope.emit(Effect::Reject(ready, error.clone()));
                scope.emit(Effect::MarkHandled(ready));
                self.writer = Some(
                    WritableStreamDefaultWriter { ready: PromiseState::Rejected, ..writer },
                );
            },
            None => {},
        }
    }

    /// Rejects the writer's `closed` promise; where it had been settled, a new one takes its
    /// place.
    pub fn writable_stream_default_writer_ensure_closed_promise_rejected(
        &mut self,
        scope: &mut Scope,
        error: &Value,
    )
        ensures
            writable_world(*final(self), *final(scope)) == writable_world(
                *old(self),
                *old(scope),
            ).closed_ensured_rejected(*error),
    {
        let closed: PromiseRef = PromiseRef::WriterClosed(self.id);
        match self.writer {
            Some(writer) => {
                if writer.closed != PromiseState::Pending {
                    scope.emit(Effect::NewPromise(closed));
                }
                scope.emit(Effect::Reject(closed, error.clone()));
                scope.emit(Effect::MarkHandled(closed));
                self.writer = Some(
                    WritableStreamDefaultWriter { closed: PromiseState::Rejected, ..writer },
                );
            },
            None => {},
        }
    }

    /// Rejects the promise of a close that waits and the writer's `closed` promise, where
    /// there are any.
    pub fn writable_stream_reject_close_and_closed_promise_if_needed(
        &mut self,
        scope: &mut Scope,
    )
        ensures
            writable_world(*final(self), *final(scope)) == writable_world(
                *old(self),
                *old(scope),
            ).close_and_closed_rejected(),
    {
        match self.close_request.take() {
            Some(promise) => {
                scope.emit(
                    Effect::Reject(promise, self.stored_error.clone()),
                );
            },
            None => {},
        }
        let closed: PromiseRef = PromiseRef::WriterClosed(self.id);
        match self.writer {
            Some(writer) => {
                scope.emit(Effect::Reject(closed, self.stored_error.clone()));
                scope.emit(Effect::MarkHandled(closed));
                self.writer = Some(
                    WritableStreamDefaultWriter {
                        closed: writer.closed.settled(PromiseState::Rejected),
                        ..writer
                    },
                );
            },
            None => {},
        }
    }

    /// Lets go of the algorithms, once they will not be called any more.
    pub fn writable_stream_default_controller_clear_algorithms(&mut self)
        ensures
            final(self)@ == (WritableModel {
                controller: old(self)@.controller.cleared_algorithms(),
                ..old(self)@
            }),
            old(self)@.wf() ==> final(self)@.wf(),
    {
        self.controller.write_algorithm = Algorithm::Undefined;
        self.controller.close_algorithm = Algorithm::Undefined;
        self.controller.abort_algorithm = Algorithm::Undefined;
        self.controller.strategy_size_algorithm = Algorithm::Undefined;
    }

    /// Fails the stream for good.
    pub fn writable_stream_finish_erroring(&mut self, scope: &mut Scope)
        ensures
            writable_world(*final(self), *final(scope)) == writable_world(
                *old(self),
                *old(scope),
            ).finish_erroring(),
    {
        self.state = WritableStreamState::Errored;
        reset_queue(&mut self.controller);
        assert(self.controller@ =~= old(self)@.controller.reset_queue());
        let mut requests: VecDeque<PromiseRef> = VecDeque::new();
        std::mem::swap(&mut requests, &mut self.write_requests);
        reject_write_requests(scope, requests, &self.stored_error);
        match self.pending_abort_request.take() {
            None => {
                self.writable_stream_reject_close_and_closed_promise_if_needed(scope);
            },
            Some(request) => {
                if request.was_already_erroring {
                    scope.emit(
                        Effect::Reject(
                            request.promise,
                            self.stored_error.clone(),
                        ),
                    );
                    self.writable_stream_reject_close_and_closed_promise_if_needed(scope);
                } else {
                    self.abort_steps(scope, request.reason, request.promise);
                }
            },
        }
    }

    /// Tells the sink of an abort.
    fn abort_steps(&self, scope: &mut Scope, reason: Value, promise: PromiseRef)
        ensures
            final(scope)@ == old(scope)@.emit(
                Effect::Invoke {
                    call: Call::WritableAbort { stream: self@.id, reason, promise },
                    algorithm: self@.controller.abort_algorithm,
                    receiver: self@.controller.receiver,
                },
            ).emit(Effect::ClearAlgorithms { stream: self@.id }),
    {
        scope.emit(
            Effect::Invoke {
                call: Call::WritableAbort { stream: self.id, reason, promise },
                algorithm: self.controller.abort_algorithm,
                receiver: self.controller.algorithm_receiver.clone(),
            },
        );
        scope.emit(Effect::ClearAlgorithms { stream: self.id });
    }

    /// Begins to fail the stream.
    pub fn writable_stream_start_erroring(&mut self, scope: &mut Scope, reason: Value)
        requires
            old(self)@.state is Writable,
        ensures
            writable_world(*final(self), *final(scope)) == writable_world(
                *old(self),
                *old(scope),
            ).start_erroring(reason),
    {
        self.state = WritableStreamState::Erroring;
        self.stored_error = reason.clone();
        self.writable_stream_default_writer_ensure_ready_promise_rejected(scope, &reason);
        if !self.writable_stream_has_operation_marked_in_flight() && self.controller.started {
            self.writable_stream_finish_erroring(scope);
        }
    }

    /// Takes note that the sink has failed.
    pub fn writable_stream_deal_with_rejection(&mut self, scope: &mut Scope, error: Value)
        requires
            !old(self)@.ended(),
        ensures
            writable_world(*final(self), *final(scope)) == writable_world(
                *old(self),
                *old(scope),
            ).deal_with_rejection(error),
    {
        if self.state == WritableStreamState::Writable {
            self.writable_stream_start_erroring(scope, error);
            return ;
        }
        self.writable_stream_finish_erroring(scope);
    }

    /// Fails the stream by its controller.
    pub fn writable_stream_default_controller_error(&mut self, scope: &mut Scope, error: Value)
        requires
            old(self)@.state is Writable,
        ensures
            writable_world(*final(self), *final(scope)) == writable_world(
                *old(self),
                *old(scope),
            ).controller_error(error),
    {
        self.writable_stream_default_controller_clear_algorithms();
        self.writable_stream_start_erroring(scope, error);
    }

    /// Fails the stream by its controller, if it can still fail.
    pub fn writable_stream_default_controller_error_if_needed(
        &mut self,
        scope: &mut Scope,
        error: Value,
    )
        ensures
            writable_world(*final(self), *final(scope)) == writable_world(
                *old(self),
                *old(scope),
            ).controller_error_if_needed(error),
            old(self)@.wf() ==> final(self)@.wf(),
    {
        proof {
            if self@.wf() {
                law_controller_error(writable_world(*self, *scope), error);
            }
        }
        if self.state == WritableStreamState::Writable {
            self.writable_stream_default_controller_error(scope, error);
        }
    }

    /// The room below the high-water mark.
    pub fn writable_stream_default_controller_get_desired_size(&self) -> (size: Number)
        ensures
            size == self@.desired_size(),
    {
        self.controller.strategy_hwm.subtract(self.controller.queue_total_size)
    }

    /// Whether the queue is as full as it should be.
    pub fn writable_stream_default_controller_get_backpressure(&self) -> (backpressure: bool)
        ensures
            backpressure == self@.full(),
    {
        self.writable_stream_default_controller_get_desired_size().is_not_positive()
    }

    /// Changes the backpressure signal, and the writer's `ready` promise with it.
    pub fn writable_stream_update_backpressure(&mut self, scope: &mut Scope, backpressure: bool)
        ensures
            writable_world(*final(self), *final(scope)) == writable_world(
                *old(self),
                *old(scope),
            ).update_backpressure(backpressure),
    {
        let ready: PromiseRef = PromiseRef::WriterReady(self.id);
        match self.writer {
            Some(writer) => {
                if backpressure != self.backpressure {
                    if backpressure {
                        scope.emit(Effect::NewPromise(ready));
                        self.writer = Some(
                            WritableStreamDefaultWriter { ready: PromiseState::Pending, ..writer },
                        );
                    } else {
                        scope.emit(Effect::Resolve(ready, Value::Undefined));
                        self.writer = Some(
                            WritableStreamDefaultWriter {
                                ready: writer.ready.settled(PromiseState::Fulfilled),
                                ..writer
                            },
                        );
                    }
                }
            },
            None => {},
        }
        self.backpressure = backpressure;
    }

    /// Marks the first write that waits as under way.
    pub fn writable_stream_mark_first_write_request_in_flight(&mut self)
        requires
            old(self)@.write_requests.len() > 0,
        ensures
            final(self)@ == (WritableModel {
                in_flight_write: Some(old(self)@.write_requests[0]),
                write_requests: old(self)@.write_requests.drop_first(),
                ..old(self)@
            }),
    {
        self.in_flight_write_request = self.write_requests.pop_front();
        assert(self.write_requests@ =~= old(self)@.write_requests.drop_first());
    }

    /// Marks the close that waits as under way.
    pub fn writable_stream_mark_close_request_in_flight(&mut self)
        ensures
            final(self)@ == (WritableModel {
                in_flight_close: old(self)@.close_request,
                close_request: None,
                ..old(self)@
            }),
    {
        self.in_flight_close_request = self.close_request.take();
    }

    /// Has the sink write the first chunk of the queue.
    pub fn writable_stream_default_controller_process_write(&mut self, scope: &mut Scope)
        requires
            old(self)@.write_requests.len() > 0,
            old(self)@.controller.queue.len() > 0,
        ensures
            writable_world(*final(self), *final(scope)) == writable_world(
                *old(self),
                *old(scope),
            ).process_write(),
    {
        let chunk: Value = peek_queue_value(&self.controller);
        self.writable_stream_mark_first_write_request_in_flight();
        scope.emit(
            Effect::Invoke {
                call: Call::WritableWrite { stream: self.id, chunk },
                algorithm: self.controller.write_algorithm,
                receiver: self.controller.algorithm_receiver.clone(),
            },
        );
    }

    /// Has the sink close.
    pub fn writable_stream_default_controller_process_close(&mut self, scope: &mut Scope)
        requires
            old(self)@.controller.queue.len() > 0,
        ensures
            writable_world(*final(self), *final(scope)) == writable_world(
                *old(self),
                *old(scope),
            ).process_close(),
    {
        self.writable_stream_mark_close_request_in_flight();
        let _ = dequeue_value(&mut self.controller);
        assert(self.controller@ =~= old(self)@.controller.dequeued());
        scope.emit(
            Effect::Invoke {
                call: Call::WritableClose { stream: self.id },
                algorithm: self.controller.close_algorithm,
                receiver: self.controller.algorithm_receiver.clone(),
            },
        );
        scope.emit(Effect::ClearAlgorithms { stream: self.id });
    }

    /// Hands the sink what comes first in the queue, where the sink is free.
    pub fn writable_stream_default_controller_advance_queue_if_needed(
        &mut self,
        scope: &mut Scope,
    )
        requires
            ({
                let stream = old(self)@;
                stream.state is Writable && stream.in_flight_write is None
                    && stream.controller.queue.len() > 0
                    && !stream.controller.queue[0].is_close_sentinel
                    ==> stream.write_requests.len() > 0
            }),
            !old(self)@.ended(),
        ensures
            writable_world(*final(self), *final(scope)) == writable_world(
                *old(self),
                *old(scope),
            ).advance_queue(),
    {
        if !self.controller.started {
            return ;
        }
        if self.in_flight_write_request.is_some() {
            return ;
        }
        if self.state == WritableStreamState::Erroring {
            self.writable_stream_finish_erroring(scope);
            return ;
        }
        if self.controller.queue.len() == 0 {
            return ;
        }
        if self.controller.queue[0].is_close_sentinel {
            self.writable_stream_default_controller_process_close(scope);
        } else {
            self.writable_stream_default_controller_process_write(scope);
        }
    }

    /// Brings the backpressure signal up to date, while chunks are still taken.
    fn refresh_backpressure(&mut self, scope: &mut Scope)
        ensures
            writable_world(*final(self), *final(scope)) == writable_world(
                *old(self),
                *old(scope),
            ).refresh_backpressure(),
    {
        if !self.writable_stream_close_queued_or_in_flight() && self.state
            == WritableStreamState::Writable {
            let backpressure: bool = self.writable_stream_default_controller_get_backpressure();
            self.writable_stream_update_backpressure(scope, backpressure);
        }
    }

    /// Puts a chunk of the given size into the queue.
    pub fn writable_stream_default_controller_write(
        &mut self,
        scope: &mut Scope,
        chunk: Value,
        chunk_size: Number,
    )
        requires
            old(self)@.state is Writable,
            old(self)@.write_requests.len() > 0,
        ensures
            writable_world(*final(self), *final(scope)) == writable_world(
                *old(self),
                *old(scope),
            ).controller_write(chunk, chunk_size),
    {
        match enqueue_value_with_size(&mut self.controller, chunk, chunk_size) {
            Ok(()) => {},
            Err(error) => {
                assert(self.controller@ =~= old(self)@.controller);
                self.writable_stream_default_controller_error_if_needed(scope, error);
                return ;
            },
        }
        assert(self.controller@ =~= old(self)@.controller.enqueued(chunk, chunk_size));
        self.refresh_backpressure(scope);
        self.writable_stream_default_controller_advance_queue_if_needed(scope);
    }

    /// Adds the promise of a write.
    pub fn writable_stream_add_write_request(&mut self, promise: PromiseRef)
        requires
            old(self)@.state is Writable,
        ensures
            final(self)@ == (WritableModel {
                write_requests: old(self)@.write_requests.push(promise),
                ..old(self)@
            }),
    {
        self.write_requests.push_back(promise);
    }

    /// Writes a chunk on behalf of the writer of the stream. Where the strategy has a size
    /// function, that is to be called next.
    pub fn writable_stream_default_writer_write(
        &mut self,
        scope: &mut Scope,
        chunk: &Value,
        promise: PromiseRef,
    ) -> (step: WriteStep)
        requires
            old(self)@.wf(),
        ensures
            (writable_world(*final(self), *final(scope)), step) == writable_world(
                *old(self),
                *old(scope),
            ).write(*chunk, promise),
            old(self)@.locked() ==> final(self)@.wf(),
    {
        match self.controller.strategy_size_algorithm {
            Algorithm::Undefined | Algorithm::One => {
                self.writable_stream_default_writer_write_sized(
                    scope,
                    true,
                    chunk.clone(),
                    Ok(Number { bits: ONE }),
                    promise,
                );
                WriteStep::Done
            },
            algorithm => WriteStep::NeedsSize(algorithm),
        }
    }

    /// Writes a chunk once its size is known, or what kept it from being known. `owned` tells
    /// whether the stream is still locked to the writer; `promise` settles with the outcome.
    pub fn writable_stream_default_writer_write_sized(
        &mut self,
        scope: &mut Scope,
        owned: bool,
        chunk: Value,
        size: Result<Number, Value>,
        promise: PromiseRef,
    )
        requires
            old(self)@.wf(),
        ensures
            writable_world(*final(self), *final(scope)) == writable_world(
                *old(self),
                *old(scope),
            ).write_sized(owned, chunk, size, promise),
            (owned ==> old(self)@.locked()) ==> final(self)@.wf(),
    {
        proof {
            if owned ==> self@.locked() {
                law_write(writable_world(*self, *scope), owned, chunk, size, promise);
            }
        }
        let chunk_size: Number = match size {
            Ok(size) => size,
            Err(error) => {
                self.writable_stream_default_controller_error_if_needed(scope, error);
                Number { bits: ONE }
            },
        };
        if !owned {
            scope.emit(Effect::Reject(promise, Value::TypeError(Message::WriteReleased)));
            return ;
        }
        if self.state == WritableStreamState::Errored {
            scope.emit(Effect::Reject(promise, self.stored_error.clone()));
            return ;
        }
        if self.writable_stream_close_queued_or_in_flight() || self.state
            == WritableStreamState::Closed {
            scope.emit(Effect::Reject(promise, Value::TypeError(Message::WriteClosing)));
            return ;
        }
        if self.state == WritableStreamState::Erroring {
            scope.emit(Effect::Reject(promise, self.stored_error.clone()));
            return ;
        }
        self.writable_stream_add_write_request(promise);
        self.writable_stream_default_controller_write(scope, chunk, chunk_size);
    }

    /// Puts the sentinel of a close into the queue.
    pub fn writable_stream_default_controller_close(&mut self, scope: &mut Scope)
        requires
            ({
                let stream = old(self)@;
                stream.state is Writable && stream.in_flight_write is None
                    && stream.controller.queue.len() > 0
                    && !stream.controller.queue[0].is_close_sentinel
                    ==> stream.write_requests.len() > 0
            }),
            !old(self)@.ended(),
        ensures
            writable_world(*final(self), *final(scope)) == ({
                let w = writable_world(*old(self), *old(scope));
                w.with_controller(
                    w.stream.controller.with_queue(
                        w.stream.controller.queue.push(close_sentinel()),
                        w.stream.controller.total,
                    ),
                ).advance_queue()
            }),
    {
        self.controller.queue.push_back(
            ValueWithSize {
                value: Value::Undefined,
                size: Number { bits: 0 },
                is_close_sentinel: true,
            },
        );
        self.writable_stream_default_controller_advance_queue_if_needed(scope);
    }

    /// Closes the stream; `promise` settles with the outcome.
    pub fn writable_stream_close(&mut self, scope: &mut Scope, promise: PromiseRef)
        requires
            old(self)@.wf(),
            !old(self)@.close_queued_or_in_flight(),
        ensures
            writable_world(*final(self), *final(scope)) == writable_world(
                *old(self),
                *old(scope),
            ).close(promise),
            final(self)@.wf(),
    {
        proof {
            law_close(writable_world(*self, *scope), promise);
        }
        if self.has_ended() {
            scope.emit(
                Effect::Reject(
                    promise,
                    Value::TypeError(Message::CloseNotWritable),
                ),
            );
            return ;
        }
        self.close_request = Some(promise);
        let ready: PromiseRef = PromiseRef::WriterReady(self.id);
        match self.writer {
            Some(writer) => {
                if self.backpressure && self.state == WritableStreamState::Writable {
                    scope.emit(Effect::Resolve(ready, Value::Undefined));
                    self.writer = Some(
                        WritableStreamDefaultWriter {
                            ready: writer.ready.settled(PromiseState::Fulfilled),
                            ..writer
                        },
                    );
                }
            },
            None => {},
        }
        self.writable_stream_default_controller_close(scope);
    }

    /// Closes the stream on behalf of a pipe, whatever its state.
    pub fn writable_stream_default_writer_close_with_error_propagation(
        &mut self,
        scope: &mut Scope,
        promise: PromiseRef,
    )
        requires
            old(self)@.wf(),
        ensures
            writable_world(*final(self), *final(scope)) == writable_world(
                *old(self),
                *old(scope),
            ).close_with_error_propagation(promise),
            final(self)@.wf(),
    {
        if self.writable_stream_close_queued_or_in_flight() || self.state
            == WritableStreamState::Closed {
            scope.emit(Effect::Resolve(promise, Value::Undefined));
            return ;
        }
        if self.state == WritableStreamState::Errored {
            scope.emit(Effect::Reject(promise, self.stored_error.clone()));
            return ;
        }
        self.writable_stream_close(scope, promise);
    }

    /// Aborts the stream. The author hears of it first; then
    /// [`WritableStream::writable_stream_abort_signaled`] does the rest.
    pub fn writable_stream_abort(
        &mut self,
        scope: &mut Scope,
        reason: Value,
        promise: PromiseRef,
    ) -> (step: AbortStep)
        ensures
            *final(self) == *old(self),
            (writable_world(*final(self), *final(scope)), step) == writable_world(
                *old(self),
                *old(scope),
            ).abort(reason, promise),
    {
        if self.has_ended() {
            scope.emit(Effect::Resolve(promise, Value::Undefined));
            return AbortStep::Done;
        }
        scope.emit(Effect::SignalAbort { stream: self.id, reason });
        AbortStep::Signaling
    }

    /// Aborts the stream, after the author has heard of it. Gives the promise that tells
    /// the outcome.
    pub fn writable_stream_abort_signaled(
        &mut self,
        scope: &mut Scope,
        reason: Value,
        promise: PromiseRef,
    ) -> (outcome: PromiseRef)
        ensures
            (writable_world(*final(self), *final(scope)), outcome) == writable_world(
                *old(self),
                *old(scope),
            ).abort_signaled(reason, promise),
            old(self)@.wf() ==> final(self)@.wf(),
    {
        proof {
            if self@.wf() {
                law_abort(writable_world(*self, *scope), reason, promise);
            }
        }
        if self.has_ended() {
            scope.emit(Effect::Resolve(promise, Value::Undefined));
            return promise;
        }
        match &self.pending_abort_request {
            Some(request) => {
                return request.promise;
            },
            None => {},
        }
        if self.state == WritableStreamState::Erroring {
            self.pending_abort_request = Some(
                PendingAbortRequest {
                    promise,
                    reason: Value::Undefined,
                    was_already_erroring: true,
                },
            );
        } else {
            self.pending_abort_request = Some(
                PendingAbortRequest {
                    promise,
                    reason: reason.clone(),
                    was_already_erroring: false,
                },
            );
            self.writable_stream_start_erroring(scope, reason);
        }
        promise
    }

    /// Takes note that the sink has closed.
    pub fn writable_stream_finish_in_flight_close(&mut self, scope: &mut Scope)
        requires
            old(self)@.in_flight_close is Some,
        ensures
            writable_world(*final(self), *final(scope)) == writable_world(
                *old(self),
                *old(scope),
            ).finish_in_flight_close(),
    {
        match self.in_flight_close_request.take() {
            Some(promise) => {
                scope.emit(Effect::Resolve(promise, Value::Undefined));
            },
            None => {},
        }
        if self.state == WritableStreamState::Erroring {
            self.stored_error = Value::Undefined;
            match self.pending_abort_request.take() {
                Some(request) => {
                    scope.emit(
                        Effect::Resolve(request.promise, Value::Undefined),
                    );
                },
                None => {},
            }
        }
        self.state = WritableStreamState::Closed;
        match self.writer {
            Some(writer) => {
                scope.emit(Effect::Resolve(PromiseRef::WriterClosed(self.id), Value::Undefined));
                self.writer = Some(
                    WritableStreamDefaultWriter {
                        closed: writer.closed.settled(PromiseState::Fulfilled),
                        ..writer
                    },
                );
            },
            None => {},
        }
    }

    /// Takes note that the sink has failed to close.
    pub fn writable_stream_finish_in_flight_close_with_error(
        &mut self,
        scope: &mut Scope,
        error: Value,
    )
        requires
            old(self)@.in_flight_close is Some,
            !old(self)@.ended(),
        ensures
            writable_world(*final(self), *final(scope)) == writable_world(
                *old(self),
                *old(scope),
            ).finish_in_flight_close_with_error(error),
    {
        match self.in_flight_close_request.take() {
            Some(promise) => {
                scope.emit(Effect::Reject(promise, error.clone()));
            },
            None => {},
        }
        match self.pending_abort_request.take() {
            Some(request) => {
                scope.emit(Effect::Reject(request.promise, error.clone()));
            },
            None => {},
        }
        self.writable_stream_deal_with_rejection(scope, error);
    }

    /// Takes note that the sink has started.
    pub fn ws_start_promise_fulfilled(&mut self, scope: &mut Scope)
        requires
            old(self)@.wf(),
            !old(self)@.ended(),
            !old(self)@.controller.started,
        ensures
            writable_world(*final(self), *final(scope)) == writable_world(
                *old(self),
                *old(scope),
            ).start_fulfilled(),
            final(self)@.wf(),
    {
        proof {
            law_started(writable_world(*self, *scope), Value::Undefined);
        }
        self.controller.started = true;
        self.writable_stream_default_controller_advance_queue_if_needed(scope);
    }

    /// Takes note that the sink has failed to start.
    pub fn ws_start_promise_rejected(&mut self, scope: &mut Scope, error: Value)
        requires
            !old(self)@.ended(),
        ensures
            writable_world(*final(self), *final(scope)) == writable_world(
                *old(self),
                *old(scope),
            ).start_rejected(error),
            old(self)@.wf() && !old(self)@.controller.started ==> final(self)@.wf(),
    {
        proof {
            if self@.wf() && !self@.controller.started {
                law_started(writable_world(*self, *scope), error);
            }
        }
        self.controller.started = true;
        self.writable_stream_deal_with_rejection(scope, error);
    }

    /// Resolves the promise of the write that the sink was at.
    pub fn writable_stream_finish_in_flight_write(&mut self, scope: &mut Scope)
        requires
            old(self)@.in_flight_write is Some,
        ensures
            final(self)@ == (WritableModel { in_flight_write: None, ..old(self)@ }),
            final(scope)@ == old(scope)@.emit(
                Effect::Resolve(
                    old(self)@.in_flight_write->0,
                    Value::Undefined,
                ),
            ),
    {
        match self.in_flight_write_request.take() {
            Some(promise) => {
                scope.emit(Effect::Resolve(promise, Value::Undefined));
            },
            None => {},
        }
    }

    /// Takes note that the sink has written a chunk.
    pub fn ws_write_promise_fulfilled(&mut self, scope: &mut Scope)
        requires
            old(self)@.wf(),
            old(self)@.in_flight_write is Some,
        ensures
            writable_world(*final(self), *final(scope)) == writable_world(
                *old(self),
                *old(scope),
            ).write_fulfilled(),
            final(self)@.wf(),
    {
        proof {
            law_written(writable_world(*self, *scope), Value::Undefined);
        }
        self.writable_stream_finish_in_flight_write(scope);
        let _ = dequeue_value(&mut self.controller);
        assert(self.controller@ =~= old(self)@.controller.dequeued());
        self.refresh_backpressure(scope);
        self.writable_stream_default_controller_advance_queue_if_needed(scope);
    }

    /// Rejects the promise of the write that the sink was at, and fails the stream.
    pub fn writable_stream_finish_in_flight_write_with_error(
        &mut self,
        scope: &mut Scope,
        error: Value,
    )
        requires
            old(self)@.in_flight_write is Some,
            !old(self)@.ended(),
        ensures
            writable_world(*final(self), *final(scope)) == ({
                let w = writable_world(*old(self), *old(scope));
                w.with_stream(WritableModel { in_flight_write: None, ..w.stream }).reject(
                    w.stream.in_flight_write->0,
                    error,
                ).deal_with_rejection(error)
            }),
    {
        match self.in_flight_write_request.take() {
            Some(promise) => {
                scope.emit(Effect::Reject(promise, error.clone()));
            },
            None => {},
        }
        self.writable_stream_deal_with_rejection(scope, error);
    }

    /// Takes note that the sink has failed to write a chunk.
    pub fn ws_write_promise_rejected(&mut self, scope: &mut Scope, error: Value)
        requires
            old(self)@.in_flight_write is Some,
            !old(self)@.ended(),
        ensures
            writable_world(*final(self), *final(scope)) == writable_world(
                *old(self),
                *old(scope),
            ).write_rejected(error),
            old(self)@.wf() ==> final(self)@.wf(),
    {
        proof {
            if self@.wf() {
                law_written(writable_world(*self, *scope), error);
            }
        }
        if self.state == WritableStreamState::Writable {
            self.writable_stream_default_controller_clear_algorithms();
        }
        self.writable_stream_finish_in_flight_write_with_error(scope, error);
    }

    /// Takes note that the sink has closed.
    pub fn ws_close_promise_fulfilled(&mut self, scope: &mut Scope)
        requires
            old(self)@.in_flight_close is Some,
        ensures
            writable_world(*final(self), *final(scope)) == writable_world(
                *old(self),
                *old(scope),
            ).finish_in_flight_close(),
            old(self)@.wf() ==> final(self)@.wf(),
    {
        proof {
            if self@.wf() {
                law_closed(writable_world(*self, *scope), Value::Undefined);
            }
        }
        self.writable_stream_finish_in_flight_close(scope);
    }

    /// Takes note that the sink has failed to close.
    pub fn ws_close_promise_rejected(&mut self, scope: &mut Scope, error: Value)
        requires
            old(self)@.in_flight_close is Some,
            !old(self)@.ended(),
        ensures
            writable_world(*final(self), *final(scope)) == writable_world(
                *old(self),
                *old(scope),
            ).finish_in_flight_close_with_error(error),
            old(self)@.wf() ==> final(self)@.wf(),
    {
        proof {
            if self@.wf() {
                law_closed(writable_world(*self, *scope), error);
            }
        }
        self.writable_stream_finish_in_flight_close_with_error(scope, error);
    }

    /// Takes note that the sink has dealt with an abort.
    pub fn ws_abort_promise_fulfilled(&mut self, scope: &mut Scope, promise: PromiseRef)
        ensures
            writable_world(*final(self), *final(scope)) == writable_world(
                *old(self),
                *old(scope),
            ).abort_fulfilled(promise),
            old(self)@.wf() && old(self)@.state is Errored ==> final(self)@.wf(),
    {
        proof {
            if self@.wf() && self@.state is Errored {
                law_aborted(writable_world(*self, *scope), promise, Value::Undefined);
            }
        }
        scope.emit(Effect::Resolve(promise, Value::Undefined));
        self.writable_stream_reject_close_and_closed_promise_if_needed(scope);
    }

    /// Takes note that the sink has failed over an abort.
    pub fn ws_abort_promise_rejected(
        &mut self,
        scope: &mut Scope,
        promise: PromiseRef,
        error: Value,
    )
        ensures
            writable_world(*final(self), *final(scope)) == writable_world(
                *old(self),
                *old(scope),
            ).abort_rejected(promise, error),
            old(self)@.wf() && old(self)@.state is Errored ==> final(self)@.wf(),
    {
        proof {
            if self@.wf() && self@.state is Errored {
                law_aborted(writable_world(*self, *scope), promise, error);
            }
        }
        scope.emit(Effect::Reject(promise, error));
        self.writable_stream_reject_close_and_closed_promise_if_needed(scope);
    }

    /// The room below the high-water mark, as the writer sees it.
    pub fn writable_stream_default_writer_get_desired_size(&self) -> (size: Option<Number>)
        ensures
            size == self@.writer_desired_size(),
    {
        match self.state {
            WritableStreamState::Errored | WritableStreamState::Erroring => None,
            WritableStreamState::Closed => Some(Number { bits: 0 }),
            WritableStreamState::Writable => Some(
                self.writable_stream_default_controller_get_desired_size(),
            ),
        }
    }

    /// Releases the stream from its writer.
    pub fn writable_stream_default_writer_release(&mut self, scope: &mut Scope)
        ensures
            writable_world(*final(self), *final(scope)) == writable_world(
                *old(self),
                *old(scope),
            ).release(),
            old(self)@.wf() ==> final(self)@.wf(),
    {
        proof {
            if self@.wf() {
                law_writer_lock(writable_world(*self, *scope));
            }
        }
        let error: Value = Value::TypeError(Message::WriterReleasedClosed);
        self.writable_stream_default_writer_ensure_ready_promise_rejected(scope, &error);
        self.writable_stream_default_writer_ensure_closed_promise_rejected(scope, &error);
        self.writer = None;
    }

    /// Makes a promise in a slot of the writer that has been settled, or is pending.
    fn make_promise(&self, scope: &mut Scope, slot: PromiseRef, state: PromiseState)
        ensures
            final(scope)@ == ({
                let made = old(scope)@.emit(Effect::NewPromise(slot));
                match state {
                    PromiseState::Pending => made,
                    PromiseState::Fulfilled => made.emit(Effect::Resolve(slot, Value::Undefined)),
                    PromiseState::Rejected => made.emit(
                        Effect::Reject(slot, self@.stored_error),
                    ).emit(Effect::MarkHandled(slot)),
                }
            }),
    {
        scope.emit(Effect::NewPromise(slot));
        match state {
            PromiseState::Pending => {},
            PromiseState::Fulfilled => {
                scope.emit(Effect::Resolve(slot, Value::Undefined));
            },
            PromiseState::Rejected => {
                scope.emit(Effect::Reject(slot, self.stored_error.clone()));
                scope.emit(Effect::MarkHandled(slot));
            },
        }
    }

    /// Locks the stream to a new writer.
    pub fn set_up_writable_stream_default_writer(&mut self, scope: &mut Scope) -> (result: Result<
        (),
        Value,
    >)
        ensures
            (writable_world(*final(self), *final(scope)), result) == writable_world(
                *old(self),
                *old(scope),
            ).acquire_writer(),
            old(self)@.wf() ==> final(self)@.wf(),
    {
        proof {
            if self@.wf() {
                law_writer_lock(writable_world(*self, *scope));
            }
        }
        if self.is_writable_stream_locked() {
            return Err(Value::TypeError(Message::WriterLocked));
        }
        let (ready, closed): (PromiseState, PromiseState) = match self.state {
            WritableStreamState::Writable => {
                if !self.writable_stream_close_queued_or_in_flight() && self.backpressure {
                    (PromiseState::Pending, PromiseState::Pending)
                } else {
                    (PromiseState::Fulfilled, PromiseState::Pending)
                }
            },
            WritableStreamState::Erroring => (PromiseState::Rejected, PromiseState::Pending),
            WritableStreamState::Closed => (PromiseState::Fulfilled, PromiseState::Fulfilled),
            WritableStreamState::Errored => (PromiseState::Rejected, PromiseState::Rejected),
        };
        self.make_promise(scope, PromiseRef::WriterReady(self.id), ready);
        self.make_promise(scope, PromiseRef::WriterClosed(self.id), closed);
        self.writer = Some(WritableStreamDefaultWriter { closed, ready });
        Ok(())
    }
}

} // verus!
