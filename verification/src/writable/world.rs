//! What the operations on a writable stream come to.

use vstd::prelude::*;

use crate::number::{Number, ONE};
use crate::scope::{Algorithm, Call, Effect, PromiseRef, ScopeModel};
use crate::value::{Message, Value};
use crate::writable::default_controller::{close_sentinel, WritableControllerModel};
use crate::writable::default_writer::{PromiseState, WritableStreamDefaultWriter};
use crate::writable::writable_stream::{PendingAbortRequest, WritableStreamState};

verus! {

/// What there is to know of a writable stream.
#[verifier::ext_equal]
pub struct WritableModel {
    pub id: u64,
    pub backpressure: bool,
    pub close_request: Option<PromiseRef>,
    pub controller: WritableControllerModel,
    pub detached: bool,
    pub in_flight_write: Option<PromiseRef>,
    pub in_flight_close: Option<PromiseRef>,
    pub pending_abort: Option<PendingAbortRequest>,
    pub state: WritableStreamState,
    pub stored_error: Value,
    pub writer: Option<WritableStreamDefaultWriter>,
    pub write_requests: Seq<PromiseRef>,
    pub identity_transform: Option<u64>,
}

/// A writable stream together with the scope in which it is used.
#[verifier::ext_equal]
pub struct WritableWorld {
    pub stream: WritableModel,
    pub scope: ScopeModel,
}

/// What an abort comes to.
#[derive(Clone, Copy, Debug, PartialEq, Eq, Structural)]
pub enum AbortStep {
    /// The stream had ended: the promise has been resolved.
    Done,
    /// The abort is being signaled; `writable_stream_abort_signaled` is to be called next.
    Signaling,
}

/// What a write comes to.
#[derive(Clone, Copy, Debug, PartialEq, Eq, Structural)]
pub enum WriteStep {
    /// There is nothing left to do.
    Done,
    /// The size algorithm is to be called with the chunk, and its outcome handed to
    /// `writable_stream_default_writer_write_sized`.
    NeedsSize(Algorithm),
}

/// The rejections of the promises of writes, in order.
pub open spec fn write_rejections(requests: Seq<PromiseRef>, error: Value) -> Seq<Effect> {
    Seq::new(requests.len(), |i: int| Effect::Reject(requests[i], error))
}

/// The error with which the promises of a released writer are rejected.
pub open spec fn writer_released_error() -> Value {
    Value::TypeError(Message::WriterReleasedClosed)
}

impl WritableModel {
    pub open spec fn locked(self) -> bool {
        self.writer is Some
    }

    pub open spec fn close_queued_or_in_flight(self) -> bool {
        self.close_request is Some || self.in_flight_close is Some
    }

    pub open spec fn operation_in_flight(self) -> bool {
        self.in_flight_write is Some || self.in_flight_close is Some
    }

    /// Whether the stream has closed or failed.
    pub open spec fn ended(self) -> bool {
        self.state is Closed || self.state is Errored
    }

    pub open spec fn desired_size(self) -> Number {
        self.controller.hwm.minus(self.controller.total)
    }

    /// Whether the queue is as full as it should be.
    pub open spec fn full(self) -> bool {
        self.desired_size().not_positive()
    }

    /// The room below the high-water mark, as the writer sees it.
    pub open spec fn writer_desired_size(self) -> Option<Number> {
        match self.state {
            WritableStreamState::Errored | WritableStreamState::Erroring => None,
            WritableStreamState::Closed => Some(Number { bits: 0 }),
            WritableStreamState::Writable => Some(self.desired_size()),
        }
    }

    /// The number of writes that have neither succeeded nor failed.
    pub open spec fn open_writes(self) -> nat {
        self.write_requests.len() + if self.in_flight_write is Some {
            1nat
        } else {
            0
        }
    }

    /// Whether the queue holds the chunk of each open write in its order, and then the
    /// sentinel of a close that waits. A write that failed the stream has no chunk.
    pub open spec fn queue_ok(self) -> bool {
        let queue = self.controller.queue;
        let closes = if self.close_request is Some {
            1nat
        } else {
            0
        };
        &&& self.state is Writable ==> queue.len() == self.open_writes() + closes
        &&& self.state is Erroring ==> queue.len() <= self.open_writes() + closes
        &&& self.in_flight_write is Some ==> queue.len() > closes
        &&& self.close_request is Some ==> queue.len() > 0 && queue.last().is_close_sentinel
        &&& forall|i: int|
            0 <= i < queue.len() - closes ==> !(#[trigger] queue[i]).is_close_sentinel
    }

    /// What holds of a writable stream between two operations.
    pub open spec fn wf(self) -> bool {
        &&& self.state is Writable ==> {
            &&& self.stored_error == Value::Undefined
            &&& self.pending_abort is None
        }
        &&& self.state is Erroring ==> !self.controller.started || self.operation_in_flight()
        &&& self.ended() ==> {
            &&& !self.operation_in_flight()
            &&& self.pending_abort is None
            &&& self.write_requests.len() == 0
            &&& self.controller.queue.len() == 0
            &&& self.controller.started
        }
        &&& self.state is Closed ==> self.close_request is None
        &&& !self.ended() ==> self.queue_ok()
        &&& self.in_flight_write is Some ==> self.in_flight_close is None
        &&& self.in_flight_close is Some ==> {
            &&& self.close_request is None
            &&& self.controller.queue.len() == 0
            &&& self.write_requests.len() == 0
        }
        &&& self.operation_in_flight() ==> self.controller.started
        &&& self.state is Writable && self.controller.started && !self.operation_in_flight()
            ==> self.controller.queue.len() == 0
        &&& self.state is Writable && !self.close_queued_or_in_flight() ==> self.backpressure
            == self.full()
        &&& self.writer matches Some(writer) ==> self.writer_ok(writer)
    }

    /// Whether the promises of the writer tell the state of the stream.
    pub open spec fn writer_ok(self, writer: WritableStreamDefaultWriter) -> bool {
        match self.state {
            WritableStreamState::Writable => {
                &&& writer.closed is Pending
                &&& if self.close_queued_or_in_flight() {
                    writer.ready is Fulfilled
                } else {
                    writer.ready == if self.backpressure {
                        PromiseState::Pending
                    } else {
                        PromiseState::Fulfilled
                    }
                }
            },
            WritableStreamState::Erroring => writer.ready is Rejected && writer.closed is Pending,
            WritableStreamState::Closed => writer.closed is Fulfilled,
            WritableStreamState::Errored => writer.ready is Rejected,
        }
    }
}

impl WritableWorld {
    pub open spec fn with_stream(self, stream: WritableModel) -> WritableWorld {
        WritableWorld { stream, ..self }
    }

    pub open spec fn with_controller(self, controller: WritableControllerModel) -> WritableWorld {
        self.with_stream(WritableModel { controller, ..self.stream })
    }

    pub open spec fn emit(self, effect: Effect) -> WritableWorld {
        WritableWorld { scope: self.scope.emit(effect), ..self }
    }

    pub open spec fn emit_all(self, effects: Seq<Effect>) -> WritableWorld {
        WritableWorld { scope: self.scope.emit_all(effects), ..self }
    }

    pub open spec fn resolve(self, promise: PromiseRef) -> WritableWorld {
        self.emit(Effect::Resolve(promise, Value::Undefined))
    }

    pub open spec fn reject(self, promise: PromiseRef, error: Value) -> WritableWorld {
        self.emit(Effect::Reject(promise, error))
    }

    pub open spec fn ready(self) -> PromiseRef {
        PromiseRef::WriterReady(self.stream.id)
    }

    pub open spec fn closed(self) -> PromiseRef {
        PromiseRef::WriterClosed(self.stream.id)
    }

    /// The `ready` promise of the writer, if there is one, rejected and handled.
    pub open spec fn ready_rejected(self, error: Value) -> WritableWorld {
        match self.stream.writer {
            None => self,
            Some(writer) => {
                let w = if writer.ready is Pending {
                    self
                } else {
                    self.emit(Effect::NewPromise(self.ready()))
                };
                w.with_stream(
                    WritableModel {
                        writer: Some(
                            WritableStreamDefaultWriter { ready: PromiseState::Rejected, ..writer },
                        ),
                        ..self.stream
                    },
                ).reject(self.ready(), error).emit(Effect::MarkHandled(self.ready()))
            },
        }
    }

    /// The `closed` promise of the writer, if there is one, rejected and handled; where it
    /// had been settled, a new one takes its place.
    pub open spec fn closed_ensured_rejected(self, error: Value) -> WritableWorld {
        match self.stream.writer {
            None => self,
            Some(writer) => {
                let w = if writer.closed is Pending {
                    self
                } else {
                    self.emit(Effect::NewPromise(self.closed()))
                };
                w.with_stream(
                    WritableModel {
                        writer: Some(
                            WritableStreamDefaultWriter {
                                closed: PromiseState::Rejected,
                                ..writer
                            },
                        ),
                        ..self.stream
                    },
                ).reject(self.closed(), error).emit(Effect::MarkHandled(self.closed()))
            },
        }
    }

    /// The `closed` promise of the writer, if there is one, rejected and handled.
    pub open spec fn closed_rejected(self, error: Value) -> WritableWorld {
        match self.stream.writer {
            None => self,
            Some(writer) => self.with_stream(
                WritableModel {
                    writer: Some(
                        WritableStreamDefaultWriter {
                            closed: writer.closed.spec_settled(PromiseState::Rejected),
                            ..writer
                        },
                    ),
                    ..self.stream
                },
            ).reject(self.closed(), error).emit(Effect::MarkHandled(self.closed())),
        }
    }

    /// The `closed` promise of the writer, if there is one, resolved.
    pub open spec fn closed_resolved(self) -> WritableWorld {
        match self.stream.writer {
            None => self,
            Some(writer) => self.with_stream(
                WritableModel {
                    writer: Some(
                        WritableStreamDefaultWriter {
                            closed: writer.closed.spec_settled(PromiseState::Fulfilled),
                            ..writer
                        },
                    ),
                    ..self.stream
                },
            ).resolve(self.closed()),
        }
    }

    /// The `ready` promise of the writer, if there is one, resolved.
    pub open spec fn ready_resolved(self) -> WritableWorld {
        match self.stream.writer {
            None => self,
            Some(writer) => self.with_stream(
                WritableModel {
                    writer: Some(
                        WritableStreamDefaultWriter {
                            ready: writer.ready.spec_settled(PromiseState::Fulfilled),
                            ..writer
                        },
                    ),
                    ..self.stream
                },
            ).resolve(self.ready()),
        }
    }

    /// A new `ready` promise for the writer, if there is one.
    pub open spec fn ready_renewed(self) -> WritableWorld {
        match self.stream.writer {
            None => self,
            Some(writer) => self.with_stream(
                WritableModel {
                    writer: Some(
                        WritableStreamDefaultWriter { ready: PromiseState::Pending, ..writer },
                    ),
                    ..self.stream
                },
            ).emit(Effect::NewPromise(self.ready())),
        }
    }

    /// The promise of a close that waits, if one does, and the `closed` promise of the
    /// writer rejected with the error of the stream.
    pub open spec fn close_and_closed_rejected(self) -> WritableWorld {
        let error = self.stream.stored_error;
        let w = match self.stream.close_request {
            None => self,
            Some(promise) => self.with_stream(
                WritableModel { close_request: None, ..self.stream },
            ).reject(promise, error),
        };
        w.closed_rejected(error)
    }

    /// The stream failed for good.
    pub open spec fn finish_erroring(self) -> WritableWorld {
        let error = self.stream.stored_error;
        let w = self.with_stream(
            WritableModel {
                state: WritableStreamState::Errored,
                controller: self.stream.controller.reset_queue(),
                write_requests: Seq::empty(),
                pending_abort: None,
                ..self.stream
            },
        ).emit_all(write_rejections(self.stream.write_requests, error));
        match self.stream.pending_abort {
            None => w.close_and_closed_rejected(),
            Some(request) => if request.was_already_erroring {
                w.reject(request.promise, error).close_and_closed_rejected()
            } else {
                w.emit(
                    Effect::Invoke {
                        call: Call::WritableAbort {
                            stream: self.stream.id,
                            reason: request.reason,
                            promise: request.promise,
                        },
                        algorithm: self.stream.controller.abort_algorithm,
                        receiver: self.stream.controller.receiver,
                    },
                ).emit(Effect::ClearAlgorithms { stream: self.stream.id })
            },
        }
    }

    /// The stream about to fail; it does so once what is under way has come to its end.
    pub open spec fn start_erroring(self, reason: Value) -> WritableWorld {
        let w = self.with_stream(
            WritableModel {
                state: WritableStreamState::Erroring,
                stored_error: reason,
                ..self.stream
            },
        ).ready_rejected(reason);
        if !self.stream.operation_in_flight() && self.stream.controller.started {
            w.finish_erroring()
        } else {
            w
        }
    }

    /// What becomes of the stream when its sink fails.
    pub open spec fn deal_with_rejection(self, error: Value) -> WritableWorld {
        if self.stream.state is Writable {
            self.start_erroring(error)
        } else {
            self.finish_erroring()
        }
    }

    /// The stream failed by its controller.
    pub open spec fn controller_error(self, error: Value) -> WritableWorld {
        self.with_controller(self.stream.controller.cleared_algorithms()).start_erroring(error)
    }

    pub open spec fn controller_error_if_needed(self, error: Value) -> WritableWorld {
        if self.stream.state is Writable {
            self.controller_error(error)
        } else {
            self
        }
    }

    /// The backpressure signal changed, and the writer's `ready` promise with it.
    pub open spec fn update_backpressure(self, backpressure: bool) -> WritableWorld {
        let w = if backpressure == self.stream.backpressure {
            self
        } else if backpressure {
            self.ready_renewed()
        } else {
            self.ready_resolved()
        };
        w.with_stream(WritableModel { backpressure, ..w.stream })
    }

    /// The sink asked to write the first chunk of the queue.
    pub open spec fn process_write(self) -> WritableWorld {
        self.with_stream(
            WritableModel {
                in_flight_write: Some(self.stream.write_requests[0]),
                write_requests: self.stream.write_requests.drop_first(),
                ..self.stream
            },
        ).emit(
            Effect::Invoke {
                call: Call::WritableWrite {
                    stream: self.stream.id,
                    chunk: self.stream.controller.queue[0].value,
                },
                algorithm: self.stream.controller.write_algorithm,
                receiver: self.stream.controller.receiver,
            },
        )
    }

    /// The sink asked to close.
    pub open spec fn process_close(self) -> WritableWorld {
        self.with_stream(
            WritableModel {
                in_flight_close: self.stream.close_request,
                close_request: None,
                controller: self.stream.controller.dequeued(),
                ..self.stream
            },
        ).emit(
            Effect::Invoke {
                call: Call::WritableClose { stream: self.stream.id },
                algorithm: self.stream.controller.close_algorithm,
                receiver: self.stream.controller.receiver,
            },
        ).emit(Effect::ClearAlgorithms { stream: self.stream.id })
    }

    /// The sink asked for what comes first in the queue, where it is free.
    pub open spec fn advance_queue(self) -> WritableWorld {
        if !self.stream.controller.started || self.stream.in_flight_write is Some {
            self
        } else if self.stream.state is Erroring {
            self.finish_erroring()
        } else if self.stream.controller.queue.len() == 0 {
            self
        } else if self.stream.controller.queue[0].is_close_sentinel {
            self.process_close()
        } else {
            self.process_write()
        }
    }

    /// Brings the backpressure signal up to date, while chunks are still taken.
    pub open spec fn refresh_backpressure(self) -> WritableWorld {
        if !self.stream.close_queued_or_in_flight() && self.stream.state is Writable {
            self.update_backpressure(self.stream.full())
        } else {
            self
        }
    }

    /// A chunk of the given size put into the queue; a size that will not do fails the
    /// stream.
    pub open spec fn controller_write(self, chunk: Value, size: Number) -> WritableWorld {
        if size.countable() {
            self.with_controller(
                self.stream.controller.enqueued(chunk, size),
            ).refresh_backpressure().advance_queue()
        } else {
            self.controller_error_if_needed(Value::RangeError(Message::SizeOutOfRange))
        }
    }

    /// What a write comes to once the size of the chunk is known; `owned` tells whether the
    /// stream is still locked to the writer.
    pub open spec fn write_sized(
        self,
        owned: bool,
        chunk: Value,
        size: Result<Number, Value>,
        promise: PromiseRef,
    ) -> WritableWorld {
        let w = match size {
            Ok(_) => self,
            Err(error) => self.controller_error_if_needed(error),
        };
        let measured = match size {
            Ok(size) => size,
            Err(_) => Number { bits: ONE },
        };
        if !owned {
            w.reject(promise, Value::TypeError(Message::WriteReleased))
        } else if w.stream.state is Errored {
            w.reject(promise, w.stream.stored_error)
        } else if w.stream.close_queued_or_in_flight() || w.stream.state is Closed {
            w.reject(promise, Value::TypeError(Message::WriteClosing))
        } else if w.stream.state is Erroring {
            w.reject(promise, w.stream.stored_error)
        } else {
            w.with_stream(
                WritableModel {
                    write_requests: w.stream.write_requests.push(promise),
                    ..w.stream
                },
            ).controller_write(chunk, measured)
        }
    }

    /// A write by the writer of the stream.
    pub open spec fn write(self, chunk: Value, promise: PromiseRef) -> (WritableWorld, WriteStep) {
        match self.stream.controller.size_algorithm {
            Algorithm::Undefined | Algorithm::One => (
                self.write_sized(true, chunk, Ok(Number { bits: ONE }), promise),
                WriteStep::Done,
            ),
            algorithm => (self, WriteStep::NeedsSize(algorithm)),
        }
    }

    /// The stream closed by its owner: a sentinel behind the chunks that wait.
    pub open spec fn close(self, promise: PromiseRef) -> WritableWorld {
        if self.stream.ended() {
            self.reject(
                promise,
                Value::TypeError(Message::CloseNotWritable),
            )
        } else {
            let w = self.with_stream(WritableModel { close_request: Some(promise), ..self.stream });
            let ready = if self.stream.backpressure && self.stream.state is Writable {
                w.ready_resolved()
            } else {
                w
            };
            ready.with_controller(
                ready.stream.controller.with_queue(
                    ready.stream.controller.queue.push(close_sentinel()),
                    ready.stream.controller.total,
                ),
            ).advance_queue()
        }
    }

    /// The stream closed on behalf of a pipe, whatever its state.
    pub open spec fn close_with_error_propagation(self, promise: PromiseRef) -> WritableWorld {
        if self.stream.close_queued_or_in_flight() || self.stream.state is Closed {
            self.resolve(promise)
        } else if self.stream.state is Errored {
            self.reject(promise, self.stream.stored_error)
        } else {
            self.close(promise)
        }
    }

    /// The stream aborted: the author hears of it first.
    pub open spec fn abort(self, reason: Value, promise: PromiseRef) -> (WritableWorld, AbortStep) {
        if self.stream.ended() {
            (self.resolve(promise), AbortStep::Done)
        } else {
            (
                self.emit(Effect::SignalAbort { stream: self.stream.id, reason }),
                AbortStep::Signaling,
            )
        }
    }

    /// The stream aborted, after the author has heard of it. The promise that tells the
    /// outcome is that of an earlier abort, where there is one.
    pub open spec fn abort_signaled(
        self,
        reason: Value,
        promise: PromiseRef,
    ) -> (WritableWorld, PromiseRef) {
        if self.stream.ended() {
            (self.resolve(promise), promise)
        } else {
            match self.stream.pending_abort {
                Some(request) => (self, request.promise),
                None => {
                    let erroring = self.stream.state is Erroring;
                    let w = self.with_stream(
                        WritableModel {
                            pending_abort: Some(
                                PendingAbortRequest {
                                    promise,
                                    reason: if erroring {
                                        Value::Undefined
                                    } else {
                                        reason
                                    },
                                    was_already_erroring: erroring,
                                },
                            ),
                            ..self.stream
                        },
                    );
                    if erroring {
                        (w, promise)
                    } else {
                        (w.start_erroring(reason), promise)
                    }
                },
            }
        }
    }

    /// The sink has closed.
    pub open spec fn finish_in_flight_close(self) -> WritableWorld {
        let w = self.with_stream(
            WritableModel { in_flight_close: None, ..self.stream },
        ).resolve(self.stream.in_flight_close->0);
        let quiet = if self.stream.state is Erroring {
            let cleared = w.with_stream(
                WritableModel {
                    stored_error: Value::Undefined,
                    pending_abort: None,
                    ..w.stream
                },
            );
            match self.stream.pending_abort {
                Some(request) => cleared.resolve(request.promise),
                None => cleared,
            }
        } else {
            w
        };
        quiet.with_stream(
            WritableModel { state: WritableStreamState::Closed, ..quiet.stream },
        ).closed_resolved()
    }

    /// The sink has failed to close.
    pub open spec fn finish_in_flight_close_with_error(self, error: Value) -> WritableWorld {
        let w = self.with_stream(
            WritableModel { in_flight_close: None, pending_abort: None, ..self.stream },
        ).reject(self.stream.in_flight_close->0, error);
        let told = match self.stream.pending_abort {
            Some(request) => w.reject(request.promise, error),
            None => w,
        };
        told.deal_with_rejection(error)
    }

    /// The sink has written a chunk.
    pub open spec fn write_fulfilled(self) -> WritableWorld {
        self.with_stream(
            WritableModel {
                in_flight_write: None,
                controller: self.stream.controller.dequeued(),
                ..self.stream
            },
        ).resolve(
            self.stream.in_flight_write->0,
        ).refresh_backpressure().advance_queue()
    }

    /// The sink has failed to write a chunk.
    pub open spec fn write_rejected(self, error: Value) -> WritableWorld {
        let w = if self.stream.state is Writable {
            self.with_controller(self.stream.controller.cleared_algorithms())
        } else {
            self
        };
        w.with_stream(WritableModel { in_flight_write: None, ..w.stream }).reject(
            self.stream.in_flight_write->0,
            error,
        ).deal_with_rejection(error)
    }

    /// The sink has started.
    pub open spec fn start_fulfilled(self) -> WritableWorld {
        self.with_controller(
            WritableControllerModel { started: true, ..self.stream.controller },
        ).advance_queue()
    }

    /// The sink has failed to start.
    pub open spec fn start_rejected(self, error: Value) -> WritableWorld {
        self.with_controller(
            WritableControllerModel { started: true, ..self.stream.controller },
        ).deal_with_rejection(error)
    }

    /// The sink has taken note of an abort.
    pub open spec fn abort_fulfilled(self, promise: PromiseRef) -> WritableWorld {
        self.resolve(promise).close_and_closed_rejected()
    }

    /// The sink has failed over an abort.
    pub open spec fn abort_rejected(self, promise: PromiseRef, error: Value) -> WritableWorld {
        self.reject(promise, error).close_and_closed_rejected()
    }

    /// The promises of a new writer.
    pub open spec fn lock(self) -> WritableWorld {
        let error = self.stream.stored_error;
        let pending = self.stream.state is Writable && !self.stream.close_queued_or_in_flight()
            && self.stream.backpressure;
        let ready = match self.stream.state {
            WritableStreamState::Writable => if pending {
                self.emit(Effect::NewPromise(self.ready()))
            } else {
                self.emit(Effect::NewPromise(self.ready())).resolve(self.ready())
            },
            WritableStreamState::Closed => self.emit(Effect::NewPromise(self.ready())).resolve(
                self.ready(),
            ),
            _ => self.emit(Effect::NewPromise(self.ready())).reject(self.ready(), error).emit(
                Effect::MarkHandled(self.ready()),
            ),
        };
        let both = match self.stream.state {
            WritableStreamState::Writable | WritableStreamState::Erroring => ready.emit(
                Effect::NewPromise(self.closed()),
            ),
            WritableStreamState::Closed => ready.emit(Effect::NewPromise(self.closed())).resolve(
                self.closed(),
            ),
            WritableStreamState::Errored => ready.emit(Effect::NewPromise(self.closed())).reject(
                self.closed(),
                error,
            ).emit(Effect::MarkHandled(self.closed())),
        };
        both.with_stream(
            WritableModel {
                writer: Some(
                    WritableStreamDefaultWriter {
                        ready: match self.stream.state {
                            WritableStreamState::Writable => if pending {
                                PromiseState::Pending
                            } else {
                                PromiseState::Fulfilled
                            },
                            WritableStreamState::Closed => PromiseState::Fulfilled,
                            _ => PromiseState::Rejected,
                        },
                        closed: match self.stream.state {
                            WritableStreamState::Writable | WritableStreamState::Erroring =>
                                PromiseState::Pending,
                            WritableStreamState::Closed => PromiseState::Fulfilled,
                            WritableStreamState::Errored => PromiseState::Rejected,
                        },
                    },
                ),
                ..self.stream
            },
        )
    }

    /// A new writer for the stream, which has to be unlocked.
    pub open spec fn acquire_writer(self) -> (WritableWorld, Result<(), Value>) {
        if self.stream.locked() {
            (self, Err(Value::TypeError(Message::WriterLocked)))
        } else {
            (self.lock(), Ok(()))
        }
    }

    /// The stream released from its writer.
    pub open spec fn release(self) -> WritableWorld {
        let w = self.ready_rejected(writer_released_error()).closed_ensured_rejected(
            writer_released_error(),
        );
        w.with_stream(WritableModel { writer: None, ..w.stream })
    }
}

} // verus!
