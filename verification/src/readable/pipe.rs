//! Pipes: what reads chunks from a readable stream and writes them to a writable one.
//!
//! A pipe reads while its destination asks for chunks. When either stream ends, or a signal
//! says so, the pipe shuts down: it waits for the writes that are under way, tells the other
//! stream, and lets go of both.

use vstd::prelude::*;

use crate::number::Number;
use crate::readable::options::StreamPipeOptions;
use crate::readable::pipe_laws::{
    law_pipe_abort_signaled, law_pipe_begin, law_pipe_cancel_source, law_pipe_finalize,
    law_pipe_proceed, law_pipe_shutdown, law_pipe_start, law_pipe_waits, law_pipe_write,
    law_pipe_write_settled, law_pipe_write_sized,
};
use crate::readable::read_request::ReadRequest;
use crate::readable::readable_stream::{
    pipe_options, readable_world, ReadableStream, ReadableStreamState,
};
use crate::readable::slots::SlotsModel;
use crate::readable::stream_world::{in_scope, ReadableModel, ReadableWorld};
use crate::scope::{Algorithm, Effect, Microtask, PromiseRef, Reaction, Scope, ScopeModel};
use crate::transform::readable_writable_pair::ReadableWritablePair;
use crate::value::{Message, Value};
use crate::writable::laws::law_writer_lock;
use crate::writable::world::{AbortStep, WritableModel, WritableWorld, WriteStep};
use crate::writable::writable_stream::{WritableStream, WritableStreamState};

verus! {

/// What a pipe does to the streams when it shuts down.
#[derive(Clone, Copy, Debug, PartialEq, Eq, Structural)]
pub enum PipeAction {
    Nothing,
    AbortDest,
    CancelSource,
    CloseWriter,
    /// What an aborted signal asks for.
    AbortAlgorithm,
}

/// The state of a pipe.
pub struct PipeState {
    /// The name of the pipe in effects.
    pub id: u64,
    pub prevent_close: bool,
    pub prevent_abort: bool,
    pub prevent_cancel: bool,
    pub shutting_down: bool,
    /// Whether the shutdown waits for the writes that are under way.
    pub shutdown_waiting: bool,
    /// Whether the pipe has let go of its streams.
    pub finished: bool,
    pub signal: Option<u64>,
    pub action_kind: PipeAction,
    pub action_error: Value,
    /// The error that the pipe ends with, if it ends with one.
    pub original_error: Option<Value>,
    /// The chunk that waits for its microtask.
    pub pending_chunk: Value,
    /// The number of chunks that have been read and whose writes have not settled.
    pub pending_writes: u32,
}

/// What a write of a pipe comes to.
#[derive(Debug, PartialEq, Eq)]
pub enum PipeWriteStep {
    /// There is nothing left to do.
    Done,
    /// The size algorithm is to be called with the chunk, and its outcome handed to
    /// [`PipeState::pipe_deferred_write_sized`].
    NeedsSize { algorithm: Algorithm, chunk: Value },
}

/// The state of a new pipe.
pub open spec fn new_pipe(id: u64, options: StreamPipeOptions) -> PipeState {
    PipeState {
        id,
        prevent_close: options.prevent_close,
        prevent_abort: options.prevent_abort,
        prevent_cancel: options.prevent_cancel,
        shutting_down: false,
        shutdown_waiting: false,
        finished: false,
        signal: options.signal,
        action_kind: PipeAction::Nothing,
        action_error: Value::Undefined,
        original_error: None,
        pending_chunk: Value::Undefined,
        pending_writes: 0,
    }
}

/// A pipe with its streams and the scope in which it is used.
#[verifier::ext_equal]
pub struct PipeWorld {
    pub state: PipeState,
    pub source: ReadableModel,
    pub dest: WritableModel,
    pub scope: ScopeModel,
}

/// A pipe, its streams and a scope, to state what an operation does to them.
pub open spec fn pipe_world(
    state: PipeState,
    source: ReadableStream,
    dest: WritableStream,
    scope: Scope,
) -> PipeWorld {
    PipeWorld { state, source: source@, dest: dest@, scope: scope@ }
}

impl PipeWorld {
    pub open spec fn from(self) -> ReadableWorld {
        in_scope(self.source, self.scope)
    }

    pub open spec fn to(self) -> WritableWorld {
        WritableWorld { stream: self.dest, scope: self.scope }
    }

    pub open spec fn with_source(self, w: ReadableWorld) -> PipeWorld {
        PipeWorld { source: w.stream, scope: w.scope, ..self }
    }

    pub open spec fn with_dest(self, w: WritableWorld) -> PipeWorld {
        PipeWorld { dest: w.stream, scope: w.scope, ..self }
    }

    pub open spec fn with_state(self, state: PipeState) -> PipeWorld {
        PipeWorld { state, ..self }
    }

    pub open spec fn emit(self, effect: Effect) -> PipeWorld {
        PipeWorld { scope: self.scope.emit(effect), ..self }
    }

    pub open spec fn done(self) -> PromiseRef {
        PromiseRef::Pipe(self.state.id)
    }

    pub open spec fn action(self) -> PromiseRef {
        PromiseRef::PipeAction(self.state.id)
    }

    pub open spec fn cancelation(self) -> PromiseRef {
        PromiseRef::PipeCancel(self.state.id)
    }

    pub open spec fn on_action(self) -> Reaction {
        Reaction::PipeAction { pipe: self.state.id }
    }

    /// The pipe at its end: it lets go of both streams and tells how it ended.
    pub open spec fn finalize(self, error: Option<Value>) -> PipeWorld {
        let released = self.with_dest(self.to().release());
        let free = released.with_source(released.from().release());
        let told = match self.state.signal {
            Some(signal) => free.emit(
                Effect::RemoveAbortAlgorithm { signal, pipe: self.state.id },
            ),
            None => free,
        };
        let ended = match error {
            Some(error) => told.emit(Effect::Reject(self.done(), error)),
            None => told.emit(Effect::Resolve(self.done(), Value::Undefined)),
        };
        ended.with_state(PipeState { finished: true, ..self.state })
    }

    /// The cancelation of the source that an aborted signal asks for, after its destination
    /// has been seen to; then the pipe waits for both.
    pub open spec fn cancel_for_signal(self, aborted: Option<PromiseRef>) -> PipeWorld {
        if self.state.prevent_cancel {
            self.emit(Effect::OnBothSettled(aborted, None, self.on_action()))
        } else {
            let asked = self.emit(Effect::NewPromise(self.cancelation()));
            let canceled = if self.source.slots.state is Readable {
                asked.with_source(
                    asked.from().cancel(self.state.action_error, self.cancelation()),
                )
            } else {
                asked.emit(Effect::Resolve(self.cancelation(), Value::Undefined))
            };
            canceled.emit(
                Effect::OnBothSettled(aborted, Some(self.cancelation()), self.on_action()),
            )
        }
    }

    /// The action of the shutdown, and then the end.
    #[verifier::opaque]
    pub open spec fn proceed(self) -> PipeWorld {
        let error = self.state.action_error;
        match self.state.action_kind {
            PipeAction::Nothing => self.finalize(self.state.original_error),
            PipeAction::AbortDest => {
                let asked = self.emit(Effect::NewPromise(self.action()));
                let (w, step) = asked.to().abort(error, self.action());
                let signaled = asked.with_dest(w);
                match step {
                    AbortStep::Done => signaled.emit(
                        Effect::OnSettled(self.action(), self.on_action()),
                    ),
                    AbortStep::Signaling => signaled.emit(
                        Effect::PipeAbortSignaled { pipe: self.state.id },
                    ),
                }
            },
            PipeAction::CancelSource => {
                let asked = self.emit(Effect::NewPromise(self.cancelation()));
                asked.with_source(asked.from().cancel(error, self.cancelation())).emit(
                    Effect::OnSettled(self.cancelation(), self.on_action()),
                )
            },
            PipeAction::CloseWriter => {
                let asked = self.emit(Effect::NewPromise(self.action()));
                asked.with_dest(asked.to().close_with_error_propagation(self.action())).emit(
                    Effect::OnSettled(self.action(), self.on_action()),
                )
            },
            PipeAction::AbortAlgorithm => if self.state.prevent_abort {
                self.cancel_for_signal(None)
            } else {
                let asked = self.emit(Effect::NewPromise(self.action()));
                if self.dest.state is Writable {
                    asked.with_dest(asked.to().abort(error, self.action()).0).emit(
                        Effect::PipeAbortSignaled { pipe: self.state.id },
                    )
                } else {
                    asked.emit(
                        Effect::Resolve(self.action(), Value::Undefined),
                    ).cancel_for_signal(Some(self.action()))
                }
            },
        }
    }

    /// The abort of the destination, after its author has heard of it. What the sink does on
    /// that account comes before the source is looked at.
    pub open spec fn abort_signaled(self) -> PipeWorld {
        let (w, outcome) = self.to().abort_signaled(self.state.action_error, self.action());
        let aborted = self.with_dest(w);
        if self.state.action_kind is AbortAlgorithm {
            aborted.emit(
                Effect::PipeCancelSource { pipe: self.state.id, aborted: outcome },
            )
        } else {
            aborted.emit(Effect::OnSettled(outcome, self.on_action()))
        }
    }

    /// Whether the destination still takes chunks.
    pub open spec fn dest_open(self) -> bool {
        self.dest.state is Writable && !self.dest.close_queued_or_in_flight()
    }

    /// The shutdown, at once or when the writes that are under way have settled.
    pub open spec fn wait_then_proceed(self) -> PipeWorld {
        if !self.dest_open() {
            self.proceed()
        } else if self.state.pending_writes > 0 {
            self.with_state(PipeState { shutdown_waiting: true, ..self.state })
        } else {
            self.emit(Effect::Queue(Microtask::PipeShutdown { pipe: self.state.id }))
        }
    }

    /// The beginning of a shutdown; only the first one counts.
    pub open spec fn shutdown(
        self,
        kind: PipeAction,
        action_error: Value,
        original_error: Option<Value>,
    ) -> PipeWorld {
        if self.state.shutting_down {
            self
        } else {
            self.with_state(
                PipeState {
                    shutting_down: true,
                    action_kind: kind,
                    action_error,
                    original_error,
                    ..self.state
                },
            ).wait_then_proceed()
        }
    }

    /// What the pipe does when its source has failed.
    pub open spec fn forward_error(self, error: Value) -> PipeWorld {
        if self.state.prevent_abort {
            self.shutdown(PipeAction::Nothing, Value::Undefined, Some(error))
        } else {
            self.shutdown(PipeAction::AbortDest, error, Some(error))
        }
    }

    /// What the pipe does when its destination has failed, or has been closed by others.
    pub open spec fn backward_error(self, error: Value) -> PipeWorld {
        if self.state.prevent_cancel {
            self.shutdown(PipeAction::Nothing, Value::Undefined, Some(error))
        } else {
            self.shutdown(PipeAction::CancelSource, error, Some(error))
        }
    }

    /// What the pipe does when its source has closed.
    pub open spec fn forward_close(self) -> PipeWorld {
        if self.state.prevent_close {
            self.shutdown(PipeAction::Nothing, Value::Undefined, None)
        } else {
            self.shutdown(PipeAction::CloseWriter, Value::Undefined, None)
        }
    }

    /// The next turn of the pipe: when its destination asks for chunks.
    pub open spec fn step(self) -> PipeWorld {
        if self.state.shutting_down {
            self
        } else {
            self.emit(
                Effect::OnFulfilled(
                    PromiseRef::WriterReady(self.dest.id),
                    Reaction::PipeReady { pipe: self.state.id },
                ),
            )
        }
    }

    /// A read of the source.
    pub open spec fn ready(self) -> PipeWorld {
        if self.state.shutting_down {
            self
        } else {
            self.with_source(self.from().read(ReadRequest::Pipe { pipe: self.state.id }))
        }
    }

    /// What the pipe looks out for, in the order of precedence, and its first turn.
    pub open spec fn start(self) -> PipeWorld {
        let id = self.state.id;
        let reader = PromiseRef::ReaderClosed(self.source.slots.id);
        let writer = PromiseRef::WriterClosed(self.dest.id);
        let first = if self.source.slots.state is Errored {
            self.forward_error(self.source.slots.stored_error)
        } else {
            self.emit(Effect::OnRejected(reader, Reaction::PipeForwardError { pipe: id }))
        };
        let second = if first.dest.state is Errored {
            first.backward_error(first.dest.stored_error)
        } else {
            first.emit(Effect::OnRejected(writer, Reaction::PipeBackwardError { pipe: id }))
        };
        let third = if second.source.slots.state is Closed {
            second.forward_close()
        } else {
            second.emit(Effect::OnFulfilled(reader, Reaction::PipeForwardClose { pipe: id }))
        };
        let fourth = if third.dest.close_queued_or_in_flight() || third.dest.state is Closed {
            third.backward_error(Value::TypeError(Message::PipeDestinationClosed))
        } else {
            third
        };
        fourth.step()
    }

    /// What is left to do after a chunk was written.
    pub open spec fn written(self, promise: PromiseRef) -> PipeWorld {
        self.emit(
            Effect::OnSettled(promise, Reaction::PipeWritten { pipe: self.state.id }),
        ).step()
    }

    /// One read chunk less whose write has not settled.
    pub open spec fn fewer_writes(self) -> PipeState {
        PipeState { pending_writes: (self.state.pending_writes - 1) as u32, ..self.state }
    }

    /// A chunk that was read written to the destination, unless the pipe has let go of it.
    pub open spec fn write(self, promise: PromiseRef) -> (PipeWorld, PipeWriteStep) {
        let chunk = self.state.pending_chunk;
        let taken = self.with_state(
            PipeState { pending_chunk: Value::Undefined, ..self.state },
        );
        if self.state.finished {
            (taken.with_state(taken.fewer_writes()), PipeWriteStep::Done)
        } else {
            let (w, step) = taken.to().write(chunk, promise);
            match step {
                WriteStep::Done => (taken.with_dest(w).written(promise), PipeWriteStep::Done),
                WriteStep::NeedsSize(algorithm) => (
                    taken,
                    PipeWriteStep::NeedsSize { algorithm, chunk },
                ),
            }
        }
    }

    /// The same, once the size of the chunk is known.
    pub open spec fn write_sized(
        self,
        chunk: Value,
        size: Result<Number, Value>,
        promise: PromiseRef,
    ) -> PipeWorld {
        self.with_dest(
            self.to().write_sized(!self.state.finished, chunk, size, promise),
        ).written(promise)
    }

    /// A write has settled.
    pub open spec fn write_settled(self) -> PipeWorld {
        let fewer = self.fewer_writes();
        if fewer.pending_writes == 0 && self.state.shutdown_waiting {
            self.with_state(PipeState { shutdown_waiting: false, ..fewer }).proceed()
        } else {
            self.with_state(fewer)
        }
    }

    /// A shutdown goes on, unless a chunk has come meanwhile.
    pub open spec fn proceed_deferred(self) -> PipeWorld {
        if self.state.pending_writes > 0 {
            self.with_state(PipeState { shutdown_waiting: true, ..self.state })
        } else {
            self.proceed()
        }
    }

    /// The native source behind the source of the pipe passed on, where the destination
    /// hands chunks on unchanged.
    pub open spec fn native_passed(self) -> PipeWorld {
        match (self.source.slots.native_byte_source, self.dest.identity_transform) {
            (Some(source), Some(transform)) => self.with_source(
                self.from().with_slots(
                    SlotsModel {
                        piped_to_identity_transform: Some(transform),
                        ..self.source.slots
                    },
                ),
            ).emit(Effect::PassNativeSource { transform, source }),
            _ => self,
        }
    }

    /// Both streams locked to the pipe.
    pub open spec fn locked(self) -> PipeWorld {
        let read = self.with_source(self.from().acquire_default_reader().0);
        let both = read.with_dest(read.to().acquire_writer().0);
        both.with_source(both.from().disturbed())
    }

    /// The pipe set up, and either started or, where its signal has been aborted, shut down.
    pub open spec fn begin(self, aborted: Option<Value>) -> PipeWorld {
        let set_up = self.locked().native_passed().emit(Effect::NewPromise(self.done()));
        match self.state.signal {
            None => set_up.start(),
            Some(signal) => match aborted {
                Some(reason) => set_up.abort_by_signal(reason),
                None => set_up.emit(
                    Effect::AddAbortAlgorithm { signal, pipe: self.state.id },
                ).start(),
            },
        }
    }

    /// What the pipe does when its signal is aborted.
    pub open spec fn abort_by_signal(self, reason: Value) -> PipeWorld {
        self.shutdown(PipeAction::AbortAlgorithm, reason, Some(reason))
    }
}

/// Pipes one stream into another; the promise for the end of the pipe tells what comes of
/// it. `aborted` is the reason with which the signal of the pipe has been aborted, if it has
/// one and that is so.
pub fn readable_stream_pipe_to(
    scope: &mut Scope,
    source: &mut ReadableStream,
    dest: &mut WritableStream,
    id: u64,
    options: StreamPipeOptions,
    aborted: Option<Value>,
) -> (state: PipeState)
    requires
        !old(source)@.slots.locked(),
        !old(dest)@.locked(),
        old(dest)@.wf(),
    ensures
        pipe_world(state, *final(source), *final(dest), *final(scope)) == pipe_world(
            new_pipe(id, options),
            *old(source),
            *old(dest),
            *old(scope),
        ).begin(aborted),
        readable_world(*old(source), *old(scope)).sound() ==> pipe_world(
            state,
            *final(source),
            *final(dest),
            *final(scope),
        ).wf(),
{
    let ghost w = pipe_world(new_pipe(id, options), *source, *dest, *scope);
    proof {
        if w.from().sound() {
            law_pipe_begin(w, aborted);
        }
    }
    let _ = source.set_up_readable_stream_default_reader(scope);
    proof {
        law_writer_lock(
            WritableWorld { stream: dest@, scope: scope@ },
        );
    }
    let _ = dest.set_up_writable_stream_default_writer(scope);
    source.slots.disturbed = true;
    match (source.slots.native_byte_source, dest.identity_transform) {
        (Some(native), Some(transform)) => {
            source.slots.piped_to_identity_transform = Some(transform);
            scope.emit(Effect::PassNativeSource { transform, source: native });
        },
        _ => {},
    }
    let mut state: PipeState = PipeState::new(scope, id, options);
    assert(pipe_world(state, *source, *dest, *scope) =~= w.locked().native_passed().emit(
        Effect::NewPromise(w.done()),
    ));
    match state.signal {
        None => {},
        Some(signal) => {
            match aborted {
                Some(reason) => {
                    state.pipe_abort_algorithm(scope, source, dest, reason);
                    return state;
                },
                None => {
                    scope.emit(Effect::AddAbortAlgorithm { signal, pipe: id });
                },
            }
        },
    }
    state.pipe_setup_propagation_and_start(scope, source, dest);
    state
}

impl PipeState {
    /// The state of a new pipe, with a promise for its end.
    pub fn new(scope: &mut Scope, id: u64, options: StreamPipeOptions) -> (state: PipeState)
        ensures
            state == new_pipe(id, options),
            final(scope)@ == old(scope)@.emit(Effect::NewPromise(PromiseRef::Pipe(id))),
    {
        scope.emit(Effect::NewPromise(PromiseRef::Pipe(id)));
        PipeState {
            id,
            prevent_close: options.prevent_close,
            prevent_abort: options.prevent_abort,
            prevent_cancel: options.prevent_cancel,
            shutting_down: false,
            shutdown_waiting: false,
            finished: false,
            signal: options.signal,
            action_kind: PipeAction::Nothing,
            action_error: Value::Undefined,
            original_error: None,
            pending_chunk: Value::Undefined,
            pending_writes: 0,
        }
    }

    /// Looks out for the end of either stream, and starts the pipe.
    pub fn pipe_setup_propagation_and_start(
        &mut self,
        scope: &mut Scope,
        source: &mut ReadableStream,
        dest: &mut WritableStream,
    )
        requires
            old(dest)@.wf(),
        ensures
            pipe_world(*final(self), *final(source), *final(dest), *final(scope)) == pipe_world(
                *old(self),
                *old(source),
                *old(dest),
                *old(scope),
            ).start(),
            pipe_world(*old(self), *old(source), *old(dest), *old(scope)).wf() ==> pipe_world(
                *final(self),
                *final(source),
                *final(dest),
                *final(scope),
            ).wf(),
    {
        proof {
            let w = pipe_world(*self, *source, *dest, *scope);
            if w.wf() {
                law_pipe_start(w);
            }
        }
        let id: u64 = self.id;
        let reader: PromiseRef = PromiseRef::ReaderClosed(source.slots.id);
        let writer: PromiseRef = PromiseRef::WriterClosed(dest.id);
        if source.slots.state == ReadableStreamState::Errored {
            let error: Value = source.slots.stored_error.clone();
            self.pipe_fwd_error(scope, source, dest, error);
        } else {
            scope.emit(Effect::OnRejected(reader, Reaction::PipeForwardError { pipe: id }));
        }
        if dest.state == WritableStreamState::Errored {
            let error: Value = dest.stored_error.clone();
            self.pipe_bwd_error(scope, source, dest, error);
        } else {
            scope.emit(Effect::OnRejected(writer, Reaction::PipeBackwardError { pipe: id }));
        }
        if source.slots.state == ReadableStreamState::Closed {
            self.pipe_fwd_close(scope, source, dest);
        } else {
            scope.emit(Effect::OnFulfilled(reader, Reaction::PipeForwardClose { pipe: id }));
        }
        if dest.writable_stream_close_queued_or_in_flight()
            || dest.state == WritableStreamState::Closed {
            self.pipe_bwd_error(
                scope,
                source,
                dest,
                Value::TypeError(Message::PipeDestinationClosed),
            );
        }
        self.pipe_step(scope, dest);
    }

    /// Waits until the destination asks for chunks, unless the pipe is shutting down.
    pub fn pipe_step(&self, scope: &mut Scope, dest: &WritableStream)
        ensures
            final(scope)@ == if self.shutting_down {
                old(scope)@
            } else {
                old(scope)@.emit(
                    Effect::OnFulfilled(
                        PromiseRef::WriterReady(dest@.id),
                        Reaction::PipeReady { pipe: self.id },
                    ),
                )
            },
    {
        if self.shutting_down {
            return ;
        }
        scope.emit(
            Effect::OnFulfilled(
                PromiseRef::WriterReady(dest.id),
                Reaction::PipeReady { pipe: self.id },
            ),
        );
    }

    /// Reads a chunk: the destination asks for one.
    pub fn pipe_ready_fulfilled(&self, scope: &mut Scope, source: &mut ReadableStream)
        requires
            !self.shutting_down ==> {
                &&& readable_world(*old(source), *old(scope)).wf()
                &&& old(source)@.slots.reader is Default
            },
        ensures
            readable_world(*final(source), *final(scope)) == ({
                let w = readable_world(*old(source), *old(scope));
                if self.shutting_down {
                    w
                } else {
                    w.read(ReadRequest::Pipe { pipe: self.id })
                }
            }),
    {
        if self.shutting_down {
            return ;
        }
        source.readable_stream_default_reader_read(scope, ReadRequest::Pipe { pipe: self.id });
    }

    /// Takes a chunk of the source and keeps it for a microtask.
    pub fn pipe_read_request_chunk_steps(&mut self, scope: &mut Scope, chunk: Value)
        requires
            old(self).pending_writes < u32::MAX,
        ensures
            *final(self) == (PipeState {
                pending_chunk: chunk,
                pending_writes: (old(self).pending_writes + 1) as u32,
                ..*old(self)
            }),
            final(scope)@ == old(scope)@.emit(
                Effect::Queue(Microtask::PipeWrite { pipe: old(self).id }),
            ),
    {
        self.pending_chunk = chunk;
        self.pending_writes = self.pending_writes + 1;
        scope.emit(Effect::Queue(Microtask::PipeWrite { pipe: self.id }));
    }

    /// Writes the chunk that waits to the destination; `promise` settles with the outcome.
    /// A pipe that has let go of its streams drops the chunk.
    pub fn pipe_deferred_write(
        &mut self,
        scope: &mut Scope,
        source: &ReadableStream,
        dest: &mut WritableStream,
        promise: u64,
    ) -> (step: PipeWriteStep)
        requires
            old(self).pending_writes > 0,
            old(dest)@.wf(),
        ensures
            (pipe_world(*final(self), *source, *final(dest), *final(scope)), step)
                == pipe_world(*old(self), *source, *old(dest), *old(scope)).write(
                PromiseRef::Request(promise),
            ),
            pipe_world(*old(self), *source, *old(dest), *old(scope)).wf() ==> pipe_world(
                *final(self),
                *source,
                *final(dest),
                *final(scope),
            ).wf(),
    {
        proof {
            let w = pipe_world(*self, *source, *dest, *scope);
            if w.wf() {
                law_pipe_write(w, PromiseRef::Request(promise));
            }
        }
        let mut chunk: Value = Value::Undefined;
        std::mem::swap(&mut chunk, &mut self.pending_chunk);
        if self.finished {
            self.pending_writes = self.pending_writes - 1;
            return PipeWriteStep::Done;
        }
        let promise: PromiseRef = PromiseRef::Request(promise);
        match dest.writable_stream_default_writer_write(scope, &chunk, promise) {
            WriteStep::Done => {},
            WriteStep::NeedsSize(algorithm) => {
                return PipeWriteStep::NeedsSize { algorithm, chunk };
            },
        }
        scope.emit(Effect::OnSettled(promise, Reaction::PipeWritten { pipe: self.id }));
        self.pipe_step(scope, dest);
        PipeWriteStep::Done
    }

    /// Writes a chunk once its size is known, or what kept it from being known.
    pub fn pipe_deferred_write_sized(
        &self,
        scope: &mut Scope,
        source: &ReadableStream,
        dest: &mut WritableStream,
        chunk: Value,
        size: Result<Number, Value>,
        promise: u64,
    )
        requires
            old(dest)@.wf(),
        ensures
            pipe_world(*self, *source, *final(dest), *final(scope)) == pipe_world(
                *self,
                *source,
                *old(dest),
                *old(scope),
            ).write_sized(chunk, size, PromiseRef::Request(promise)),
            pipe_world(*self, *source, *old(dest), *old(scope)).wf() ==> pipe_world(
                *self,
                *source,
                *final(dest),
                *final(scope),
            ).wf(),
    {
        proof {
            let w = pipe_world(*self, *source, *dest, *scope);
            if w.wf() {
                law_pipe_write_sized(w, chunk, size, PromiseRef::Request(promise));
            }
        }
        let promise: PromiseRef = PromiseRef::Request(promise);
        dest.writable_stream_default_writer_write_sized(
            scope,
            !self.finished,
            chunk,
            size,
            promise,
        );
        scope.emit(Effect::OnSettled(promise, Reaction::PipeWritten { pipe: self.id }));
        self.pipe_step(scope, dest);
    }

    /// Takes note that a write has settled; a shutdown that waits for the last one goes on.
    pub fn pipe_write_settled(
        &mut self,
        scope: &mut Scope,
        source: &mut ReadableStream,
        dest: &mut WritableStream,
    )
        requires
            old(self).pending_writes > 0,
            old(dest)@.wf(),
        ensures
            pipe_world(*final(self), *final(source), *final(dest), *final(scope)) == pipe_world(
                *old(self),
                *old(source),
                *old(dest),
                *old(scope),
            ).write_settled(),
            pipe_world(*old(self), *old(source), *old(dest), *old(scope)).wf() ==> pipe_world(
                *final(self),
                *final(source),
                *final(dest),
                *final(scope),
            ).wf(),
    {
        proof {
            let w = pipe_world(*self, *source, *dest, *scope);
            if w.wf() {
                law_pipe_write_settled(w);
            }
        }
        self.pending_writes = self.pending_writes - 1;
        if self.pending_writes == 0 && self.shutdown_waiting {
            self.shutdown_waiting = false;
            self.pipe_shutdown_do_proceed(scope, source, dest);
        }
    }

    /// Passes a failure of the source on to the destination, unless that is prevented.
    pub fn pipe_fwd_error(
        &mut self,
        scope: &mut Scope,
        source: &mut ReadableStream,
        dest: &mut WritableStream,
        error: Value,
    )
        requires
            !old(self).shutting_down ==> old(dest)@.wf(),
        ensures
            pipe_world(*final(self), *final(source), *final(dest), *final(scope)) == pipe_world(
                *old(self),
                *old(source),
                *old(dest),
                *old(scope),
            ).forward_error(error),
            final(self).shutting_down,
            pipe_world(*old(self), *old(source), *old(dest), *old(scope)).wf() ==> pipe_world(
                *final(self),
                *final(source),
                *final(dest),
                *final(scope),
            ).wf(),
    {
        if self.prevent_abort {
            self.pipe_shutdown(scope, source, dest, Some(error));
        } else {
            self.pipe_begin_shutdown_with_action(
                scope,
                source,
                dest,
                PipeAction::AbortDest,
                error.clone(),
                Some(error),
            );
        }
    }

    /// Passes a failure of the destination on to the source, unless that is prevented.
    pub fn pipe_bwd_error(
        &mut self,
        scope: &mut Scope,
        source: &mut ReadableStream,
        dest: &mut WritableStream,
        error: Value,
    )
        requires
            !old(self).shutting_down ==> old(dest)@.wf(),
        ensures
            pipe_world(*final(self), *final(source), *final(dest), *final(scope)) == pipe_world(
                *old(self),
                *old(source),
                *old(dest),
                *old(scope),
            ).backward_error(error),
            final(self).shutting_down,
            pipe_world(*old(self), *old(source), *old(dest), *old(scope)).wf() ==> pipe_world(
                *final(self),
                *final(source),
                *final(dest),
                *final(scope),
            ).wf(),
    {
        if self.prevent_cancel {
            self.pipe_shutdown(scope, source, dest, Some(error));
        } else {
            self.pipe_begin_shutdown_with_action(
                scope,
                source,
                dest,
                PipeAction::CancelSource,
                error.clone(),
                Some(error),
            );
        }
    }

    /// Passes the end of the source on to the destination, unless that is prevented.
    pub fn pipe_fwd_close(
        &mut self,
        scope: &mut Scope,
        source: &mut ReadableStream,
        dest: &mut WritableStream,
    )
        requires
            !old(self).shutting_down ==> old(dest)@.wf(),
        ensures
            pipe_world(*final(self), *final(source), *final(dest), *final(scope)) == pipe_world(
                *old(self),
                *old(source),
                *old(dest),
                *old(scope),
            ).forward_close(),
            final(self).shutting_down,
            pipe_world(*old(self), *old(source), *old(dest), *old(scope)).wf() ==> pipe_world(
                *final(self),
                *final(source),
                *final(dest),
                *final(scope),
            ).wf(),
    {
        if self.prevent_close {
            self.pipe_shutdown(scope, source, dest, None);
        } else {
            self.pipe_begin_shutdown_with_action(
                scope,
                source,
                dest,
                PipeAction::CloseWriter,
                Value::Undefined,
                None,
            );
        }
    }

    /// Begins a shutdown with an action, unless one has begun.
    pub fn pipe_begin_shutdown_with_action(
        &mut self,
        scope: &mut Scope,
        source: &mut ReadableStream,
        dest: &mut WritableStream,
        kind: PipeAction,
        action_error: Value,
        original_error: Option<Value>,
    )
        requires
            !old(self).shutting_down ==> old(dest)@.wf(),
        ensures
            pipe_world(*final(self), *final(source), *final(dest), *final(scope)) == pipe_world(
                *old(self),
                *old(source),
                *old(dest),
                *old(scope),
            ).shutdown(kind, action_error, original_error),
            final(self).shutting_down,
            pipe_world(*old(self), *old(source), *old(dest), *old(scope)).wf() ==> pipe_world(
                *final(self),
                *final(source),
                *final(dest),
                *final(scope),
            ).wf(),
    {
        proof {
            let w = pipe_world(*self, *source, *dest, *scope);
            if w.wf() {
                law_pipe_shutdown(w, kind, action_error, original_error);
            }
        }
        if self.shutting_down {
            return ;
        }
        self.shutting_down = true;
        self.action_kind = kind;
        self.action_error = action_error;
        self.original_error = original_error;
        self.pipe_shutdown_wait_then_proceed(scope, source, dest);
    }

    /// Begins a shutdown without an action, unless one has begun.
    pub fn pipe_shutdown(
        &mut self,
        scope: &mut Scope,
        source: &mut ReadableStream,
        dest: &mut WritableStream,
        error: Option<Value>,
    )
        requires
            !old(self).shutting_down ==> old(dest)@.wf(),
        ensures
            pipe_world(*final(self), *final(source), *final(dest), *final(scope)) == pipe_world(
                *old(self),
                *old(source),
                *old(dest),
                *old(scope),
            ).shutdown(PipeAction::Nothing, Value::Undefined, error),
            final(self).shutting_down,
            pipe_world(*old(self), *old(source), *old(dest), *old(scope)).wf() ==> pipe_world(
                *final(self),
                *final(source),
                *final(dest),
                *final(scope),
            ).wf(),
    {
        self.pipe_begin_shutdown_with_action(
            scope,
            source,
            dest,
            PipeAction::Nothing,
            Value::Undefined,
            error,
        );
    }

    /// Goes on with a shutdown, once what has been read has been written.
    pub fn pipe_shutdown_wait_then_proceed(
        &mut self,
        scope: &mut Scope,
        source: &mut ReadableStream,
        dest: &mut WritableStream,
    )
        requires
            old(dest)@.wf(),
        ensures
            pipe_world(*final(self), *final(source), *final(dest), *final(scope)) == pipe_world(
                *old(self),
                *old(source),
                *old(dest),
                *old(scope),
            ).wait_then_proceed(),
            final(self).shutting_down == old(self).shutting_down,
            ({
                &&& pipe_world(*old(self), *old(source), *old(dest), *old(scope)).wf()
                &&& old(self).shutting_down
                &&& !old(self).shutdown_waiting
                &&& !old(self).finished
            }) ==> pipe_world(*final(self), *final(source), *final(dest), *final(scope)).wf(),
    {
        proof {
            let w = pipe_world(*self, *source, *dest, *scope);
            if w.wf() && w.state.shutting_down && !w.state.shutdown_waiting && !w.state.finished {
                law_pipe_waits(w);
            }
        }
        if dest.state == WritableStreamState::Writable
            && !dest.writable_stream_close_queued_or_in_flight() {
            if self.pending_writes > 0 {
                self.shutdown_waiting = true;
            } else {
                scope.emit(Effect::Queue(Microtask::PipeShutdown { pipe: self.id }));
            }
        } else {
            self.pipe_shutdown_do_proceed(scope, source, dest);
        }
    }

    /// Goes on with a shutdown, unless a chunk has been read meanwhile.
    pub fn pipe_shutdown_proceed_deferred(
        &mut self,
        scope: &mut Scope,
        source: &mut ReadableStream,
        dest: &mut WritableStream,
    )
        requires
            old(dest)@.wf(),
        ensures
            pipe_world(*final(self), *final(source), *final(dest), *final(scope)) == pipe_world(
                *old(self),
                *old(source),
                *old(dest),
                *old(scope),
            ).proceed_deferred(),
            ({
                &&& pipe_world(*old(self), *old(source), *old(dest), *old(scope)).wf()
                &&& old(self).shutting_down
                &&& !old(self).shutdown_waiting
                &&& !old(self).finished
            }) ==> pipe_world(*final(self), *final(source), *final(dest), *final(scope)).wf(),
    {
        proof {
            let w = pipe_world(*self, *source, *dest, *scope);
            if w.wf() && w.state.shutting_down && !w.state.shutdown_waiting && !w.state.finished {
                law_pipe_waits(w);
            }
        }
        if self.pending_writes > 0 {
            self.shutdown_waiting = true;
        } else {
            self.pipe_shutdown_do_proceed(scope, source, dest);
        }
    }

    /// Performs the action of a shutdown; once its outcome is known, the pipe ends.
    pub fn pipe_shutdown_do_proceed(
        &mut self,
        scope: &mut Scope,
        source: &mut ReadableStream,
        dest: &mut WritableStream,
    )
        requires
            old(dest)@.wf(),
        ensures
            pipe_world(*final(self), *final(source), *final(dest), *final(scope)) == pipe_world(
                *old(self),
                *old(source),
                *old(dest),
                *old(scope),
            ).proceed(),
            final(self).shutting_down == old(self).shutting_down,
            ({
                &&& pipe_world(*old(self), *old(source), *old(dest), *old(scope)).wf()
                &&& old(self).shutting_down
                &&& !old(self).shutdown_waiting
                &&& !old(self).finished
            }) ==> pipe_world(*final(self), *final(source), *final(dest), *final(scope)).wf(),
    {
        proof {
            let w = pipe_world(*self, *source, *dest, *scope);
            if w.wf() && w.state.shutting_down && !w.state.shutdown_waiting && !w.state.finished {
                law_pipe_proceed(w);
            }
        }
        reveal(PipeWorld::proceed);
        let action: PromiseRef = PromiseRef::PipeAction(self.id);
        let cancelation: PromiseRef = PromiseRef::PipeCancel(self.id);
        let reaction: Reaction = Reaction::PipeAction { pipe: self.id };
        match self.action_kind {
            PipeAction::Nothing => {
                let error: Option<Value> = self.original_error();
                self.pipe_finalize(scope, source, dest, error);
            },
            PipeAction::AbortDest => {
                scope.emit(Effect::NewPromise(action));
                match dest.writable_stream_abort(scope, self.action_error.clone(), action) {
                    AbortStep::Done => {
                        scope.emit(Effect::OnSettled(action, reaction));
                    },
                    AbortStep::Signaling => {
                        scope.emit(Effect::PipeAbortSignaled { pipe: self.id });
                    },
                }
            },
            PipeAction::CancelSource => {
                scope.emit(Effect::NewPromise(cancelation));
                source.readable_stream_cancel(scope, self.action_error.clone(), cancelation);
                scope.emit(Effect::OnSettled(cancelation, reaction));
            },
            PipeAction::CloseWriter => {
                scope.emit(Effect::NewPromise(action));
                dest.writable_stream_default_writer_close_with_error_propagation(scope, action);
                scope.emit(Effect::OnSettled(action, reaction));
            },
            PipeAction::AbortAlgorithm => {
                self.pipe_build_abort_actions_promise(scope, source, dest);
            },
        }
    }

    /// The error that the pipe ends with, if it ends with one.
    fn original_error(&self) -> (error: Option<Value>)
        ensures
            error == self.original_error,
    {
        match &self.original_error {
            Some(error) => Some(error.clone()),
            None => None,
        }
    }

    /// Aborts the destination and cancels the source, as far as they are open and that is
    /// not prevented, and waits for both.
    fn pipe_build_abort_actions_promise(
        &self,
        scope: &mut Scope,
        source: &mut ReadableStream,
        dest: &mut WritableStream,
    )
        requires
            self.action_kind is AbortAlgorithm,
        ensures
            pipe_world(*self, *final(source), *final(dest), *final(scope)) == pipe_world(
                *self,
                *old(source),
                *old(dest),
                *old(scope),
            ).proceed(),
    {
        reveal(PipeWorld::proceed);
        if self.prevent_abort {
            self.pipe_cancel_source(scope, source, dest, None);
            return ;
        }
        let action: PromiseRef = PromiseRef::PipeAction(self.id);
        scope.emit(Effect::NewPromise(action));
        if dest.state == WritableStreamState::Writable {
            let _ = dest.writable_stream_abort(scope, self.action_error.clone(), action);
            scope.emit(Effect::PipeAbortSignaled { pipe: self.id });
        } else {
            scope.emit(Effect::Resolve(action, Value::Undefined));
            self.pipe_cancel_source(scope, source, dest, Some(action));
        }
    }

    /// Cancels the source on behalf of a signal, as far as it is open and that is not
    /// prevented, and waits for that and for what became of the destination.
    pub fn pipe_cancel_source(
        &self,
        scope: &mut Scope,
        source: &mut ReadableStream,
        dest: &WritableStream,
        aborted: Option<PromiseRef>,
    )
        ensures
            pipe_world(*self, *final(source), *dest, *final(scope)) == pipe_world(
                *self,
                *old(source),
                *dest,
                *old(scope),
            ).cancel_for_signal(aborted),
            pipe_world(*self, *old(source), *dest, *old(scope)).wf() ==> pipe_world(
                *self,
                *final(source),
                *dest,
                *final(scope),
            ).wf(),
    {
        proof {
            let w = pipe_world(*self, *source, *dest, *scope);
            if w.wf() {
                law_pipe_cancel_source(w, aborted);
            }
        }
        let reaction: Reaction = Reaction::PipeAction { pipe: self.id };
        if self.prevent_cancel {
            scope.emit(Effect::OnBothSettled(aborted, None, reaction));
            return ;
        }
        let cancelation: PromiseRef = PromiseRef::PipeCancel(self.id);
        scope.emit(Effect::NewPromise(cancelation));
        if source.slots.state == ReadableStreamState::Readable {
            source.readable_stream_cancel(scope, self.action_error.clone(), cancelation);
        } else {
            scope.emit(Effect::Resolve(cancelation, Value::Undefined));
        }
        scope.emit(Effect::OnBothSettled(aborted, Some(cancelation), reaction));
    }

    /// Aborts the destination, after its author has heard of it.
    pub fn pipe_abort_signaled(
        &self,
        scope: &mut Scope,
        source: &ReadableStream,
        dest: &mut WritableStream,
    )
        ensures
            pipe_world(*self, *source, *final(dest), *final(scope)) == pipe_world(
                *self,
                *source,
                *old(dest),
                *old(scope),
            ).abort_signaled(),
            pipe_world(*self, *source, *old(dest), *old(scope)).wf() ==> pipe_world(
                *self,
                *source,
                *final(dest),
                *final(scope),
            ).wf(),
    {
        proof {
            let w = pipe_world(*self, *source, *dest, *scope);
            if w.wf() {
                law_pipe_abort_signaled(w);
            }
        }
        let outcome: PromiseRef = dest.writable_stream_abort_signaled(
            scope,
            self.action_error.clone(),
            PromiseRef::PipeAction(self.id),
        );
        if self.action_kind == PipeAction::AbortAlgorithm {
            scope.emit(Effect::PipeCancelSource { pipe: self.id, aborted: outcome });
        } else {
            scope.emit(Effect::OnSettled(outcome, Reaction::PipeAction { pipe: self.id }));
        }
    }

    /// Ends the pipe: its action has succeeded.
    pub fn pipe_action_fulfilled(
        &mut self,
        scope: &mut Scope,
        source: &mut ReadableStream,
        dest: &mut WritableStream,
    )
        ensures
            pipe_world(*final(self), *final(source), *final(dest), *final(scope)) == pipe_world(
                *old(self),
                *old(source),
                *old(dest),
                *old(scope),
            ).finalize(old(self).original_error),
            ({
                &&& pipe_world(*old(self), *old(source), *old(dest), *old(scope)).wf()
                &&& old(self).shutting_down
                &&& !old(self).shutdown_waiting
            }) ==> pipe_world(*final(self), *final(source), *final(dest), *final(scope)).wf(),
    {
        let error: Option<Value> = self.original_error();
        self.pipe_finalize(scope, source, dest, error);
    }

    /// Ends the pipe with an error: its action has failed.
    pub fn pipe_action_rejected(
        &mut self,
        scope: &mut Scope,
        source: &mut ReadableStream,
        dest: &mut WritableStream,
        error: Value,
    )
        ensures
            pipe_world(*final(self), *final(source), *final(dest), *final(scope)) == pipe_world(
                *old(self),
                *old(source),
                *old(dest),
                *old(scope),
            ).finalize(Some(error)),
            ({
                &&& pipe_world(*old(self), *old(source), *old(dest), *old(scope)).wf()
                &&& old(self).shutting_down
                &&& !old(self).shutdown_waiting
            }) ==> pipe_world(*final(self), *final(source), *final(dest), *final(scope)).wf(),
    {
        self.pipe_finalize(scope, source, dest, Some(error));
    }

    /// Lets go of both streams and tells how the pipe ended.
    pub fn pipe_finalize(
        &mut self,
        scope: &mut Scope,
        source: &mut ReadableStream,
        dest: &mut WritableStream,
        error: Option<Value>,
    )
        ensures
            pipe_world(*final(self), *final(source), *final(dest), *final(scope)) == pipe_world(
                *old(self),
                *old(source),
                *old(dest),
                *old(scope),
            ).finalize(error),
            ({
                &&& pipe_world(*old(self), *old(source), *old(dest), *old(scope)).wf()
                &&& old(self).shutting_down
                &&& !old(self).shutdown_waiting
            }) ==> pipe_world(*final(self), *final(source), *final(dest), *final(scope)).wf(),
    {
        proof {
            let w = pipe_world(*self, *source, *dest, *scope);
            if w.wf() && w.state.shutting_down && !w.state.shutdown_waiting {
                law_pipe_finalize(w, error);
            }
        }
        dest.writable_stream_default_writer_release(scope);
        source.readable_stream_reader_generic_release(scope);
        match self.signal {
            Some(signal) => {
                scope.emit(Effect::RemoveAbortAlgorithm { signal, pipe: self.id });
            },
            None => {},
        }
        let done: PromiseRef = PromiseRef::Pipe(self.id);
        match error {
            Some(error) => {
                scope.emit(Effect::Reject(done, error));
            },
            None => {
                scope.emit(Effect::Resolve(done, Value::Undefined));
            },
        }
        self.finished = true;
    }

    /// Shuts the pipe down: its signal has been aborted.
    pub fn pipe_abort_algorithm(
        &mut self,
        scope: &mut Scope,
        source: &mut ReadableStream,
        dest: &mut WritableStream,
        reason: Value,
    )
        requires
            !old(self).shutting_down ==> old(dest)@.wf(),
        ensures
            pipe_world(*final(self), *final(source), *final(dest), *final(scope)) == pipe_world(
                *old(self),
                *old(source),
                *old(dest),
                *old(scope),
            ).abort_by_signal(reason),
            pipe_world(*old(self), *old(source), *old(dest), *old(scope)).wf() ==> pipe_world(
                *final(self),
                *final(source),
                *final(dest),
                *final(scope),
            ).wf(),
    {
        self.pipe_begin_shutdown_with_action(
            scope,
            source,
            dest,
            PipeAction::AbortAlgorithm,
            reason.clone(),
            Some(reason),
        );
    }
}

impl ReadableStream {
    /// Pipes the stream into another. What keeps it from being piped, an option that will
    /// not do before all else, is what the promise for the end of the pipe is rejected with.
    pub fn pipe_to(
        &mut self,
        scope: &mut Scope,
        destination: &mut WritableStream,
        id: u64,
        options: Result<Option<StreamPipeOptions>, Value>,
        aborted: Option<Value>,
    ) -> (state: Option<PipeState>)
        requires
            old(destination)@.wf(),
        ensures
            ({
                let w = pipe_world(
                    new_pipe(id, given_options(options)),
                    *old(self),
                    *old(destination),
                    *old(scope),
                );
                match pipe_refusal(w, options) {
                    Some(error) => {
                        &&& state is None
                        &&& final(self)@ == old(self)@
                        &&& final(destination)@ == old(destination)@
                        &&& final(scope)@ == old(scope)@.emit(
                            Effect::NewPromise(PromiseRef::Pipe(id)),
                        ).emit(Effect::Reject(PromiseRef::Pipe(id), error))
                    },
                    None => {
                        &&& state matches Some(state)
                        &&& pipe_world(state, *final(self), *final(destination), *final(scope))
                            == w.begin(aborted)
                        &&& w.from().sound() ==> w.begin(aborted).wf()
                    },
                }
            }),
    {
        let refusal: Value;
        match options {
            Err(error) => {
                refusal = error;
            },
            Ok(options) => {
                match self.pipe_lock_error(destination) {
                    Some(error) => {
                        refusal = error;
                    },
                    None => {
                        let given: StreamPipeOptions = pipe_options(&options);
                        let state: PipeState = readable_stream_pipe_to(
                            scope,
                            self,
                            destination,
                            id,
                            given,
                            aborted,
                        );
                        return Some(state);
                    },
                }
            },
        }
        scope.emit(Effect::NewPromise(PromiseRef::Pipe(id)));
        scope.emit(Effect::Reject(PromiseRef::Pipe(id), refusal));
        None
    }

    /// Pipes the stream through a transform: into the writable end of a pair, whose readable
    /// end is what the caller goes on with. What becomes of the pipe is told by the streams,
    /// so a rejection of its promise counts as handled.
    pub fn pipe_through(
        &mut self,
        scope: &mut Scope,
        transform: ReadableWritablePair,
        writable: &mut WritableStream,
        id: u64,
        options: Option<StreamPipeOptions>,
        aborted: Option<Value>,
    ) -> (result: Result<(PipeState, u64), Value>)
        requires
            old(writable)@.id == transform.writable,
            old(writable)@.wf(),
        ensures
            ({
                let w = pipe_world(
                    new_pipe(id, given_options(Ok(options))),
                    *old(self),
                    *old(writable),
                    *old(scope),
                );
                match pipe_refusal(w, Ok(options)) {
                    Some(error) => {
                        &&& result == Err::<(PipeState, u64), Value>(error)
                        &&& final(self)@ == old(self)@
                        &&& final(writable)@ == old(writable)@
                        &&& final(scope)@ == old(scope)@
                    },
                    None => {
                        &&& result matches Ok((state, readable))
                        &&& readable == transform.readable
                        &&& pipe_world(state, *final(self), *final(writable), *final(scope))
                            == w.begin(aborted).emit(Effect::MarkHandled(PromiseRef::Pipe(id)))
                        &&& w.from().sound() ==> w.begin(aborted).wf()
                    },
                }
            }),
    {
        match self.pipe_lock_error(writable) {
            Some(error) => {
                return Err(error);
            },
            None => {},
        }
        let given: StreamPipeOptions = pipe_options(&options);
        let state: PipeState = readable_stream_pipe_to(scope, self, writable, id, given, aborted);
        scope.emit(Effect::MarkHandled(PromiseRef::Pipe(id)));
        Ok((state, transform.readable))
    }

    /// Why the stream cannot be piped into another, if it cannot: one of them is locked.
    fn pipe_lock_error(&self, dest: &WritableStream) -> (error: Option<Value>)
        ensures
            error == pipe_lock_refusal(self@, dest@),
    {
        if self.is_locked() {
            return Some(Value::TypeError(Message::PipeFromLocked));
        }
        if dest.is_writable_stream_locked() {
            return Some(Value::TypeError(Message::PipeToLocked));
        }
        None
    }
}

/// The options of a pipe, each as it stands or as it is by default.
pub open spec fn given_options(options: Result<Option<StreamPipeOptions>, Value>)
    -> StreamPipeOptions {
    match options {
        Ok(Some(options)) => options,
        _ => StreamPipeOptions {
            prevent_close: false,
            prevent_abort: false,
            prevent_cancel: false,
            signal: None,
        },
    }
}

/// Why one stream cannot be piped into another, if it cannot.
pub open spec fn pipe_lock_refusal(source: ReadableModel, dest: WritableModel) -> Option<Value> {
    if source.slots.locked() {
        Some(Value::TypeError(Message::PipeFromLocked))
    } else if dest.locked() {
        Some(Value::TypeError(Message::PipeToLocked))
    } else {
        None
    }
}

/// Why a pipe with the given options is refused, if it is.
pub open spec fn pipe_refusal(
    w: PipeWorld,
    options: Result<Option<StreamPipeOptions>, Value>,
) -> Option<Value> {
    match options {
        Err(error) => Some(error),
        Ok(_) => pipe_lock_refusal(w.source, w.dest),
    }
}

} // verus!
