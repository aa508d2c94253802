//! What holds of every pipe.

use vstd::prelude::*;

use crate::number::{Number, ONE};
use crate::readable::pipe::{PipeAction, PipeState, PipeWorld, PipeWriteStep};
use crate::readable::read_request::ReadRequest;
use crate::readable::stream_laws::{law_stream_read, law_stream_sound};
use crate::readable::stream_world::ReadableWorld;
use crate::scope::{Effect, Microtask, PromiseRef, Reaction};
use crate::value::{Message, Value};
use crate::writable::laws::{law_abort, law_close, law_write, law_writer_lock};
use crate::writable::world::{WritableWorld, WriteStep};

verus! {

impl PipeWorld {
    /// What holds of a pipe between two operations.
    #[verifier::opaque]
    pub open spec fn wf(self) -> bool {
        &&& self.from().sound()
        &&& self.dest.wf()
        &&& !self.state.finished ==> {
            &&& self.source.slots.reader is Default
            &&& self.dest.locked()
        }
        &&& self.state.finished ==> self.state.shutting_down
        &&& self.state.shutdown_waiting ==> {
            &&& self.state.shutting_down
            &&& !self.state.finished
            &&& self.state.pending_writes > 0
        }
    }
}

/// What a stream owes does not hang on the effects that have been noted.
proof fn lemma_source_sound(w: ReadableWorld, other: ReadableWorld)
    requires
        w.sound(),
        other.stream == w.stream,
        other.scope.heap == w.scope.heap,
    ensures
        other.sound(),
{
}

/// A cancelation leaves the source of a pipe sound.
proof fn lemma_cancel_source(w: ReadableWorld, reason: Value, result: PromiseRef)
    requires
        w.sound(),
    ensures
        w.cancel(reason, result).sound(),
        w.stream.slots.reader is Default ==> w.cancel(
            reason,
            result,
        ).stream.slots.reader is Default,
{
    law_stream_sound(w, reason, result);
}

/// A release leaves the source of a pipe sound.
proof fn lemma_release_source(w: ReadableWorld)
    requires
        w.sound(),
    ensures
        w.release().sound(),
        !w.release().stream.slots.locked(),
        w.release().scope.heap == w.scope.heap,
{
    law_stream_sound(w, Value::Undefined, PromiseRef::Pipe(0));
}

/// A read of a pipe leaves it well formed.
pub proof fn law_pipe_read(w: PipeWorld)
    requires
        w.wf(),
        w.scope.heap.len() < usize::MAX,
    ensures
        w.ready().wf(),
        w.step().wf(),
{
    reveal(PipeWorld::wf);
    if !w.state.shutting_down {
        law_stream_read(w.from(), ReadRequest::Pipe { pipe: w.state.id });
    }
}

/// The end of a pipe leaves it well formed: it lets go of both streams, and its promise is
/// settled after all else, with the error if there is one.
pub proof fn law_pipe_finalize(w: PipeWorld, error: Option<Value>)
    requires
        w.wf(),
        w.state.shutting_down,
        !w.state.shutdown_waiting,
    ensures
        w.finalize(error).wf(),
        w.finalize(error).state.finished,
        !w.finalize(error).source.slots.locked(),
        !w.finalize(error).dest.locked(),
        w.finalize(error).scope.effects.last() == match error {
            Some(error) => Effect::Reject(w.done(), error),
            None => Effect::Resolve(w.done(), Value::Undefined),
        },
{
    reveal(PipeWorld::wf);
    law_writer_lock(w.to());
    let released = w.with_dest(w.to().release());
    lemma_source_sound(w.from(), released.from());
    lemma_release_source(released.from());
    let free = released.with_source(released.from().release());
    lemma_source_sound(free.from(), w.finalize(error).from());
}

/// The action of a shutdown leaves a pipe well formed. One without an action ends the pipe
/// at once.
pub proof fn law_pipe_proceed(w: PipeWorld)
    requires
        w.wf(),
        w.state.shutting_down,
        !w.state.shutdown_waiting,
        !w.state.finished,
    ensures
        w.proceed().wf(),
        w.proceed().state.finished <==> w.state.action_kind is Nothing,
{
    reveal(PipeWorld::wf);
    reveal(PipeWorld::proceed);
    let error = w.state.action_error;
    match w.state.action_kind {
        PipeAction::Nothing => {
            law_pipe_finalize(w, w.state.original_error);
        },
        PipeAction::AbortDest => {},
        PipeAction::CancelSource => {
            let asked = w.emit(Effect::NewPromise(w.cancelation()));
            lemma_source_sound(w.from(), asked.from());
            lemma_cancel_source(asked.from(), error, w.cancelation());
            lemma_source_sound(
                asked.from().cancel(error, w.cancelation()),
                w.proceed().from(),
            );
        },
        PipeAction::CloseWriter => {
            let asked = w.emit(Effect::NewPromise(w.action()));
            if !w.dest.close_queued_or_in_flight() {
                law_close(asked.to(), w.action());
            }
            lemma_source_sound(w.from(), w.proceed().from());
        },
        PipeAction::AbortAlgorithm => {
            if w.state.prevent_abort {
                law_pipe_cancel_source(w, None);
            } else if w.dest.state !is Writable {
                let settled = w.emit(Effect::NewPromise(w.action())).emit(
                    Effect::Resolve(w.action(), Value::Undefined),
                );
                lemma_source_sound(w.from(), settled.from());
                law_pipe_cancel_source(settled, Some(w.action()));
            }
        },
    }
}

/// The cancelation of the source that an aborted signal asks for leaves a pipe well formed.
pub proof fn law_pipe_cancel_source(w: PipeWorld, aborted: Option<PromiseRef>)
    requires
        w.wf(),
    ensures
        w.cancel_for_signal(aborted).wf(),
        w.cancel_for_signal(aborted).state == w.state,
{
    reveal(PipeWorld::wf);
    let asked = w.emit(Effect::NewPromise(w.cancelation()));
    lemma_source_sound(w.from(), asked.from());
    lemma_cancel_source(asked.from(), w.state.action_error, w.cancelation());
    if !w.state.prevent_cancel && w.source.slots.state is Readable {
        lemma_source_sound(
            asked.from().cancel(w.state.action_error, w.cancelation()),
            w.cancel_for_signal(aborted).from(),
        );
    }
}

/// The abort of the destination of a pipe leaves it well formed, and the source alone: that is
/// seen to after the sink has heard of the abort.
pub proof fn law_pipe_abort_signaled(w: PipeWorld)
    requires
        w.wf(),
    ensures
        w.abort_signaled().wf(),
        w.abort_signaled().state == w.state,
        w.abort_signaled().source == w.source,
        w.abort_signaled().dest.state !is Writable,
{
    reveal(PipeWorld::wf);
    law_abort(w.to(), w.state.action_error, w.action());
    lemma_source_sound(w.from(), w.abort_signaled().from());
}

/// However a pipe comes to shut down, it stays well formed.
pub proof fn law_pipe_shutdown(
    w: PipeWorld,
    kind: PipeAction,
    action_error: Value,
    original_error: Option<Value>,
)
    requires
        w.wf(),
    ensures
        w.shutdown(kind, action_error, original_error).wf(),
        w.shutdown(kind, action_error, original_error).state.shutting_down,
{
    reveal(PipeWorld::wf);
    if !w.state.shutting_down {
        let begun = w.with_state(
            PipeState {
                shutting_down: true,
                action_kind: kind,
                action_error,
                original_error,
                ..w.state
            },
        );
        law_pipe_proceed(begun);
        lemma_proceed_state(begun);
    }
}

/// The action of a shutdown changes nothing of the state of a pipe but that it may be over.
pub proof fn lemma_proceed_state(w: PipeWorld)
    ensures
        w.proceed().state == (PipeState { finished: w.proceed().state.finished, ..w.state }),
        w.state.action_kind !is Nothing ==> w.proceed().state == w.state,
{
    reveal(PipeWorld::proceed);
}

/// A write keeps the lock of a writable stream and touches no buffer.
proof fn lemma_write_frame(
    w: WritableWorld,
    owned: bool,
    chunk: Value,
    size: Result<Number, Value>,
    promise: PromiseRef,
)
    ensures
        w.write_sized(owned, chunk, size, promise).scope.heap == w.scope.heap,
        w.write_sized(owned, chunk, size, promise).stream.locked() == w.stream.locked(),
{
}

/// A write leaves a pipe well formed.
pub proof fn law_pipe_write_sized(
    w: PipeWorld,
    chunk: Value,
    size: Result<Number, Value>,
    promise: PromiseRef,
)
    requires
        w.wf(),
    ensures
        w.write_sized(chunk, size, promise).wf(),
        w.write_sized(chunk, size, promise).state == w.state,
{
    reveal(PipeWorld::wf);
    let owned = !w.state.finished;
    let after = w.to().write_sized(owned, chunk, size, promise);
    law_write(w.to(), owned, chunk, size, promise);
    lemma_write_frame(w.to(), owned, chunk, size, promise);
    lemma_written(w, after, promise);
}

proof fn lemma_written(w: PipeWorld, after: WritableWorld, promise: PromiseRef)
    requires
        w.wf(),
        after.stream.wf(),
        after.stream.locked() == w.dest.locked(),
        after.scope.heap == w.scope.heap,
    ensures
        w.with_dest(after).written(promise).wf(),
        w.with_dest(after).written(promise).state == w.state,
{
    reveal(PipeWorld::wf);
    lemma_source_sound(w.from(), w.with_dest(after).written(promise).from());
}

/// The write of a chunk that was read leaves a pipe well formed.
pub proof fn law_pipe_write(w: PipeWorld, promise: PromiseRef)
    requires
        w.wf(),
        w.state.pending_writes > 0,
    ensures
        w.write(promise).0.wf(),
{
    reveal(PipeWorld::wf);
    let chunk = w.state.pending_chunk;
    let taken = w.with_state(PipeState { pending_chunk: Value::Undefined, ..w.state });
    lemma_source_sound(w.from(), taken.from());
    let size = Ok::<Number, Value>(Number { bits: ONE });
    let after = taken.to().write_sized(true, chunk, size, promise);
    if !w.state.finished {
        law_write(taken.to(), true, chunk, size, promise);
        lemma_write_frame(taken.to(), true, chunk, size, promise);
        lemma_written(taken, after, promise);
    }
}

/// A shutdown that waits, for the writes under way or for a microtask, leaves a pipe well
/// formed.
pub proof fn law_pipe_waits(w: PipeWorld)
    requires
        w.wf(),
        w.state.shutting_down,
        !w.state.shutdown_waiting,
        !w.state.finished,
    ensures
        w.wait_then_proceed().wf(),
        w.proceed_deferred().wf(),
{
    reveal(PipeWorld::wf);
    law_pipe_proceed(w);
    lemma_emit_wf(w, Effect::Queue(Microtask::PipeShutdown { pipe: w.state.id }));
    lemma_source_sound(
        w.from(),
        w.with_state(PipeState { shutdown_waiting: true, ..w.state }).from(),
    );
}

/// The news that a write has settled leaves a pipe well formed.
pub proof fn law_pipe_write_settled(w: PipeWorld)
    requires
        w.wf(),
        w.state.pending_writes > 0,
    ensures
        w.write_settled().wf(),
{
    reveal(PipeWorld::wf);
    if w.state.pending_writes == 1 && w.state.shutdown_waiting {
        let drained = w.with_state(PipeState { shutdown_waiting: false, ..w.fewer_writes() });
        law_pipe_proceed(drained);
    }
}

/// A pipe reads while it is not shutting down, and no longer; it shuts down once, whatever
/// asks for that afterwards.
pub proof fn law_pipe_shuts_down_once(w: PipeWorld, error: Value)
    requires
        w.state.shutting_down,
    ensures
        w.step() == w,
        w.ready() == w,
        w.forward_error(error) == w,
        w.backward_error(error) == w,
        w.forward_close() == w,
        w.abort_by_signal(error) == w,
{
}

/// What was read is written before a pipe ends: while the destination is open and the write
/// of a chunk has not settled, a shutdown touches neither stream. It goes on when the last
/// of the writes has settled, and not before.
pub proof fn law_pipe_drains(
    w: PipeWorld,
    kind: PipeAction,
    action_error: Value,
    original_error: Option<Value>,
)
    requires
        !w.state.shutting_down,
        w.dest_open(),
        w.state.pending_writes > 0,
    ensures
        ({
            let begun = w.shutdown(kind, action_error, original_error);
            let fewer = begun.write_settled();
            &&& begun.source == w.source
            &&& begun.dest == w.dest
            &&& begun.scope == w.scope
            &&& begun.state.shutdown_waiting
            &&& w.state.pending_writes > 1 ==> {
                &&& fewer.source == w.source
                &&& fewer.dest == w.dest
                &&& fewer.scope == w.scope
                &&& fewer.state.shutdown_waiting
            }
            &&& w.state.pending_writes == 1 ==> fewer == begun.with_state(
                PipeState { shutdown_waiting: false, ..begun.fewer_writes() },
            ).proceed()
        }),
{
}

/// A chunk is handed on as it was read: what the destination is asked to write is what the
/// source gave.
pub proof fn law_pipe_hands_on(w: PipeWorld, chunk: Value, promise: PromiseRef)
    requires
        !w.state.finished,
        w.state.pending_writes < u32::MAX,
    ensures
        ({
            let read = w.with_state(
                PipeState {
                    pending_chunk: chunk,
                    pending_writes: (w.state.pending_writes + 1) as u32,
                    ..w.state
                },
            );
            let (written, step) = read.write(promise);
            match w.to().write(chunk, promise).1 {
                WriteStep::Done => {
                    &&& step is Done
                    &&& written.dest == w.to().write(chunk, promise).0.stream
                },
                WriteStep::NeedsSize(algorithm) => {
                    &&& step == (PipeWriteStep::NeedsSize { algorithm, chunk })
                    &&& written.dest == w.dest
                },
            }
        }),
{
}

/// Which end of a stream a pipe goes by when it starts and there is more than one: a failure
/// of the source, then one of the destination, then the end of the source, then that of the
/// destination.
pub proof fn law_pipe_precedence(w: PipeWorld)
    requires
        !w.state.shutting_down,
    ensures
        w.source.slots.state is Errored ==> w.start().state.original_error == Some(
            w.source.slots.stored_error,
        ),
        w.source.slots.state !is Errored && w.dest.state is Errored
            ==> w.start().state.original_error == Some(w.dest.stored_error),
        w.source.slots.state is Closed && w.dest.state !is Errored
            ==> w.start().state.original_error is None && w.start().state.shutting_down,
        w.source.slots.state is Readable && w.dest.state !is Errored && (w.dest.state is Closed
            || w.dest.close_queued_or_in_flight()) ==> w.start().state.original_error == Some(
            Value::TypeError(Message::PipeDestinationClosed),
        ),
        w.source.slots.state is Readable && w.dest.state !is Errored && w.dest.state !is Closed
            && !w.dest.close_queued_or_in_flight() ==> {
            &&& !w.start().state.shutting_down
            &&& w.start().scope.effects.last() == Effect::OnFulfilled(
                PromiseRef::WriterReady(w.dest.id),
                Reaction::PipeReady { pipe: w.state.id },
            )
        },
{
    let id = w.state.id;
    let reader = PromiseRef::ReaderClosed(w.source.slots.id);
    let writer = PromiseRef::WriterClosed(w.dest.id);
    let first = w.emit(Effect::OnRejected(reader, Reaction::PipeForwardError { pipe: id }));
    let second = first.emit(
        Effect::OnRejected(writer, Reaction::PipeBackwardError { pipe: id }),
    );
    let third = second.emit(
        Effect::OnFulfilled(reader, Reaction::PipeForwardClose { pipe: id }),
    );
    if w.source.slots.state is Errored {
        lemma_first_shutdown(w, w.source.slots.stored_error);
    } else if w.dest.state is Errored {
        lemma_first_shutdown(first, w.dest.stored_error);
    } else if w.source.slots.state is Closed {
        lemma_first_shutdown(second, Value::Undefined);
    } else {
        lemma_first_shutdown(third, Value::TypeError(Message::PipeDestinationClosed));
    }
}

/// What the first shutdown of a pipe sets its state to.
proof fn lemma_first_shutdown(w: PipeWorld, error: Value)
    requires
        !w.state.shutting_down,
    ensures
        w.forward_error(error).state.shutting_down,
        w.forward_error(error).state.original_error == Some(error),
        w.backward_error(error).state.shutting_down,
        w.backward_error(error).state.original_error == Some(error),
        w.forward_close().state.shutting_down,
        w.forward_close().state.original_error is None,
{
    let nothing = PipeAction::Nothing;
    lemma_shutdown_state(w, nothing, Value::Undefined, Some(error));
    lemma_shutdown_state(w, PipeAction::AbortDest, error, Some(error));
    lemma_shutdown_state(w, PipeAction::CancelSource, error, Some(error));
    lemma_shutdown_state(w, nothing, Value::Undefined, None);
    lemma_shutdown_state(w, PipeAction::CloseWriter, Value::Undefined, None);
}

proof fn lemma_shutdown_state(
    w: PipeWorld,
    kind: PipeAction,
    action_error: Value,
    original_error: Option<Value>,
)
    requires
        !w.state.shutting_down,
    ensures
        w.shutdown(kind, action_error, original_error).state.shutting_down,
        w.shutdown(kind, action_error, original_error).state.original_error == original_error,
{
    lemma_proceed_state(
        w.with_state(
            PipeState {
                shutting_down: true,
                action_kind: kind,
                action_error,
                original_error,
                ..w.state
            },
        ),
    );
}

proof fn lemma_emit_wf(w: PipeWorld, effect: Effect)
    requires
        w.wf(),
    ensures
        w.emit(effect).wf(),
{
    reveal(PipeWorld::wf);
    lemma_source_sound(w.from(), w.emit(effect).from());
}

/// The start of a pipe leaves it well formed.
pub proof fn law_pipe_start(w: PipeWorld)
    requires
        w.wf(),
    ensures
        w.start().wf(),
{
    let id = w.state.id;
    let reader = PromiseRef::ReaderClosed(w.source.slots.id);
    let writer = PromiseRef::WriterClosed(w.dest.id);
    let forward = Effect::OnRejected(reader, Reaction::PipeForwardError { pipe: id });
    let first = if w.source.slots.state is Errored {
        w.forward_error(w.source.slots.stored_error)
    } else {
        w.emit(forward)
    };
    lemma_ends(w, w.source.slots.stored_error);
    lemma_emit_wf(w, forward);
    let backward = Effect::OnRejected(writer, Reaction::PipeBackwardError { pipe: id });
    let second = if first.dest.state is Errored {
        first.backward_error(first.dest.stored_error)
    } else {
        first.emit(backward)
    };
    lemma_ends(first, first.dest.stored_error);
    lemma_emit_wf(first, backward);
    let closing = Effect::OnFulfilled(reader, Reaction::PipeForwardClose { pipe: id });
    let third = if second.source.slots.state is Closed {
        second.forward_close()
    } else {
        second.emit(closing)
    };
    lemma_ends(second, Value::Undefined);
    lemma_emit_wf(second, closing);
    let closed = Value::TypeError(Message::PipeDestinationClosed);
    let fourth = if third.dest.close_queued_or_in_flight() || third.dest.state is Closed {
        third.backward_error(closed)
    } else {
        third
    };
    lemma_ends(third, closed);
    lemma_emit_wf(
        fourth,
        Effect::OnFulfilled(
            PromiseRef::WriterReady(fourth.dest.id),
            Reaction::PipeReady { pipe: fourth.state.id },
        ),
    );
    assert(w.start() == fourth.step());
}

/// However a pipe learns of the end of a stream, it stays well formed.
proof fn lemma_ends(w: PipeWorld, error: Value)
    requires
        w.wf(),
    ensures
        w.forward_error(error).wf(),
        w.backward_error(error).wf(),
        w.forward_close().wf(),
        w.abort_by_signal(error).wf(),
{
    let nothing = PipeAction::Nothing;
    law_pipe_shutdown(w, nothing, Value::Undefined, Some(error));
    law_pipe_shutdown(w, PipeAction::AbortDest, error, Some(error));
    law_pipe_shutdown(w, PipeAction::CancelSource, error, Some(error));
    law_pipe_shutdown(w, nothing, Value::Undefined, None);
    law_pipe_shutdown(w, PipeAction::CloseWriter, Value::Undefined, None);
    law_pipe_shutdown(w, PipeAction::AbortAlgorithm, error, Some(error));
}

/// Locking both streams to a pipe leaves it well formed.
proof fn lemma_pipe_locked(w: PipeWorld)
    requires
        w.from().sound(),
        w.dest.wf(),
        !w.source.slots.locked(),
        !w.dest.locked(),
        !w.state.shutting_down,
        !w.state.shutdown_waiting,
        !w.state.finished,
    ensures
        w.locked().wf(),
{
    reveal(PipeWorld::wf);
    law_stream_sound(w.from(), Value::Undefined, w.done());
    let read = w.with_source(w.from().acquire_default_reader().0);
    law_writer_lock(read.to());
}

proof fn lemma_native_passed(w: PipeWorld)
    requires
        w.wf(),
    ensures
        w.native_passed().wf(),
{
    reveal(PipeWorld::wf);
}

/// Piping one stream into another, where neither is locked, gives a well-formed pipe.
pub proof fn law_pipe_begin(w: PipeWorld, aborted: Option<Value>)
    requires
        w.from().sound(),
        w.dest.wf(),
        !w.source.slots.locked(),
        !w.dest.locked(),
        !w.state.shutting_down,
        !w.state.shutdown_waiting,
        !w.state.finished,
    ensures
        w.begin(aborted).wf(),
{
    lemma_pipe_locked(w);
    lemma_native_passed(w.locked());
    let passed = w.locked().native_passed();
    let set_up = passed.emit(Effect::NewPromise(w.done()));
    lemma_emit_wf(passed, Effect::NewPromise(w.done()));
    match w.state.signal {
        None => {
            law_pipe_start(set_up);
        },
        Some(signal) => match aborted {
            Some(reason) => {
                lemma_ends(set_up, reason);
            },
            None => {
                let added = Effect::AddAbortAlgorithm { signal, pipe: w.state.id };
                lemma_emit_wf(set_up, added);
                law_pipe_start(set_up.emit(added));
            },
        },
    }
}

/// Whether effects come after others, which stay as they are.
spec fn follow(before: Seq<Effect>, after: Seq<Effect>) -> bool {
    &&& before.len() <= after.len()
    &&& forall|i: int| 0 <= i < before.len() ==> #[trigger] after[i] == before[i]
}

proof fn lemma_finalize_follows(w: PipeWorld, error: Option<Value>)
    ensures
        follow(w.scope.effects, w.finalize(error).scope.effects),
{
    let released = w.with_dest(w.to().release());
    assert(follow(w.scope.effects, released.scope.effects));
    let free = released.with_source(released.from().release());
    assert(follow(released.scope.effects, free.scope.effects));
}

proof fn lemma_cancel_follows(w: ReadableWorld, reason: Value, result: PromiseRef)
    ensures
        follow(w.scope.effects, w.cancel(reason, result).scope.effects),
{
}

proof fn lemma_close_follows(w: WritableWorld, promise: PromiseRef)
    ensures
        follow(w.scope.effects, w.close_with_error_propagation(promise).scope.effects),
{
}

proof fn lemma_proceed_follows(w: PipeWorld)
    ensures
        follow(w.scope.effects, w.proceed().scope.effects),
{
    reveal(PipeWorld::proceed);
    lemma_finalize_follows(w, w.state.original_error);
    let error = w.state.action_error;
    let closing = w.emit(Effect::NewPromise(w.action()));
    lemma_close_follows(closing.to(), w.action());
    let canceling = w.emit(Effect::NewPromise(w.cancelation()));
    lemma_cancel_follows(canceling.from(), error, w.cancelation());
    let settled = closing.emit(Effect::Resolve(w.action(), Value::Undefined)).emit(
        Effect::NewPromise(w.cancelation()),
    );
    lemma_cancel_follows(settled.from(), error, w.cancelation());
}

proof fn lemma_shutdown_follows(
    w: PipeWorld,
    kind: PipeAction,
    action_error: Value,
    original_error: Option<Value>,
)
    ensures
        follow(
            w.scope.effects,
            w.shutdown(kind, action_error, original_error).scope.effects,
        ),
{
    lemma_proceed_follows(
        w.with_state(
            PipeState {
                shutting_down: true,
                action_kind: kind,
                action_error,
                original_error,
                ..w.state
            },
        ),
    );
}

proof fn lemma_ends_follow(w: PipeWorld, error: Value)
    ensures
        follow(w.scope.effects, w.forward_error(error).scope.effects),
        follow(w.scope.effects, w.backward_error(error).scope.effects),
        follow(w.scope.effects, w.forward_close().scope.effects),
        follow(w.scope.effects, w.abort_by_signal(error).scope.effects),
{
    let nothing = PipeAction::Nothing;
    lemma_shutdown_follows(w, nothing, Value::Undefined, Some(error));
    lemma_shutdown_follows(w, PipeAction::AbortDest, error, Some(error));
    lemma_shutdown_follows(w, PipeAction::CancelSource, error, Some(error));
    lemma_shutdown_follows(w, nothing, Value::Undefined, None);
    lemma_shutdown_follows(w, PipeAction::CloseWriter, Value::Undefined, None);
    lemma_shutdown_follows(w, PipeAction::AbortAlgorithm, error, Some(error));
}

proof fn lemma_start_follows(w: PipeWorld)
    ensures
        follow(w.scope.effects, w.start().scope.effects),
{
    let id = w.state.id;
    let reader = PromiseRef::ReaderClosed(w.source.slots.id);
    let writer = PromiseRef::WriterClosed(w.dest.id);
    let first = if w.source.slots.state is Errored {
        w.forward_error(w.source.slots.stored_error)
    } else {
        w.emit(Effect::OnRejected(reader, Reaction::PipeForwardError { pipe: id }))
    };
    lemma_ends_follow(w, w.source.slots.stored_error);
    let second = if first.dest.state is Errored {
        first.backward_error(first.dest.stored_error)
    } else {
        first.emit(Effect::OnRejected(writer, Reaction::PipeBackwardError { pipe: id }))
    };
    lemma_ends_follow(first, first.dest.stored_error);
    let third = if second.source.slots.state is Closed {
        second.forward_close()
    } else {
        second.emit(Effect::OnFulfilled(reader, Reaction::PipeForwardClose { pipe: id }))
    };
    lemma_ends_follow(second, Value::Undefined);
    let closed = Value::TypeError(Message::PipeDestinationClosed);
    let fourth = if third.dest.close_queued_or_in_flight() || third.dest.state is Closed {
        third.backward_error(closed)
    } else {
        third
    };
    lemma_ends_follow(third, closed);
    assert(w.start() == fourth.step());
}

/// A native source is known at the end of a pipeline too: where it stands behind the source
/// of a pipe, and the destination is the writable side of a transform stream that hands
/// chunks on unchanged, it is recorded behind the readable side of that.
pub proof fn law_pipe_passes_native_source(w: PipeWorld, aborted: Option<Value>)
    requires
        w.source.slots.native_byte_source is Some,
        w.dest.identity_transform is Some,
    ensures
        w.begin(aborted).scope.effects.contains(
            Effect::PassNativeSource {
                transform: w.dest.identity_transform->0,
                source: w.source.slots.native_byte_source->0,
            },
        ),
{
    let passed = w.locked().native_passed();
    let pass = Effect::PassNativeSource {
        transform: w.dest.identity_transform->0,
        source: w.source.slots.native_byte_source->0,
    };
    let place = passed.scope.effects.len() - 1;
    assert(passed.scope.effects[place] == pass);
    let set_up = passed.emit(Effect::NewPromise(w.done()));
    match w.state.signal {
        None => {
            lemma_start_follows(set_up);
        },
        Some(signal) => match aborted {
            Some(reason) => {
                lemma_ends_follow(set_up, reason);
            },
            None => {
                let added = Effect::AddAbortAlgorithm { signal, pipe: w.state.id };
                lemma_start_follows(set_up.emit(added));
            },
        },
    }
    assert(w.begin(aborted).scope.effects[place] == pass);
}

} // verus!
