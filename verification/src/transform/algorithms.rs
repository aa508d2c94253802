//! The operations on transform streams.

use vstd::prelude::*;

use crate::number::{Number, ONE};
use crate::readable::default_algorithms::{
    readable_stream_default_controller_can_close_or_enqueue,
    readable_stream_default_controller_enqueue,
    readable_stream_default_controller_enqueue_with_size,
    readable_stream_default_controller_get_desired_size,
    readable_stream_default_controller_has_backpressure,
};
use crate::readable::default_controller::{default_desired_size, EnqueueStep};
use crate::readable::readable_stream::{ReadableStreamState, StreamController};
use crate::readable::stream_world::ReadableWorld;
use crate::scope::{Algorithm, Call, Effect, PromiseRef, Scope};
use crate::transform::laws::{
    law_pull_ends_backpressure, law_terminate, law_transform_canceled, law_transform_end,
    law_transform_enqueue, law_transform_error,
};
use crate::transform::transform_stream::{transform_world, TransformStream};
use crate::transform::world::TransformModel;
use crate::value::{Message, Value};
use crate::writable::writable_stream::WritableStreamState;

verus! {

impl TransformStream {
    /// The room on the readable side.
    pub fn transform_controller_readable_desired_size(&self) -> (size: Option<Number>)
        requires
            self@.readable.controller is Default,
        ensures
            size == default_desired_size(
                self@.readable.slots,
                self@.readable.controller->Default_0,
            ),
    {
        match &self.readable.controller {
            StreamController::Default(controller) =>
                readable_stream_default_controller_get_desired_size(
                &self.readable.slots,
                controller,
            ),
            StreamController::Byte(_) => None,
        }
    }

    /// Whether the readable side may be closed or given a chunk.
    fn can_enqueue(&self) -> (can: bool)
        requires
            self@.readable.controller is Default,
        ensures
            can == self@.can_enqueue(),
    {
        match &self.readable.controller {
            StreamController::Default(controller) =>
                readable_stream_default_controller_can_close_or_enqueue(
                &self.readable.slots,
                controller,
            ),
            StreamController::Byte(_) => false,
        }
    }

    /// Whether the readable side pushes back.
    fn has_backpressure(&self) -> (backpressure: bool)
        requires
            self@.readable.controller is Default,
        ensures
            backpressure == !self@.wants_more(),
    {
        match &self.readable.controller {
            StreamController::Default(controller) =>
                readable_stream_default_controller_has_backpressure(
                &self.readable.slots,
                controller,
            ),
            StreamController::Byte(_) => true,
        }
    }

    /// Changes the backpressure, and tells who waits for that.
    pub fn transform_stream_set_backpressure(&mut self, scope: &mut Scope, backpressure: bool)
        requires
            old(self)@.backpressure != backpressure,
        ensures
            transform_world(*final(self), *final(scope)) == transform_world(
                *old(self),
                *old(scope),
            ).set_backpressure(backpressure),
    {
        let change: PromiseRef = PromiseRef::BackpressureChange(self.id);
        if self.has_change_promise {
            scope.emit(Effect::Resolve(change, Value::Undefined));
        }
        scope.emit(Effect::NewPromise(change));
        self.has_change_promise = true;
        self.backpressure = backpressure;
    }

    /// Lets a write on that waits for the backpressure to go.
    pub fn transform_stream_unblock_write(&mut self, scope: &mut Scope)
        ensures
            transform_world(*final(self), *final(scope)) == transform_world(
                *old(self),
                *old(scope),
            ).unblock_write(),
    {
        if self.backpressure {
            self.transform_stream_set_backpressure(scope, false);
        }
    }

    /// Lets go of the algorithms.
    pub fn transform_stream_default_controller_clear_algorithms(&mut self)
        ensures
            final(self)@ == (TransformModel {
                controller: old(self)@.controller.cleared_algorithms(),
                ..old(self)@
            }),
    {
        self.controller.transform_algorithm = Algorithm::Undefined;
        self.controller.flush_algorithm = Algorithm::Undefined;
        self.controller.cancel_algorithm = Algorithm::Undefined;
    }

    /// Fails the writable side, and lets a write on that waits.
    pub fn transform_stream_error_writable_and_unblock_write(
        &mut self,
        scope: &mut Scope,
        error: Value,
    )
        ensures
            transform_world(*final(self), *final(scope)) == transform_world(
                *old(self),
                *old(scope),
            ).error_writable(error),
    {
        self.transform_stream_default_controller_clear_algorithms();
        self.writable.writable_stream_default_controller_error_if_needed(scope, error);
        self.transform_stream_unblock_write(scope);
    }

    /// Fails both sides.
    pub fn transform_stream_error(&mut self, scope: &mut Scope, error: Value)
        ensures
            transform_world(*final(self), *final(scope)) == transform_world(
                *old(self),
                *old(scope),
            ).errored(error),
            transform_world(*old(self), *old(scope)).wf() ==> transform_world(
                *final(self),
                *final(scope),
            ).wf(),
    {
        proof {
            if transform_world(*self, *scope).wf() {
                law_transform_error(transform_world(*self, *scope), error);
            }
        }
        self.readable.readable_stream_error(scope, error.clone());
        self.transform_stream_error_writable_and_unblock_write(scope, error);
    }

    /// Fails both sides on behalf of the transformer.
    pub fn transform_stream_default_controller_error(&mut self, scope: &mut Scope, error: Value)
        ensures
            transform_world(*final(self), *final(scope)) == transform_world(
                *old(self),
                *old(scope),
            ).errored(error),
            transform_world(*old(self), *old(scope)).wf() ==> transform_world(
                *final(self),
                *final(scope),
            ).wf(),
    {
        self.transform_stream_error(scope, error);
    }

    /// Closes the readable side and fails the writable one.
    pub fn transform_stream_default_controller_terminate(&mut self, scope: &mut Scope)
        requires
            old(self)@.readable.controller is Default,
        ensures
            transform_world(*final(self), *final(scope)) == transform_world(
                *old(self),
                *old(scope),
            ).terminated(),
            transform_world(*old(self), *old(scope)).wf() ==> transform_world(
                *final(self),
                *final(scope),
            ).wf(),
    {
        proof {
            if transform_world(*self, *scope).wf() {
                law_terminate(transform_world(*self, *scope));
            }
        }
        self.readable.close_values(scope);
        self.transform_stream_error_writable_and_unblock_write(
            scope,
            Value::TypeError(Message::TransformTerminated),
        );
    }

    /// Enqueues a chunk on the readable side. Where its strategy has a size function, that
    /// is to be called next, and its outcome handed to
    /// [`TransformStream::transform_stream_default_controller_enqueue_sized`].
    pub fn transform_stream_default_controller_enqueue(
        &mut self,
        scope: &mut Scope,
        chunk: &Value,
    ) -> (result: Result<EnqueueStep, Value>)
        requires
            old(self)@.readable.controller is Default,
        ensures
            (transform_world(*final(self), *final(scope)), result) == transform_world(
                *old(self),
                *old(scope),
            ).enqueue(*chunk),
            transform_world(*old(self), *old(scope)).wf() ==> transform_world(
                *final(self),
                *final(scope),
            ).wf(),
    {
        proof {
            if transform_world(*self, *scope).wf() {
                law_transform_enqueue(
                    transform_world(*self, *scope),
                    *chunk,
                    Ok(Number { bits: ONE }),
                );
            }
        }
        if !self.can_enqueue() {
            return Err(Value::TypeError(Message::TransformEnqueueNotPermitted));
        }
        let ghost w = transform_world(*self, *scope);
        let step: EnqueueStep = match &mut self.readable.controller {
            StreamController::Default(controller) => readable_stream_default_controller_enqueue(
                scope,
                &mut self.readable.slots,
                controller,
                chunk,
            ),
            StreamController::Byte(_) => EnqueueStep::Done,
        };
        assert(transform_world(*self, *scope) =~= w.with_readable(
            ReadableWorld::from_default(w.readable_side().as_default().enqueue(*chunk).0),
        ));
        match step {
            EnqueueStep::Done => {
                self.note_backpressure(scope);
            },
            EnqueueStep::NeedsSize(_) => {},
        }
        Ok(step)
    }

    /// Enqueues a chunk on the readable side once its size is known, or what kept it from
    /// being known.
    pub fn transform_stream_default_controller_enqueue_sized(
        &mut self,
        scope: &mut Scope,
        chunk: Value,
        size: Result<Number, Value>,
    ) -> (result: Result<(), Value>)
        requires
            old(self)@.readable.controller is Default,
        ensures
            (transform_world(*final(self), *final(scope)), result) == transform_world(
                *old(self),
                *old(scope),
            ).enqueue_sized(chunk, size),
            transform_world(*old(self), *old(scope)).wf() ==> transform_world(
                *final(self),
                *final(scope),
            ).wf(),
    {
        proof {
            if transform_world(*self, *scope).wf() {
                law_transform_enqueue(transform_world(*self, *scope), chunk, size);
            }
        }
        let ghost w = transform_world(*self, *scope);
        let result: Result<(), Value> = match &mut self.readable.controller {
            StreamController::Default(controller) =>
                readable_stream_default_controller_enqueue_with_size(
                scope,
                &mut self.readable.slots,
                controller,
                chunk,
                size,
            ),
            StreamController::Byte(_) => Ok(()),
        };
        assert(transform_world(*self, *scope) =~= w.with_readable(
            ReadableWorld::from_default(
                w.readable_side().as_default().enqueue_with_size(chunk, size).0,
            ),
        ));
        match result {
            Ok(()) => {
                self.note_backpressure(scope);
                Ok(())
            },
            Err(error) => {
                let stored_error: Value = self.readable.slots.stored_error.clone();
                self.transform_stream_error_writable_and_unblock_write(scope, error);
                Err(stored_error)
            },
        }
    }

    /// Takes note that the readable side has begun to push back, if it has.
    fn note_backpressure(&mut self, scope: &mut Scope)
        requires
            old(self)@.readable.controller is Default,
        ensures
            transform_world(*final(self), *final(scope)) == transform_world(
                *old(self),
                *old(scope),
            ).after_enqueue(),
    {
        if self.has_backpressure() && !self.backpressure {
            self.transform_stream_set_backpressure(scope, true);
        }
    }

    /// Has the transformer transform a chunk; `promise` settles with the outcome.
    pub fn transform_stream_default_controller_perform_transform(
        &self,
        scope: &mut Scope,
        chunk: Value,
        promise: u64,
    )
        ensures
            transform_world(*self, *final(scope)) == transform_world(
                *self,
                *old(scope),
            ).perform_transform(chunk, promise),
    {
        scope.emit(
            Effect::Invoke {
                call: Call::Transform { transform: self.id, chunk, outcome: promise },
                algorithm: self.controller.transform_algorithm,
                receiver: self.controller.algorithm_receiver.clone(),
            },
        );
    }

    /// Takes note that a chunk could not be transformed: both sides fail.
    pub fn ts_perform_transform_rejected(&mut self, scope: &mut Scope, error: Value, promise: u64)
        ensures
            transform_world(*final(self), *final(scope)) == transform_world(
                *old(self),
                *old(scope),
            ).transform_rejected(error, promise),
            transform_world(*old(self), *old(scope)).wf() ==> transform_world(
                *final(self),
                *final(scope),
            ).wf(),
    {
        self.transform_stream_error(scope, error.clone());
        scope.emit(Effect::Reject(PromiseRef::Request(promise), error));
    }

    /// Takes a chunk that was written to the writable side; `promise` settles with the
    /// outcome. While there is backpressure, the chunk waits.
    pub fn transform_stream_default_sink_write_algorithm(
        &self,
        scope: &mut Scope,
        chunk: Value,
        promise: u64,
    ) -> (outcome: PromiseRef)
        requires
            self@.writable.state is Writable,
        ensures
            outcome == PromiseRef::Request(promise),
            transform_world(*self, *final(scope)) == transform_world(
                *self,
                *old(scope),
            ).sink_write(chunk, promise),
    {
        if self.backpressure {
            scope.emit(
                Effect::WriteAfter {
                    change: PromiseRef::BackpressureChange(self.id),
                    transform: self.id,
                    chunk,
                    promise,
                },
            );
        } else {
            self.transform_stream_default_controller_perform_transform(scope, chunk, promise);
        }
        PromiseRef::Request(promise)
    }

    /// Takes up a chunk that waited for the backpressure to go.
    pub fn ts_sink_write_after_backpressure(&self, scope: &mut Scope, chunk: Value, promise: u64)
        requires
            !self@.writable.ended(),
        ensures
            transform_world(*self, *final(scope)) == transform_world(
                *self,
                *old(scope),
            ).write_after_backpressure(chunk, promise),
    {
        if self.writable.state == WritableStreamState::Erroring {
            scope.emit(
                Effect::Reject(PromiseRef::Request(promise), self.writable.stored_error.clone()),
            );
            return ;
        }
        self.transform_stream_default_controller_perform_transform(scope, chunk, promise);
    }

    /// Has the transformer called for the last time, unless it has been. The promise for the
    /// end of the transform stream tells the outcome either way.
    fn end_with(&mut self, scope: &mut Scope, call: Call, algorithm: Algorithm)
        ensures
            transform_world(*final(self), *final(scope)) == transform_world(
                *old(self),
                *old(scope),
            ).end(call, algorithm),
    {
        if self.controller.finish_promise {
            return ;
        }
        self.controller.finish_promise = true;
        scope.emit(Effect::NewPromise(PromiseRef::Finish(self.id)));
        scope.emit(
            Effect::Invoke {
                call,
                algorithm,
                receiver: self.controller.algorithm_receiver.clone(),
            },
        );
        scope.emit(Effect::ClearTransform { transform: self.id });
    }

    /// Takes note that the writable side is aborted, and tells the transformer.
    pub fn transform_stream_default_sink_abort_algorithm(
        &mut self,
        scope: &mut Scope,
        reason: Value,
    ) -> (outcome: PromiseRef)
        ensures
            outcome == PromiseRef::Finish(old(self)@.id),
            transform_world(*final(self), *final(scope)) == transform_world(
                *old(self),
                *old(scope),
            ).sink_abort(reason),
            transform_world(*old(self), *old(scope)).wf() ==> transform_world(
                *final(self),
                *final(scope),
            ).wf(),
    {
        proof {
            if transform_world(*self, *scope).wf() {
                law_transform_end(transform_world(*self, *scope), reason);
            }
        }
        let algorithm: Algorithm = self.controller.cancel_algorithm;
        self.end_with(scope, Call::TransformAbort { transform: self.id, reason }, algorithm);
        PromiseRef::Finish(self.id)
    }

    /// Takes note that the writable side is closed, and has the transformer flush.
    pub fn transform_stream_default_sink_close_algorithm(
        &mut self,
        scope: &mut Scope,
    ) -> (outcome: PromiseRef)
        ensures
            outcome == PromiseRef::Finish(old(self)@.id),
            transform_world(*final(self), *final(scope)) == transform_world(
                *old(self),
                *old(scope),
            ).sink_close(),
            transform_world(*old(self), *old(scope)).wf() ==> transform_world(
                *final(self),
                *final(scope),
            ).wf(),
    {
        proof {
            if transform_world(*self, *scope).wf() {
                law_transform_end(transform_world(*self, *scope), Value::Undefined);
            }
        }
        let algorithm: Algorithm = self.controller.flush_algorithm;
        self.end_with(scope, Call::TransformFlush { transform: self.id }, algorithm);
        PromiseRef::Finish(self.id)
    }

    /// Takes note that the readable side is canceled, and tells the transformer.
    pub fn transform_stream_default_source_cancel_algorithm(
        &mut self,
        scope: &mut Scope,
        reason: Value,
    ) -> (outcome: PromiseRef)
        ensures
            outcome == PromiseRef::Finish(old(self)@.id),
            transform_world(*final(self), *final(scope)) == transform_world(
                *old(self),
                *old(scope),
            ).source_cancel(reason),
            transform_world(*old(self), *old(scope)).wf() ==> transform_world(
                *final(self),
                *final(scope),
            ).wf(),
    {
        proof {
            if transform_world(*self, *scope).wf() {
                law_transform_end(transform_world(*self, *scope), reason);
            }
        }
        let algorithm: Algorithm = self.controller.cancel_algorithm;
        self.end_with(scope, Call::TransformCancel { transform: self.id, reason }, algorithm);
        PromiseRef::Finish(self.id)
    }

    /// Takes note that the readable side asks for more: writes may go on. The promise for the
    /// next change of the backpressure tells when it has enough.
    pub fn transform_stream_default_source_pull_algorithm(&mut self, scope: &mut Scope)
        -> (outcome: PromiseRef)
        requires
            old(self)@.backpressure,
        ensures
            outcome == PromiseRef::BackpressureChange(old(self)@.id),
            transform_world(*final(self), *final(scope)) == transform_world(
                *old(self),
                *old(scope),
            ).set_backpressure(false),
            transform_world(*old(self), *old(scope)).wf() && old(self)@.pulling()
                ==> transform_world(*final(self), *final(scope)).wf(),
    {
        proof {
            if transform_world(*self, *scope).wf() {
                law_pull_ends_backpressure(transform_world(*self, *scope));
            }
        }
        self.transform_stream_set_backpressure(scope, false);
        PromiseRef::BackpressureChange(self.id)
    }

    /// Takes note that the transformer has flushed.
    pub fn ts_sink_close_fulfilled(&mut self, scope: &mut Scope)
        requires
            old(self)@.readable.controller is Default,
        ensures
            transform_world(*final(self), *final(scope)) == transform_world(
                *old(self),
                *old(scope),
            ).sink_close_fulfilled(),
            transform_world(*old(self), *old(scope)).wf() ==> transform_world(
                *final(self),
                *final(scope),
            ).wf(),
    {
        proof {
            if transform_world(*self, *scope).wf() {
                law_transform_end(transform_world(*self, *scope), Value::Undefined);
            }
        }
        let finish: PromiseRef = PromiseRef::Finish(self.id);
        if self.readable.slots.state == ReadableStreamState::Errored {
            scope.emit(Effect::Reject(finish, self.readable.slots.stored_error.clone()));
            return ;
        }
        self.readable.close_values(scope);
        scope.emit(Effect::Resolve(finish, Value::Undefined));
    }

    /// Takes note that the transformer has failed to flush.
    pub fn ts_sink_close_rejected(&mut self, scope: &mut Scope, error: Value)
        ensures
            transform_world(*final(self), *final(scope)) == transform_world(
                *old(self),
                *old(scope),
            ).sink_rejected(error),
            transform_world(*old(self), *old(scope)).wf() ==> transform_world(
                *final(self),
                *final(scope),
            ).wf(),
    {
        proof {
            if transform_world(*self, *scope).wf() {
                law_transform_end(transform_world(*self, *scope), error);
            }
        }
        self.readable.readable_stream_error(scope, error.clone());
        scope.emit(Effect::Reject(PromiseRef::Finish(self.id), error));
    }

    /// Takes note that the transformer knows of an abort.
    pub fn ts_sink_abort_fulfilled(&mut self, scope: &mut Scope, reason: Value)
        ensures
            transform_world(*final(self), *final(scope)) == transform_world(
                *old(self),
                *old(scope),
            ).sink_abort_fulfilled(reason),
            transform_world(*old(self), *old(scope)).wf() ==> transform_world(
                *final(self),
                *final(scope),
            ).wf(),
    {
        proof {
            if transform_world(*self, *scope).wf() {
                law_transform_end(transform_world(*self, *scope), reason);
            }
        }
        let finish: PromiseRef = PromiseRef::Finish(self.id);
        if self.readable.slots.state == ReadableStreamState::Errored {
            scope.emit(Effect::Reject(finish, self.readable.slots.stored_error.clone()));
            return ;
        }
        self.readable.readable_stream_error(scope, reason);
        scope.emit(Effect::Resolve(finish, Value::Undefined));
    }

    /// Takes note that the transformer has failed over an abort.
    pub fn ts_sink_abort_rejected(&mut self, scope: &mut Scope, error: Value)
        ensures
            transform_world(*final(self), *final(scope)) == transform_world(
                *old(self),
                *old(scope),
            ).sink_rejected(error),
            transform_world(*old(self), *old(scope)).wf() ==> transform_world(
                *final(self),
                *final(scope),
            ).wf(),
    {
        proof {
            if transform_world(*self, *scope).wf() {
                law_transform_end(transform_world(*self, *scope), error);
            }
        }
        self.readable.readable_stream_error(scope, error.clone());
        scope.emit(Effect::Reject(PromiseRef::Finish(self.id), error));
    }

    /// Takes note that the transformer knows of a cancelation.
    pub fn ts_source_cancel_fulfilled(&mut self, scope: &mut Scope, reason: Value)
        ensures
            transform_world(*final(self), *final(scope)) == transform_world(
                *old(self),
                *old(scope),
            ).source_cancel_fulfilled(reason),
            transform_world(*old(self), *old(scope)).wf() && !old(self)@.can_enqueue()
                ==> transform_world(*final(self), *final(scope)).wf(),
    {
        proof {
            if transform_world(*self, *scope).wf() && !self@.can_enqueue() {
                law_transform_canceled(transform_world(*self, *scope), reason);
            }
        }
        let finish: PromiseRef = PromiseRef::Finish(self.id);
        if self.writable.state == WritableStreamState::Errored {
            scope.emit(Effect::Reject(finish, self.writable.stored_error.clone()));
            return ;
        }
        self.writable.writable_stream_default_controller_error_if_needed(scope, reason);
        self.transform_stream_unblock_write(scope);
        scope.emit(Effect::Resolve(finish, Value::Undefined));
    }

    /// Takes note that the transformer has failed over a cancelation.
    pub fn ts_source_cancel_rejected(&mut self, scope: &mut Scope, error: Value)
        ensures
            transform_world(*final(self), *final(scope)) == transform_world(
                *old(self),
                *old(scope),
            ).source_cancel_rejected(error),
            transform_world(*old(self), *old(scope)).wf() && !old(self)@.can_enqueue()
                ==> transform_world(*final(self), *final(scope)).wf(),
    {
        proof {
            if transform_world(*self, *scope).wf() && !self@.can_enqueue() {
                law_transform_canceled(transform_world(*self, *scope), error);
            }
        }
        self.writable.writable_stream_default_controller_error_if_needed(scope, error.clone());
        self.transform_stream_unblock_write(scope);
        scope.emit(Effect::Reject(PromiseRef::Finish(self.id), error));
    }
}

} // verus!
