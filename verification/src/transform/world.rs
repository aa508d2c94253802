//! What the operations on a transform stream come to.

use vstd::prelude::*;

use crate::number::Number;
use crate::readable::default_controller::{
    default_can_enqueue, default_should_pull, EnqueueStep,
};
use crate::readable::stream_world::{in_scope, ReadableModel, ReadableWorld};
use crate::scope::{Algorithm, Call, Effect, PromiseRef, ScopeModel};
use crate::transform::transform_stream_default_controller::TransformStreamDefaultController;
use crate::value::{Message, Value};
use crate::writable::world::{WritableModel, WritableWorld};

verus! {

/// What there is to know of a transform stream.
#[verifier::ext_equal]
pub struct TransformModel {
    pub id: u64,
    pub backpressure: bool,
    pub has_change_promise: bool,
    pub controller: TransformStreamDefaultController,
    pub detached: bool,
    pub readable: ReadableModel,
    pub writable: WritableModel,
}

/// A transform stream together with the scope in which it is used.
#[verifier::ext_equal]
pub struct TransformWorld {
    pub stream: TransformModel,
    pub scope: ScopeModel,
}

impl TransformModel {
    /// Whether the readable side may be closed or given a chunk.
    pub open spec fn can_enqueue(self) -> bool {
        default_can_enqueue(self.readable.slots, self.readable.controller->Default_0)
    }

    /// Whether the readable side asks for more.
    pub open spec fn wants_more(self) -> bool {
        default_should_pull(self.readable.slots, self.readable.controller->Default_0)
    }
}

impl TransformWorld {
    pub open spec fn with_stream(self, stream: TransformModel) -> TransformWorld {
        TransformWorld { stream, ..self }
    }

    pub open spec fn emit(self, effect: Effect) -> TransformWorld {
        TransformWorld { scope: self.scope.emit(effect), ..self }
    }

    pub open spec fn readable_side(self) -> ReadableWorld {
        in_scope(self.stream.readable, self.scope)
    }

    pub open spec fn with_readable(self, w: ReadableWorld) -> TransformWorld {
        TransformWorld {
            stream: TransformModel { readable: w.stream, ..self.stream },
            scope: w.scope,
        }
    }

    pub open spec fn writable_side(self) -> WritableWorld {
        WritableWorld { stream: self.stream.writable, scope: self.scope }
    }

    pub open spec fn with_writable(self, w: WritableWorld) -> TransformWorld {
        TransformWorld {
            stream: TransformModel { writable: w.stream, ..self.stream },
            scope: w.scope,
        }
    }

    pub open spec fn with_controller(
        self,
        controller: TransformStreamDefaultController,
    ) -> TransformWorld {
        self.with_stream(TransformModel { controller, ..self.stream })
    }

    /// The promise for the next change of the backpressure.
    pub open spec fn change(self) -> PromiseRef {
        PromiseRef::BackpressureChange(self.stream.id)
    }

    /// The promise for the end of the transformation.
    pub open spec fn finish(self) -> PromiseRef {
        PromiseRef::Finish(self.stream.id)
    }

    /// The promise for the end of the transformation resolved.
    pub open spec fn finish_resolved(self) -> TransformWorld {
        self.emit(Effect::Resolve(self.finish(), Value::Undefined))
    }

    /// The promise for the end of the transformation rejected.
    pub open spec fn finish_rejected(self, error: Value) -> TransformWorld {
        self.emit(Effect::Reject(self.finish(), error))
    }

    /// The backpressure changed; who waits for that is told, and a new promise tells of the
    /// next change.
    pub open spec fn set_backpressure(self, backpressure: bool) -> TransformWorld {
        let told = if self.stream.has_change_promise {
            self.emit(Effect::Resolve(self.change(), Value::Undefined))
        } else {
            self
        };
        told.emit(Effect::NewPromise(self.change())).with_stream(
            TransformModel { backpressure, has_change_promise: true, ..self.stream },
        )
    }

    /// A write that waits for the backpressure to go let on.
    pub open spec fn unblock_write(self) -> TransformWorld {
        if self.stream.backpressure {
            self.set_backpressure(false)
        } else {
            self
        }
    }

    pub open spec fn cleared_algorithms(self) -> TransformWorld {
        self.with_controller(self.stream.controller.cleared_algorithms())
    }

    /// The writable side failed, and a write that waits let on.
    pub open spec fn error_writable(self, error: Value) -> TransformWorld {
        let cleared = self.cleared_algorithms();
        cleared.with_writable(
            cleared.writable_side().controller_error_if_needed(error),
        ).unblock_write()
    }

    /// Both sides failed.
    pub open spec fn errored(self, error: Value) -> TransformWorld {
        self.with_readable(self.readable_side().errored(error)).error_writable(error)
    }

    /// What is left to do once a chunk has been enqueued.
    pub open spec fn after_enqueue(self) -> TransformWorld {
        if !self.stream.wants_more() && !self.stream.backpressure {
            self.set_backpressure(true)
        } else {
            self
        }
    }

    /// A chunk for the readable side.
    pub open spec fn enqueue(self, chunk: Value) -> (TransformWorld, Result<EnqueueStep, Value>) {
        if !self.stream.can_enqueue() {
            (self, Err(Value::TypeError(Message::TransformEnqueueNotPermitted)))
        } else {
            let (w, step) = self.readable_side().as_default().enqueue(chunk);
            match step {
                EnqueueStep::Done => (
                    self.with_readable(ReadableWorld::from_default(w)).after_enqueue(),
                    Ok(step),
                ),
                EnqueueStep::NeedsSize(_) => (self, Ok(step)),
            }
        }
    }

    /// The same, once the size of the chunk is known. Where it will not do, both sides fail,
    /// and the error of the readable side is what the author gets.
    pub open spec fn enqueue_sized(
        self,
        chunk: Value,
        size: Result<Number, Value>,
    ) -> (TransformWorld, Result<(), Value>) {
        let (w, result) = self.readable_side().as_default().enqueue_with_size(chunk, size);
        let after = self.with_readable(ReadableWorld::from_default(w));
        match result {
            Ok(()) => (after.after_enqueue(), Ok(())),
            Err(error) => (
                after.error_writable(error),
                Err(after.stream.readable.slots.stored_error),
            ),
        }
    }

    /// The readable side closed, and the writable side failed.
    pub open spec fn terminated(self) -> TransformWorld {
        self.with_readable(self.readable_side().close_values()).error_writable(
            Value::TypeError(Message::TransformTerminated),
        )
    }

    /// The transformer asked to transform a chunk.
    pub open spec fn perform_transform(self, chunk: Value, promise: u64) -> TransformWorld {
        self.emit(
            Effect::Invoke {
                call: Call::Transform { transform: self.stream.id, chunk, outcome: promise },
                algorithm: self.stream.controller.transform_algorithm,
                receiver: self.stream.controller.algorithm_receiver,
            },
        )
    }

    /// A chunk that was written; it waits while there is backpressure.
    pub open spec fn sink_write(self, chunk: Value, promise: u64) -> TransformWorld {
        if self.stream.backpressure {
            self.emit(
                Effect::WriteAfter {
                    change: self.change(),
                    transform: self.stream.id,
                    chunk,
                    promise,
                },
            )
        } else {
            self.perform_transform(chunk, promise)
        }
    }

    /// A chunk that waited for the backpressure to go.
    pub open spec fn write_after_backpressure(self, chunk: Value, promise: u64) -> TransformWorld {
        if self.stream.writable.state is Erroring {
            self.emit(
                Effect::Reject(PromiseRef::Request(promise), self.stream.writable.stored_error),
            )
        } else {
            self.perform_transform(chunk, promise)
        }
    }

    /// A chunk that could not be transformed.
    pub open spec fn transform_rejected(self, error: Value, promise: u64) -> TransformWorld {
        self.errored(error).emit(Effect::Reject(PromiseRef::Request(promise), error))
    }

    /// The transformer asked for the last time, unless it has been.
    pub open spec fn end(self, call: Call, algorithm: Algorithm) -> TransformWorld {
        if self.stream.controller.finish_promise {
            self
        } else {
            self.with_controller(
                TransformStreamDefaultController {
                    finish_promise: true,
                    ..self.stream.controller
                },
            ).emit(Effect::NewPromise(self.finish())).emit(
                Effect::Invoke {
                    call,
                    algorithm,
                    receiver: self.stream.controller.algorithm_receiver,
                },
            ).emit(Effect::ClearTransform { transform: self.stream.id })
        }
    }

    pub open spec fn sink_close(self) -> TransformWorld {
        self.end(
            Call::TransformFlush { transform: self.stream.id },
            self.stream.controller.flush_algorithm,
        )
    }

    pub open spec fn sink_abort(self, reason: Value) -> TransformWorld {
        self.end(
            Call::TransformAbort { transform: self.stream.id, reason },
            self.stream.controller.cancel_algorithm,
        )
    }

    pub open spec fn source_cancel(self, reason: Value) -> TransformWorld {
        self.end(
            Call::TransformCancel { transform: self.stream.id, reason },
            self.stream.controller.cancel_algorithm,
        )
    }

    /// The transformer has flushed: the readable side closes.
    pub open spec fn sink_close_fulfilled(self) -> TransformWorld {
        if self.stream.readable.slots.state is Errored {
            self.finish_rejected(self.stream.readable.slots.stored_error)
        } else {
            self.with_readable(self.readable_side().close_values()).finish_resolved()
        }
    }

    /// The transformer has taken note of an abort: the readable side fails.
    pub open spec fn sink_abort_fulfilled(self, reason: Value) -> TransformWorld {
        if self.stream.readable.slots.state is Errored {
            self.finish_rejected(self.stream.readable.slots.stored_error)
        } else {
            self.with_readable(self.readable_side().errored(reason)).finish_resolved()
        }
    }

    /// The transformer has failed over the end of the writable side.
    pub open spec fn sink_rejected(self, error: Value) -> TransformWorld {
        self.with_readable(self.readable_side().errored(error)).finish_rejected(error)
    }

    /// The writable side failed on account of a cancelation, and a write that waits let on.
    pub open spec fn fail_writable(self, error: Value) -> TransformWorld {
        self.with_writable(
            self.writable_side().controller_error_if_needed(error),
        ).unblock_write()
    }

    /// The transformer has taken note of a cancelation: the writable side fails.
    pub open spec fn source_cancel_fulfilled(self, reason: Value) -> TransformWorld {
        if self.stream.writable.state is Errored {
            self.finish_rejected(self.stream.writable.stored_error)
        } else {
            self.fail_writable(reason).finish_resolved()
        }
    }

    /// The transformer has failed over a cancelation.
    pub open spec fn source_cancel_rejected(self, error: Value) -> TransformWorld {
        self.fail_writable(error).finish_rejected(error)
    }
}

} // verus!
