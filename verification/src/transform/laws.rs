//! What holds of every transform stream.

use vstd::prelude::*;

use crate::algorithms::sized;
use crate::number::{Number, ONE};
use crate::readable::default_laws::{
    law_default_cancel, law_default_enqueue, law_default_lock, law_default_read,
    law_default_source,
};
use crate::readable::read_request::{chunk_effect, ReadRequest};
use crate::readable::stream_world::ReadableWorld;
use crate::scope::{Call, Effect, PromiseRef, ScopeModel};
use crate::transform::transform_stream::{
    new_transform, SideStrategies, TransformIds,
};
use crate::transform::transform_stream_default_controller::TransformStreamDefaultController;
use crate::transform::world::{TransformModel, TransformWorld};
use crate::value::{Message, Value};
use crate::writable::laws::law_controller_error;

verus! {

impl TransformModel {
    /// Whether the readable side has been asked for and has not come to its end.
    pub open spec fn pulling(self) -> bool {
        self.readable.controller->Default_0.pulling
    }
}

impl TransformWorld {
    /// What holds of a transform stream between two operations: both sides are well formed,
    /// and the readable side, while it can be given chunks, is being pulled unless it pushes
    /// back.
    pub open spec fn wf(self) -> bool {
        &&& self.stream.readable.controller is Default
        &&& self.readable_side().as_default().wf()
        &&& self.stream.writable.wf()
        &&& self.stream.has_change_promise
        &&& self.stream.can_enqueue() && !self.stream.pulling() ==> self.stream.backpressure
    }
}

/// A new transform stream is well formed.
pub proof fn law_new_transform(
    ids: TransformIds,
    strategies: SideStrategies,
    controller: TransformStreamDefaultController,
    scope: ScopeModel,
)
    ensures
        (TransformWorld { stream: new_transform(ids, strategies, controller), scope }).wf(),
{
}

/// Whatever is done to the readable side of a transform stream from outside leaves the
/// stream well formed; the end of a pull, once the readable side pushes back or can be given
/// nothing more.
pub proof fn law_readable_side(
    w: TransformWorld,
    request: ReadRequest,
    reason: Value,
    result: PromiseRef,
)
    requires
        w.wf(),
    ensures
        w.with_readable(w.readable_side().acquire_default_reader().0).wf(),
        w.with_readable(w.readable_side().release()).wf(),
        w.with_readable(w.readable_side().cancel(reason, result)).wf(),
        w.with_readable(w.readable_side().start_fulfilled()).wf(),
        w.stream.readable.slots.reader is Default ==> w.with_readable(
            w.readable_side().read(request),
        ).wf(),
        w.stream.backpressure || !w.stream.can_enqueue() ==> w.with_readable(
            w.readable_side().pull_fulfilled(),
        ).wf(),
{
    let side = w.readable_side();
    law_default_lock(side);
    law_default_cancel(side, reason, result);
    law_default_source(side.as_default(), reason);
    if w.stream.readable.slots.reader is Default && w.stream.readable.slots.state is Readable {
        law_default_read(side.disturbed().as_default(), request);
    }
}

/// The readable side is asked for more only while it pushes back: that is what a pull then
/// ends.
pub proof fn law_pull_ends_backpressure(w: TransformWorld)
    requires
        w.wf(),
    ensures
        w.readable_side().as_default().call_pull().scope != w.scope ==> w.stream.backpressure,
        w.stream.pulling() ==> w.set_backpressure(false).wf(),
        !w.set_backpressure(false).stream.backpressure,
{
}

/// A chunk for the readable side leaves a transform stream well formed, with or without a
/// size that was found for it.
pub proof fn law_transform_enqueue(w: TransformWorld, chunk: Value, size: Result<Number, Value>)
    requires
        w.wf(),
    ensures
        w.enqueue(chunk).0.wf(),
        w.enqueue_sized(chunk, size).0.wf(),
{
    let side = w.readable_side().as_default();
    law_default_enqueue(side, chunk, size);
    let (sized_side, result) = side.enqueue_with_size(chunk, size);
    let after = w.with_readable(ReadableWorld::from_default(sized_side));
    if result is Err {
        lemma_error_writable(after, result->Err_0);
    }
}

/// The failure of the writable side keeps it well formed, and lets a write on that waits.
proof fn lemma_error_writable(w: TransformWorld, error: Value)
    requires
        w.stream.writable.wf(),
        w.stream.has_change_promise,
    ensures
        w.error_writable(error).stream.writable.wf(),
        w.error_writable(error).stream.writable.state !is Writable,
        w.error_writable(error).stream.readable == w.stream.readable,
        w.error_writable(error).stream.has_change_promise,
        !w.error_writable(error).stream.backpressure,
        w.stream.writable.state is Writable ==> w.error_writable(
            error,
        ).stream.writable.stored_error == error,
{
    law_controller_error(w.cleared_algorithms().writable_side(), error);
}

/// A failure reaches both sides: the readable side has failed with it, unless it had ended;
/// the writable side takes no more chunks; no write waits any longer.
pub proof fn law_transform_error(w: TransformWorld, error: Value)
    requires
        w.wf(),
    ensures
        w.errored(error).wf(),
        w.errored(error).stream.readable.slots.state !is Readable,
        w.stream.readable.slots.state is Readable ==> {
            &&& w.errored(error).stream.readable.slots.state is Errored
            &&& w.errored(error).stream.readable.slots.stored_error == error
        },
        w.errored(error).stream.writable.state !is Writable,
        w.stream.writable.state is Writable ==> w.errored(error).stream.writable.stored_error
            == error,
        !w.errored(error).stream.backpressure,
{
    law_default_source(w.readable_side().as_default(), error);
    lemma_error_writable(w.with_readable(w.readable_side().errored(error)), error);
}

/// A transform stream that is terminated gives what waits in it and no more: its readable
/// side closes after that, and its writable side has failed.
pub proof fn law_terminate(w: TransformWorld)
    requires
        w.wf(),
    ensures
        w.terminated().wf(),
        !w.terminated().stream.can_enqueue(),
        w.terminated().stream.readable.controller->Default_0.queue
            == w.stream.readable.controller->Default_0.queue,
        w.terminated().stream.writable.state !is Writable,
        w.stream.writable.state is Writable ==> w.terminated().stream.writable.stored_error
            == Value::TypeError(Message::TransformTerminated),
        !w.terminated().stream.backpressure,
{
    let error = Value::TypeError(Message::TransformTerminated);
    law_default_source(w.readable_side().as_default(), error);
    lemma_error_writable(w.with_readable(w.readable_side().close_values()), error);
}

/// The outcome of the last call of the transformer leaves a transform stream well formed,
/// whichever side ended it.
pub proof fn law_transform_end(w: TransformWorld, reason: Value)
    requires
        w.wf(),
    ensures
        w.sink_close().wf(),
        w.sink_abort(reason).wf(),
        w.source_cancel(reason).wf(),
        w.sink_close_fulfilled().wf(),
        w.sink_abort_fulfilled(reason).wf(),
        w.sink_rejected(reason).wf(),
        w.sink_close_fulfilled().stream.readable.slots.state is Readable ==> w.stream.readable
            .controller->Default_0.queue.len() > 0,
        w.sink_abort_fulfilled(reason).stream.readable.slots.state !is Readable,
        w.sink_rejected(reason).stream.readable.slots.state !is Readable,
{
    law_default_source(w.readable_side().as_default(), reason);
}

/// The outcome of a cancelation of the readable side leaves a transform stream well formed;
/// its writable side takes no more chunks.
pub proof fn law_transform_canceled(w: TransformWorld, reason: Value)
    requires
        w.wf(),
        !w.stream.can_enqueue(),
    ensures
        w.source_cancel_fulfilled(reason).wf(),
        w.source_cancel_rejected(reason).wf(),
        w.source_cancel_fulfilled(reason).stream.writable.state !is Writable,
        w.source_cancel_rejected(reason).stream.writable.state !is Writable,
{
    law_controller_error(w.writable_side(), reason);
}

/// The transformer is asked to flush or to cancel once, whatever comes first; what comes
/// after that shares the outcome.
pub proof fn law_finishes_once(w: TransformWorld, reason: Value, other: Value)
    ensures
        w.stream.controller.finish_promise ==> {
            &&& w.sink_close() == w
            &&& w.sink_abort(reason) == w
            &&& w.source_cancel(reason) == w
        },
        w.sink_close().stream.controller.finish_promise,
        w.sink_abort(reason).stream.controller.finish_promise,
        w.source_cancel(reason).stream.controller.finish_promise,
        w.sink_abort(reason).source_cancel(other) == w.sink_abort(reason),
        w.source_cancel(reason).sink_abort(other) == w.source_cancel(reason),
        w.sink_close().sink_abort(other) == w.sink_close(),
{
}

/// A chunk is transformed only when the readable side asks for one: while there is
/// backpressure, the transformer is not called, and the write waits for the change.
pub proof fn law_backpressure_holds_writes(w: TransformWorld, chunk: Value, promise: u64)
    ensures
        w.stream.backpressure ==> w.sink_write(chunk, promise).scope == w.scope.emit(
            Effect::WriteAfter {
                change: w.change(),
                transform: w.stream.id,
                chunk,
                promise,
            },
        ),
        !w.stream.backpressure ==> w.sink_write(chunk, promise).scope == w.scope.emit(
            Effect::Invoke {
                call: Call::Transform { transform: w.stream.id, chunk, outcome: promise },
                algorithm: w.stream.controller.transform_algorithm,
                receiver: w.stream.controller.algorithm_receiver,
            },
        ),
        w.stream.has_change_promise && w.stream.backpressure
            ==> w.unblock_write().scope.effects[w.scope.effects.len() as int]
            == Effect::Resolve(w.change(), Value::Undefined),
{
}

/// What is enqueued on the readable side of a transform stream that counts its chunks comes
/// out of it: it goes to the first read that waits, and behind what waits to be read
/// otherwise.
pub proof fn law_transform_passes_on(w: TransformWorld, chunk: Value)
    requires
        w.wf(),
        w.stream.can_enqueue(),
        w.stream.readable.counts_chunks(),
    ensures
        ({
            let requests = w.stream.readable.slots.requests();
            let after = w.enqueue(chunk).0;
            &&& w.enqueue(chunk).1 is Ok
            &&& requests.len() > 0 ==> {
                &&& after.scope.effects[w.scope.effects.len() as int] == chunk_effect(
                    requests[0],
                    chunk,
                )
                &&& after.stream.readable.slots.requests() == requests.drop_first()
            }
            &&& requests.len() == 0 ==> after.stream.readable.controller->Default_0.queue
                == w.stream.readable.controller->Default_0.queue.push(sized(chunk, Number { bits: ONE }))
        }),
{
}

} // verus!
