//! What holds of readable streams as a whole, whichever their controller.

use vstd::prelude::*;

use crate::number::{law_difference_tells_larger, Number};
use crate::readable::byte_laws::{
    law_byte_cancel, law_byte_errored, law_byte_lock, law_byte_read, law_byte_release,
    law_byte_source_fulfilled,
};
use crate::readable::default_laws::{
    law_default_cancel, law_default_lock, law_default_read, law_default_source,
};
use crate::readable::read_request::{chunk_effect, close_effect, error_effect, ReadRequest};
use crate::readable::readable_stream::{new_stream, stream_of_chunk};
use crate::readable::slots::{released_error, SlotsModel};
use crate::readable::stream_world::{in_scope, ControllerModel, ReadableModel, ReadableWorld};
use crate::scope::{Algorithm, Call, Effect, PromiseRef, ScopeModel};
use crate::value::{Message, Value};

verus! {

/// A locked stream cannot be locked again, and a release makes it free.
pub proof fn law_lock_is_exclusive(w: ReadableWorld)
    ensures
        w.stream.slots.locked() ==> {
            &&& w.acquire_default_reader() == (
                w,
                Err::<(), Value>(Value::TypeError(Message::ReaderLocked)),
            )
            &&& w.acquire_byob_reader() == (
                w,
                Err::<(), Value>(Value::TypeError(Message::ReaderLocked)),
            )
        },
        !w.stream.slots.locked() ==> {
            &&& w.acquire_default_reader().1 is Ok
            &&& w.acquire_default_reader().0.stream.slots.locked()
        },
        !w.release().stream.slots.locked(),
        w.release().acquire_default_reader().1 is Ok,
{
}

/// A release fails every read that waited, in the order in which they came, and touches
/// neither the queue nor the state of the stream.
pub proof fn law_release_fails_reads(w: ReadableWorld)
    requires
        w.stream.slots.reader is Default,
    ensures
        ({
            let requests = w.stream.slots.requests();
            let after = w.release();
            let first = after.scope.effects.len() - requests.len();
            &&& after.stream.slots.state == w.stream.slots.state
            &&& first >= w.scope.effects.len()
            &&& forall|i: int|
                0 <= i < requests.len() ==> after.scope.effects[first + i] == error_effect(
                    #[trigger] requests[i],
                    released_error(),
                )
        }),
{
}

/// A stream never leaves the closed or the failed state.
pub proof fn law_end_is_final(
    w: ReadableWorld,
    reason: Value,
    result: PromiseRef,
    request: ReadRequest,
)
    requires
        w.stream.slots.state !is Readable,
    ensures
        w.cancel(reason, result).stream.slots.state == w.stream.slots.state,
        w.errored(reason) == w,
        w.read(request).stream.slots.state == w.stream.slots.state,
        w.release().stream.slots.state == w.stream.slots.state,
        w.acquire_default_reader().0.stream.slots.state == w.stream.slots.state,
        w.acquire_byob_reader().0.stream.slots.state == w.stream.slots.state,
        w.start_fulfilled().stream.slots.state == w.stream.slots.state,
        w.pull_fulfilled().stream.slots.state == w.stream.slots.state,
{
}

/// A read of a stream that has ended tells how: a closed one has no more chunks, a failed
/// one hands out its error. Every read and every cancelation disturbs the stream.
pub proof fn law_read_after_end(
    w: ReadableWorld,
    reason: Value,
    result: PromiseRef,
    request: ReadRequest,
)
    ensures
        w.stream.slots.state is Closed ==> w.read(request).scope == w.scope.emit(
            close_effect(request),
        ),
        w.stream.slots.state is Errored ==> w.read(request).scope == w.scope.emit(
            error_effect(request, w.stream.slots.stored_error),
        ),
        w.read(request).stream.slots.disturbed,
        w.cancel(reason, result).stream.slots.disturbed,
{
}

/// A cancelation settles at once where the stream has ended: it succeeds where the stream
/// has closed and fails with the stream's error where it has failed. Of a readable stream
/// it calls the cancel algorithm, with the reason.
pub proof fn law_cancel_outcome(w: ReadableWorld, reason: Value, result: PromiseRef)
    ensures
        w.stream.slots.state is Closed ==> w.cancel(reason, result).scope == w.scope.emit(
            Effect::Resolve(result, Value::Undefined),
        ),
        w.stream.slots.state is Errored ==> w.cancel(reason, result).scope == w.scope.emit(
            Effect::Reject(result, w.stream.slots.stored_error),
        ),
        w.stream.slots.state is Readable ==> {
            &&& w.cancel(reason, result).stream.slots.state is Closed
            &&& w.cancel(reason, result).scope.effects.last() == (Effect::Invoke {
                call: Call::ReadableCancel {
                    stream: w.stream.slots.id,
                    reason,
                    result,
                },
                algorithm: match w.stream.controller {
                    ControllerModel::Default(controller) => controller.cancel_algorithm,
                    ControllerModel::Byte(controller) => controller.cancel_algorithm,
                },
                receiver: match w.stream.controller {
                    ControllerModel::Default(controller) => controller.receiver,
                    ControllerModel::Byte(controller) => controller.receiver,
                },
            })
        },
{
}

/// A stream of values with a high-water mark of zero leaves its source alone until it is read
/// from: the start asks for nothing, and the first read for one pull.
pub proof fn law_zero_mark_is_lazy(
    id: u64,
    native_source: Option<u64>,
    pull: Algorithm,
    cancel: Algorithm,
    scope: ScopeModel,
    request: ReadRequest,
)
    ensures
        ({
            let made = new_stream(
                id,
                pull,
                cancel,
                Value::Undefined,
                Number { bits: 0 },
                Algorithm::Undefined,
            );
            let stream = ReadableModel {
                slots: SlotsModel { native_byte_source: native_source, ..made.slots },
                ..made
            };
            let started = in_scope(stream, scope).start_fulfilled();
            let locked = started.acquire_default_reader().0;
            &&& started.scope == scope
            &&& locked.read(request).scope == locked.scope.emit(
                Effect::Invoke {
                    call: Call::ReadablePull { stream: id },
                    algorithm: pull,
                    receiver: Value::Undefined,
                },
            )
        }),
{
    law_difference_tells_larger(Number { bits: 0 }, Number { bits: 0 });
}

/// A stream that is made from bytes hands them out as one chunk and is closed by that; one
/// that is made from none is closed from the start.
pub proof fn law_one_chunk(
    id: u64,
    chunk: Value,
    scope: ScopeModel,
    first: ReadRequest,
    second: ReadRequest,
)
    ensures
        ({
            let w = in_scope(stream_of_chunk(id, Some(chunk)), scope).acquire_default_reader().0;
            let read = w.read(first);
            &&& read.scope.effects.last() == chunk_effect(first, chunk)
            &&& read.stream.slots.state is Closed
            &&& read.read(second).scope.effects.last() == close_effect(second)
        }),
        ({
            let w = in_scope(stream_of_chunk(id, None), scope).acquire_default_reader().0;
            w.read(first).scope.effects.last() == close_effect(first)
        }),
{
}

impl ReadableWorld {
    /// What holds of a readable stream between two operations, whichever its controller.
    pub open spec fn sound(self) -> bool {
        match self.stream.controller {
            ControllerModel::Default(_) => self.as_default().wf(),
            ControllerModel::Byte(_) => self.as_byte().sound(),
        }
    }
}

/// Whatever ends a readable stream, locks it, releases it, or comes from its source but for
/// chunks, leaves it sound.
pub proof fn law_stream_sound(w: ReadableWorld, reason: Value, result: PromiseRef)
    requires
        w.sound(),
    ensures
        w.cancel(reason, result).sound(),
        w.errored(reason).sound(),
        w.release().sound(),
        w.acquire_default_reader().0.sound(),
        w.acquire_byob_reader().0.sound(),
        w.start_fulfilled().sound(),
        w.pull_fulfilled().sound(),
{
    match w.stream.controller {
        ControllerModel::Default(_) => {
            law_default_cancel(w, reason, result);
            law_default_source(w.as_default(), reason);
            law_default_lock(w);
        },
        ControllerModel::Byte(_) => {
            law_byte_cancel(w, reason, result);
            law_byte_errored(w.as_byte(), reason);
            law_byte_release(w);
            law_byte_lock(w);
            law_byte_source_fulfilled(w.as_byte());
        },
    }
}

/// A read leaves a readable stream sound, and locked to its reader.
pub proof fn law_stream_read(w: ReadableWorld, request: ReadRequest)
    requires
        w.sound(),
        w.stream.slots.reader is Default,
        w.scope.heap.len() < usize::MAX,
    ensures
        w.read(request).sound(),
        w.read(request).stream.slots.reader is Default,
{
    match w.stream.controller {
        ControllerModel::Default(_) => {
            if w.stream.slots.state is Readable {
                law_default_read(w.disturbed().as_default(), request);
            }
        },
        ControllerModel::Byte(_) => {
            law_byte_read(w, request);
        },
    }
}

} // verus!
