//! What becomes of each chunk and of each read of a stream of values, and when its source is
//! asked for more.

use vstd::prelude::*;

use crate::number::{Number, ONE};
use crate::queuing::ValueWithSize;
use crate::readable::default_controller::{
    default_desired_size, DefaultControllerModel, DefaultWorld, EnqueueStep,
};
use crate::readable::read_request::{
    chunk_effect, close_effect, error_effect, into_chunk_effect, into_close_effect,
    into_error_effect, ReadIntoRequest, ReadRequest,
};
use crate::readable::readable_stream::ReadableStreamState;
use crate::readable::slots::{ReaderModel, SlotsModel};
use crate::readable::stream_world::{ControllerModel, ReadableWorld};
use crate::scope::{Call, Effect, PromiseRef, ReadOutcome};
use crate::value::{Message, Value};

verus! {

/// A call of `read()` is told of a chunk by a result that is not the last, of the end by one
/// that is and has no value, and of a failure by a rejection.
pub proof fn law_read_is_told(promise: u64, value: Value)
    ensures
        chunk_effect(ReadRequest::Read { promise }, value) == Effect::Resolve(
            PromiseRef::Request(promise),
            Value::IterResult(Box::new(value), false),
        ),
        close_effect(ReadRequest::Read { promise }) == Effect::Resolve(
            PromiseRef::Request(promise),
            Value::IterResult(Box::new(Value::Undefined), true),
        ),
        error_effect(ReadRequest::Read { promise }, value) == Effect::Reject(
            PromiseRef::Request(promise),
            value,
        ),
        into_chunk_effect(ReadIntoRequest::Read { promise }, value) == Effect::Resolve(
            PromiseRef::Request(promise),
            Value::IterResult(Box::new(value), false),
        ),
        into_close_effect(ReadIntoRequest::Read { promise }, value) == Effect::Resolve(
            PromiseRef::Request(promise),
            Value::IterResult(Box::new(value), true),
        ),
        into_error_effect(ReadIntoRequest::Read { promise }, value) == Effect::Reject(
            PromiseRef::Request(promise),
            value,
        ),
{
}

/// A consumer of this library is told the same by its steps; an iterator has its chunk at once.
pub proof fn law_consumer_is_told(request: ReadRequest, into: ReadIntoRequest, value: Value)
    ensures
        request is Tee || request is Pipe || request is ByteTeeDefault || request is Consume
            || request is Native ==> chunk_effect(request, value) == Effect::ReadSteps(
            request,
            ReadOutcome::Chunk(value),
        ),
        request matches ReadRequest::AsyncIter { promise, .. } ==> chunk_effect(request, value)
            == Effect::Resolve(PromiseRef::Request(promise), value),
        request !is Read ==> close_effect(request) == Effect::ReadSteps(
            request,
            ReadOutcome::Close(Value::Undefined),
        ),
        request !is Read ==> error_effect(request, value) == Effect::ReadSteps(
            request,
            ReadOutcome::Error(value),
        ),
        into is ByteTeeByob ==> {
            &&& into_chunk_effect(into, value) == Effect::ReadIntoSteps(
                into,
                ReadOutcome::Chunk(value),
            )
            &&& into_close_effect(into, value) == Effect::ReadIntoSteps(
                into,
                ReadOutcome::Close(value),
            )
            &&& into_error_effect(into, value) == Effect::ReadIntoSteps(
                into,
                ReadOutcome::Error(value),
            )
        },
{
}

/// Whether a source has been asked for more: where none of its pulls is under way, it is
/// called, and otherwise it will be when that has ended.
pub open spec fn asked_again(before: DefaultWorld, after: DefaultWorld) -> bool {
    &&& after.controller.pulling
    &&& before.controller.pulling ==> after.controller.pull_again
    &&& !before.controller.pulling ==> exists|i: int|
        before.scope.effects.len() <= i < after.scope.effects.len()
            && #[trigger] after.scope.effects[i] == (Effect::Invoke {
            call: Call::ReadablePull { stream: before.slots.id },
            algorithm: before.controller.pull_algorithm,
            receiver: before.controller.receiver,
        })
}

/// Whether a stream wants chunks: its source has started and may give some, and a read waits
/// or there is room below the high-water mark.
pub open spec fn wants_chunks(w: DefaultWorld) -> bool {
    &&& w.slots.state is Readable
    &&& !w.controller.close_requested
    &&& w.controller.started
    &&& {
        ||| w.slots.requests().len() > 0
        ||| w.controller.hwm.minus(w.controller.total).positive()
    }
}

/// Whether the source was asked for more just as the stream wants it.
pub open spec fn attended(before: DefaultWorld, after: DefaultWorld) -> bool {
    &&& wants_chunks(after) ==> asked_again(before, after)
    &&& !wants_chunks(after) ==> {
        &&& after.controller.pulling == before.controller.pulling
        &&& after.controller.pull_again == before.controller.pull_again
    }
}

/// The source is asked for more where the stream wants it, and left alone otherwise; one call
/// at a time.
pub proof fn law_pull_as_wanted(w: DefaultWorld)
    ensures
        attended(w, w.call_pull()),
        w.call_pull().slots == w.slots,
        w.call_pull().controller == (DefaultControllerModel {
            pulling: w.call_pull().controller.pulling,
            pull_again: w.call_pull().controller.pull_again,
            ..w.controller
        }),
        wants_chunks(w) && !w.controller.pulling ==> w.call_pull().controller.pull_again
            == w.controller.pull_again && w.call_pull().scope == w.scope.emit(
            Effect::Invoke {
                call: Call::ReadablePull { stream: w.slots.id },
                algorithm: w.controller.pull_algorithm,
                receiver: w.controller.receiver,
            },
        ),
        !wants_chunks(w) || w.controller.pulling ==> w.call_pull().scope == w.scope,
{
    let after = w.call_pull();
    if wants_chunks(w) && !w.controller.pulling {
        let i = w.scope.effects.len() as int;
        assert(after.scope.effects[i] == (Effect::Invoke {
            call: Call::ReadablePull { stream: w.slots.id },
            algorithm: w.controller.pull_algorithm,
            receiver: w.controller.receiver,
        }));
    }
}

/// What follows a step that leaves the pulls alone is attended like the call itself.
proof fn lemma_attended(before: DefaultWorld, step: DefaultWorld, after: DefaultWorld)
    requires
        step.controller.pulling == before.controller.pulling,
        step.controller.pull_again == before.controller.pull_again,
        step.controller.pull_algorithm == before.controller.pull_algorithm,
        step.controller.receiver == before.controller.receiver,
        step.slots.id == before.slots.id,
        before.scope.effects.len() <= step.scope.effects.len(),
        after.slots == step.call_pull().slots,
        after.controller == step.call_pull().controller,
        step.call_pull().scope.effects.is_prefix_of(after.scope.effects),
    ensures
        attended(before, after),
{
    law_pull_as_wanted(step);
    let mid = step.call_pull();
    if wants_chunks(step) && !step.controller.pulling {
        let i = step.scope.effects.len() as int;
        assert(mid.scope.effects[i] == after.scope.effects[i]);
        assert(after.scope.effects[i] == (Effect::Invoke {
            call: Call::ReadablePull { stream: before.slots.id },
            algorithm: before.controller.pull_algorithm,
            receiver: before.controller.receiver,
        }));
    }
}

/// What the source enqueues goes to the read that waited first, and does not touch the queue;
/// where none waits, it comes last in the queue with the size one, or its size is asked for.
/// The source is then asked for more, if the stream still wants it. A stream that takes no
/// more chunks stays as it is.
pub proof fn law_value_enqueued(w: DefaultWorld, chunk: Value)
    ensures
        ({
            let (after, step) = w.enqueue(chunk);
            let requests = w.slots.requests();
            let queue = w.controller.queue;
            let own_size = w.controller.size_algorithm is Undefined
                || w.controller.size_algorithm is One;
            if w.slots.state !is Readable || w.controller.close_requested {
                after == w && step is Done
            } else if requests.len() > 0 {
                &&& step is Done
                &&& after.scope.effects[w.scope.effects.len() as int] == chunk_effect(
                    requests[0],
                    chunk,
                )
                &&& after.slots == (SlotsModel {
                    reader: ReaderModel::Default(requests.drop_first()),
                    ..w.slots
                })
                &&& after.controller.queue == queue
                &&& after.controller.total == w.controller.total
                &&& after.controller.close_requested == w.controller.close_requested
                &&& attended(w, after)
            } else if own_size {
                &&& step is Done
                &&& after.slots == w.slots
                &&& after.controller.queue.len() == queue.len() + 1
                &&& after.controller.queue.drop_last() == queue
                &&& after.controller.queue.last() == (ValueWithSize {
                    value: chunk,
                    size: Number { bits: ONE },
                    is_close_sentinel: false,
                })
                &&& after.controller.total == w.controller.total.plus(Number { bits: ONE })
                &&& attended(w, after)
            } else {
                after == w && step == EnqueueStep::NeedsSize(w.controller.size_algorithm)
            }
        }),
{
    let (after, step) = w.enqueue(chunk);
    if w.slots.state is Readable && !w.controller.close_requested {
        if w.slots.requests().len() > 0 {
            let given = w.with_slots(w.slots.without_first_request()).emit(
                chunk_effect(w.slots.requests()[0], chunk),
            );
            lemma_attended(w, given, after);
        } else if w.controller.size_algorithm is Undefined || w.controller.size_algorithm is One {
            law_value_enqueued_sized(w, chunk, Ok(Number { bits: ONE }));
        }
    }
}

/// A chunk whose size is known comes last in the queue, which grows by that size, and the
/// source is asked for more if the stream still wants it. Where the size could not be found,
/// or is none that can be counted, the stream fails, and whoever enqueued the chunk is told.
pub proof fn law_value_enqueued_sized(w: DefaultWorld, chunk: Value, size: Result<Number, Value>)
    ensures
        ({
            let (after, result) = w.enqueue_with_size(chunk, size);
            let queue = w.controller.queue;
            let refusal = match size {
                Err(error) => Some(error),
                Ok(size) => if size.countable() {
                    None
                } else {
                    Some(Value::RangeError(Message::SizeOutOfRange))
                },
            };
            match refusal {
                None => {
                    &&& result is Ok
                    &&& after.slots == w.slots
                    &&& after.controller.queue.len() == queue.len() + 1
                    &&& after.controller.queue.drop_last() == queue
                    &&& after.controller.queue.last() == (ValueWithSize {
                        value: chunk,
                        size: size->Ok_0,
                        is_close_sentinel: false,
                    })
                    &&& after.controller.total == w.controller.total.plus(size->Ok_0)
                    &&& attended(w, after)
                },
                Some(error) => {
                    &&& result == Err::<(), Value>(error)
                    &&& after == w.errored(error)
                },
            }
        }),
{
    let (after, result) = w.enqueue_with_size(chunk, size);
    match size {
        Ok(number) => {
            if number.countable() {
                let queued = w.with_controller(w.controller.enqueued(chunk, number));
                lemma_attended(w, queued, after);
                assert(after.controller.queue.drop_last() =~= w.controller.queue);
            }
        },
        Err(_) => {},
    }
}

/// A read is handed the chunk that has waited longest, which leaves the queue and its size;
/// where none waits, the read waits behind those that do. The source is asked for more, if the
/// stream wants it, unless that was the last chunk before a close, with which the stream ends.
pub proof fn law_value_read(w: DefaultWorld, request: ReadRequest)
    requires
        w.slots.state is Readable,
    ensures
        ({
            let after = w.pull_steps(request);
            let queue = w.controller.queue;
            if queue.len() == 0 {
                &&& after.slots == (SlotsModel {
                    reader: ReaderModel::Default(w.slots.requests().push(request)),
                    ..w.slots
                })
                &&& after.controller.queue == queue
                &&& after.controller.total == w.controller.total
                &&& attended(w, after)
            } else {
                let left = w.controller.total.minus(queue[0].size);
                &&& after.scope.effects.last() == chunk_effect(request, queue[0].value)
                &&& after.controller.queue == queue.drop_first()
                &&& after.controller.total == if left.below_zero() {
                    Number { bits: 0 }
                } else {
                    left
                }
                &&& if w.controller.close_requested && queue.len() == 1 {
                    &&& after.slots.state is Closed
                    &&& w.slots.reader !is Unlocked ==> after.scope.effects[
                        w.scope.effects.len() as int] == Effect::Resolve(
                        PromiseRef::ReaderClosed(w.slots.id),
                        Value::Undefined,
                    )
                } else {
                    &&& after.slots == w.slots
                    &&& attended(w, after)
                }
            }
        }),
{
    let after = w.pull_steps(request);
    let queue = w.controller.queue;
    if queue.len() == 0 {
        lemma_attended(w, w.with_slots(w.slots.with_request(request)), after);
    } else if !(w.controller.close_requested && queue.len() == 1) {
        lemma_attended(w, w.with_controller(w.controller.dequeued()), after);
    } else {
        assert(queue.drop_first().len() == 0);
        assert(w.slots.reader !is Unlocked ==> w.slots.on_close().len() > 0);
    }
}

/// The end of a start is the first time that the source is asked for chunks; that of a pull,
/// another, if one was asked for while it was under way and is still wanted.
pub proof fn law_value_source_done(w: DefaultWorld)
    ensures
        w.start_fulfilled().controller.started,
        w.start_fulfilled().controller.queue == w.controller.queue,
        w.start_fulfilled().slots == w.slots,
        attended(w, w.start_fulfilled()),
        ({
            let after = w.pull_fulfilled();
            &&& after.slots == w.slots
            &&& after.controller.queue == w.controller.queue
            &&& !after.controller.pull_again
            &&& if w.controller.pull_again && wants_chunks(w) {
                &&& after.controller.pulling
                &&& after.scope == w.scope.emit(
                    Effect::Invoke {
                        call: Call::ReadablePull { stream: w.slots.id },
                        algorithm: w.controller.pull_algorithm,
                        receiver: w.controller.receiver,
                    },
                )
            } else {
                &&& !after.controller.pulling
                &&& after.scope == w.scope
            }
        }),
{
    lemma_attended(
        w,
        w.with_controller(DefaultControllerModel { started: true, ..w.controller }),
        w.start_fulfilled(),
    );
}

/// Whether a stream has closed, and whoever waited for it been told, in order.
pub open spec fn closed_for_all(
    slots: SlotsModel,
    effects: Seq<Effect>,
    after: SlotsModel,
    told: Seq<Effect>,
) -> bool {
    let first = effects.len() as int;
    &&& after.state is Closed
    &&& after.requests().len() == 0
    &&& after.reader is Unlocked <==> slots.reader is Unlocked
    &&& slots.reader is Unlocked ==> told == effects
    &&& slots.reader !is Unlocked ==> {
        &&& told.len() >= first + 1 + slots.requests().len()
        &&& told[first] == Effect::Resolve(PromiseRef::ReaderClosed(slots.id), Value::Undefined)
        &&& forall|i: int|
            0 <= i < slots.requests().len() ==> told[first + 1 + i] == close_effect(
                #[trigger] slots.requests()[i],
            )
    }
}

/// A stream that its source closes ends at once where nothing waits to be read, and whoever
/// waited is told; otherwise what waits can still be read, and nothing more is taken.
pub proof fn law_value_closed(w: DefaultWorld)
    ensures
        ({
            let after = w.close();
            if w.slots.state !is Readable || w.controller.close_requested {
                after == w
            } else if w.controller.queue.len() == 0 {
                closed_for_all(w.slots, w.scope.effects, after.slots, after.scope.effects)
            } else {
                &&& after.slots == w.slots
                &&& after.scope == w.scope
                &&& after.controller == (DefaultControllerModel {
                    close_requested: true,
                    ..w.controller
                })
            }
        }),
{
}

/// Whether a stream has failed with an error, and whoever waited for it been told, in order.
pub open spec fn failed_for_all(
    slots: SlotsModel,
    effects: Seq<Effect>,
    after: SlotsModel,
    told: Seq<Effect>,
    error: Value,
) -> bool {
    let first = effects.len() as int;
    let reads = slots.requests();
    let into = slots.into_requests();
    let closed = PromiseRef::ReaderClosed(slots.id);
    &&& after.state is Errored
    &&& after.stored_error == error
    &&& after.requests().len() == 0
    &&& after.into_requests().len() == 0
    &&& slots.reader is Unlocked ==> told == effects
    &&& slots.reader !is Unlocked ==> {
        &&& told.len() == first + 2 + reads.len() + into.len()
        &&& told[first] == Effect::Reject(closed, error)
        &&& told[first + 1] == Effect::MarkHandled(closed)
        &&& forall|i: int|
            0 <= i < reads.len() ==> told[first + 2 + i] == error_effect(#[trigger] reads[i], error)
        &&& forall|i: int|
            0 <= i < into.len() ==> told[first + 2 + reads.len() + i] == into_error_effect(
                #[trigger] into[i],
                error,
            )
    }
}

/// A stream that its source fails drops what waits to be read, and whoever waited is told of
/// the error. One that has ended stays as it is.
pub proof fn law_value_failed(w: DefaultWorld, error: Value)
    ensures
        w.slots.state !is Readable ==> w.errored(error) == w,
        w.slots.state is Readable ==> {
            &&& failed_for_all(
                w.slots,
                w.scope.effects,
                w.errored(error).slots,
                w.errored(error).scope.effects,
                error,
            )
            &&& w.errored(error).controller.queue.len() == 0
            &&& w.errored(error).controller.total == (Number { bits: 0 })
        },
{
}

/// The room that a source is told of is what its high-water mark leaves above what waits; it is
/// nothing once the stream has closed, and there is none to speak of once it has failed.
pub proof fn law_value_room(w: DefaultWorld)
    ensures
        default_desired_size(w.slots, w.controller) == match w.slots.state {
            ReadableStreamState::Readable => Some(w.controller.hwm.minus(w.controller.total)),
            ReadableStreamState::Closed => Some(Number { bits: 0 }),
            ReadableStreamState::Errored => None,
        },
{
}

/// What the author may do with a controller: as long as the stream is readable and has not been
/// asked to close, a close and a chunk are taken; after that both are refused, and change
/// nothing.
pub proof fn law_author_permitted(w: DefaultWorld, chunk: Value)
    ensures
        ({
            let permitted = w.slots.state is Readable && !w.controller.close_requested;
            &&& permitted ==> w.author_close() == (w.close(), Ok::<(), Value>(()))
            &&& permitted ==> w.author_enqueue(chunk).0 == w.enqueue(chunk).0
                && w.author_enqueue(chunk).1 == Ok::<EnqueueStep, Value>(w.enqueue(chunk).1)
            &&& !permitted ==> w.author_close() == (
                w,
                Err::<(), Value>(Value::TypeError(Message::CloseNotPermitted)),
            )
            &&& !permitted ==> w.author_enqueue(chunk) == (
                w,
                Err::<EnqueueStep, Value>(Value::TypeError(Message::EnqueueNotPermitted)),
            )
        }),
{
}

/// A read of a stream of values that is readable is what its controller makes of it; every
/// read disturbs the stream.
pub proof fn law_stream_is_read(w: ReadableWorld, request: ReadRequest)
    requires
        w.stream.controller is Default,
        w.stream.slots.state is Readable,
    ensures
        ({
            let after = w.read(request);
            let queue = w.stream.controller->Default_0.queue;
            &&& after.stream.controller is Default
            &&& after.stream.slots.disturbed
            &&& queue.len() > 0 ==> after.scope.effects.last() == chunk_effect(
                request,
                queue[0].value,
            ) && after.stream.controller->Default_0.queue == queue.drop_first()
            &&& queue.len() == 0 ==> after.stream.slots.requests()
                == w.stream.slots.requests().push(request)
        }),
{
}

/// A cancelation closes a stream that is readable: whoever waited is told that there is no
/// more, what waited to be read is dropped, and last of all the source hears of the reason.
pub proof fn law_cancelation(w: ReadableWorld, reason: Value, result: PromiseRef)
    requires
        w.stream.slots.state is Readable,
    ensures
        ({
            let after = w.cancel(reason, result);
            let first = w.scope.effects.len() as int;
            let reads = w.stream.slots.requests();
            let into = w.stream.slots.into_requests();
            &&& after.stream.slots.into_requests().len() == 0
            &&& after.stream.slots.disturbed
            &&& w.stream.slots.reader !is Unlocked ==> {
                &&& closed_for_all(
                    w.stream.slots,
                    w.scope.effects,
                    after.stream.slots,
                    after.scope.effects,
                )
                &&& forall|i: int|
                    0 <= i < into.len() ==> after.scope.effects[first + 1 + reads.len() + i]
                        == into_close_effect(#[trigger] into[i], Value::Undefined)
            }
            &&& w.stream.slots.reader is Unlocked ==> after.stream.slots.state is Closed
                && after.stream.slots.reader is Unlocked
            &&& match after.stream.controller {
                ControllerModel::Default(controller) => controller.queue.len() == 0
                    && controller.pull_algorithm is Undefined && controller.cancel_algorithm
                    is Undefined && controller.total == (Number { bits: 0 }),
                ControllerModel::Byte(controller) => controller.queue.len() == 0
                    && controller.pending.len() == 0 && controller.byob_request is None
                    && controller.total == 0 && controller.pull_algorithm is Undefined
                    && controller.cancel_algorithm is Undefined,
            }
        }),
{
}

/// A new reader has a `closed` promise that tells the state of the stream from the start, and
/// no reads that wait. A stream is locked to one reader at a time, and only a byte stream to
/// one that brings its own buffers.
pub proof fn law_new_reader(w: ReadableWorld)
    requires
        w.stream.slots.reader is Unlocked,
    ensures
        ({
            let closed = PromiseRef::ReaderClosed(w.stream.slots.id);
            let fresh = w.scope.emit(Effect::NewPromise(closed));
            let told = match w.stream.slots.state {
                ReadableStreamState::Readable => fresh,
                ReadableStreamState::Closed => fresh.emit(
                    Effect::Resolve(closed, Value::Undefined),
                ),
                ReadableStreamState::Errored => fresh.emit(
                    Effect::Reject(closed, w.stream.slots.stored_error),
                ).emit(Effect::MarkHandled(closed)),
            };
            let (values, taken) = w.acquire_default_reader();
            let (bytes, result) = w.acquire_byob_reader();
            &&& taken is Ok
            &&& values.stream.slots == (SlotsModel {
                reader: ReaderModel::Default(Seq::empty()),
                ..w.stream.slots
            })
            &&& values.stream.controller == w.stream.controller
            &&& values.scope == told
            &&& w.stream.controller is Byte ==> {
                &&& result is Ok
                &&& bytes.stream.slots == (SlotsModel {
                    reader: ReaderModel::Byob(Seq::empty()),
                    ..w.stream.slots
                })
                &&& bytes.stream.controller == w.stream.controller
                &&& bytes.scope == told
            }
            &&& w.stream.controller is Default ==> (bytes, result) == (
                w,
                Err::<(), Value>(Value::TypeError(Message::ByobOnNonByteStream)),
            )
        }),
{
}

/// A reader that lets go of its stream leaves the stream as it is. Its `closed` promise fails,
/// a new one where the old had been settled, and so do its reads that wait, in order.
pub proof fn law_reader_lets_go(w: ReadableWorld)
    requires
        w.stream.slots.reader !is Unlocked,
    ensures
        ({
            let after = w.release();
            let effects = after.scope.effects;
            let closed = PromiseRef::ReaderClosed(w.stream.slots.id);
            let gone = Value::TypeError(Message::ReaderReleased);
            let reads = w.stream.slots.requests();
            let into = w.stream.slots.into_requests();
            let start = w.scope.effects.len() + if w.stream.slots.state is Readable {
                0int
            } else {
                1
            };
            &&& after.stream.slots == (SlotsModel {
                reader: ReaderModel::Unlocked,
                ..w.stream.slots
            })
            &&& w.stream.controller is Default ==> after.stream.controller == w.stream.controller
            &&& w.stream.slots.state !is Readable ==> effects[start - 1] == Effect::NewPromise(
                closed,
            )
            &&& effects.len() == start + 2 + reads.len() + into.len()
            &&& effects[start] == Effect::Reject(
                closed,
                Value::TypeError(Message::ReaderReleasedClosed),
            )
            &&& effects[start + 1] == Effect::MarkHandled(closed)
            &&& forall|i: int|
                0 <= i < reads.len() ==> effects[start + 2 + i] == error_effect(
                    #[trigger] reads[i],
                    gone,
                )
            &&& forall|i: int|
                0 <= i < into.len() ==> effects[start + 2 + reads.len() + i] == into_error_effect(
                    #[trigger] into[i],
                    gone,
                )
        }),
{
}

} // verus!
