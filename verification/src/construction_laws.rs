//! What a stream is like that has just been made, in terms of what its author gave.

use vstd::prelude::*;

use crate::algorithms::{high_water_mark_of, size_algorithm_of};
use crate::number::{law_difference_tells_larger, Number, ONE};
use crate::queuing::{CallbackObject, QueuingStrategy};
use crate::readable::async_iterator::{new_iterator, step_result, ReadableStreamAsyncIterator};
use crate::readable::from_iterable::stream_of_iterator;
use crate::readable::options::ReadableStreamIteratorOptions;
use crate::readable::readable_stream::{constructed, stream_of_chunk};
use crate::readable::set_up::allocation_of;
use crate::readable::slots::SlotsModel;
use crate::readable::stream_world::{ControllerModel, ReadableWorld};
use crate::readable::underlying_source::{SourceArgument, UnderlyingSource};
use crate::scope::{Algorithm, Call, Effect, PromiseRef, Reaction, ScopeModel};
use crate::support::{first_bad_member, member_algorithm};
use crate::transform::transform_stream::{
    constructed_transform, set_up_effects, sides_of, TransformIds,
};
use crate::transform::transformer::{Transformer, TransformerArgument};
use crate::value::{Message, Value};
use crate::writable::underlying_sink::{SinkArgument, UnderlyingSink};
use crate::writable::world::WritableModel;
use crate::writable::writable_stream::constructed_writable;

verus! {

/// The mark that an author gives, or that there is where they give none.
pub open spec fn mark_or(strategy: Option<QueuingStrategy>, otherwise: Number) -> Number {
    if strategy is Some && strategy->0.high_water_mark is Some {
        strategy->0.high_water_mark->0
    } else {
        otherwise
    }
}

/// Whether the mark that an author gives will do, if they give one.
pub open spec fn mark_fits(strategy: Option<QueuingStrategy>) -> bool {
    strategy is Some && strategy->0.high_water_mark is Some
        ==> strategy->0.high_water_mark->0.non_negative()
}

/// How an author has chunks measured: by a function, or each as one.
pub open spec fn measure_of(strategy: Option<QueuingStrategy>) -> Algorithm {
    if strategy is Some && strategy->0.size is Some {
        Algorithm::Callback(strategy->0.size->0.handle)
    } else {
        Algorithm::One
    }
}

/// Whether the measure that an author gives is a function, if they give one.
pub open spec fn measure_fits(strategy: Option<QueuingStrategy>) -> bool {
    strategy is Some && strategy->0.size is Some ==> strategy->0.size->0.callable
}

/// What a member of an object of the author is called by.
pub open spec fn called_by(member: Option<CallbackObject>, otherwise: Algorithm) -> Algorithm {
    match member {
        Some(object) => Algorithm::Callback(object.handle),
        None => otherwise,
    }
}

/// Whether a member of an object of the author is missing or a function.
pub open spec fn callable(member: Option<CallbackObject>) -> bool {
    match member {
        Some(object) => object.callable,
        None => true,
    }
}

/// A strategy is taken as it was given, the parts of it that were not given by default; a mark
/// below zero is refused, as is one that is no number, and a measure that is no function.
pub proof fn law_strategy_taken(strategy: Option<QueuingStrategy>, otherwise: Number)
    ensures
        mark_fits(strategy) ==> high_water_mark_of(strategy, otherwise) == Ok::<Number, Value>(
            mark_or(strategy, otherwise),
        ),
        !mark_fits(strategy) ==> high_water_mark_of(strategy, otherwise) == Err::<Number, Value>(
            Value::RangeError(Message::HighWaterMarkNegative),
        ),
        measure_fits(strategy) ==> size_algorithm_of(strategy) == Ok::<Algorithm, Value>(
            measure_of(strategy),
        ),
        !measure_fits(strategy) ==> size_algorithm_of(strategy) == Err::<Algorithm, Value>(
            Value::TypeError(Message::SizeMustBeFunction),
        ),
{
}

/// A member is called if it is there, nothing is if it is not; one that is no function is
/// refused.
pub proof fn law_member_taken(member: Option<CallbackObject>, message: Message)
    ensures
        callable(member) ==> member_algorithm(member, message) == Ok::<Algorithm, Value>(
            called_by(member, Algorithm::Undefined),
        ),
        !callable(member) ==> member_algorithm(member, message) == Err::<Algorithm, Value>(
            Value::TypeError(message),
        ),
{
}

/// Of several members the first that is no function is refused, and none if all are.
pub proof fn law_members_checked(members: Seq<(Option<CallbackObject>, Message)>, bad: int)
    requires
        0 <= bad <= members.len(),
        forall|i: int| 0 <= i < bad ==> callable(#[trigger] members[i].0),
        bad < members.len() ==> !callable(members[bad].0),
    ensures
        bad == members.len() ==> first_bad_member(members) is Ok,
        bad < members.len() ==> first_bad_member(members) == Err::<(), Value>(
            Value::TypeError(members[bad].1),
        ),
    decreases members.len(),
{
    if members.len() > 0 && bad > 0 {
        assert(callable(members[0].0));
        let rest = members.drop_first();
        assert forall|i: int| 0 <= i < bad - 1 implies callable(#[trigger] rest[i].0) by {
            assert(rest[i] == members[i + 1]);
        }
        law_members_checked(rest, bad - 1);
    }
}

/// Whether the chunks of a new stream have room: its mark is above zero.
proof fn lemma_room(mark: Number)
    requires
        mark.countable(),
    ensures
        mark.minus(Number { bits: 0 }).not_positive() <==> mark.magnitude() == 0,
{
    law_difference_tells_larger(mark, Number { bits: 0 });
}

/// The members that a transformer has, and the object that they are called on.
pub open spec fn members_of(transformer: TransformerArgument) -> Option<(Value, Transformer)> {
    match transformer {
        TransformerArgument::Missing => Some(
            (
                Value::Undefined,
                Transformer {
                    start: None,
                    transform: None,
                    flush: None,
                    cancel: None,
                    has_readable_type: false,
                    has_writable_type: false,
                },
            ),
        ),
        TransformerArgument::Object { handle, members: Ok(members) } => Some(
            (Value::Handle(handle), members),
        ),
        _ => None,
    }
}

/// Whether a transform stream can be made of a transformer.
pub open spec fn transformer_fits(members: Transformer) -> bool {
    &&& callable(members.start)
    &&& callable(members.transform)
    &&& callable(members.flush)
    &&& callable(members.cancel)
    &&& !members.has_readable_type
    &&& !members.has_writable_type
}

/// A transform stream is made just where all that its author gave will do. Each of its sides
/// has the mark and the measure of its own strategy, whatever the other strategy says: by
/// default the writable side has room for one chunk, and the readable side for none. It pushes
/// back until it is read from; its transformer is called as it was given, and a chunk is
/// passed on as it is where none was.
pub proof fn law_transform_made(
    ids: TransformIds,
    transformer: TransformerArgument,
    writable_strategy: Option<QueuingStrategy>,
    readable_strategy: Option<QueuingStrategy>,
)
    ensures
        ({
            let made = constructed_transform(
                ids,
                transformer,
                writable_strategy,
                readable_strategy,
            );
            let given = members_of(transformer);
            let fits = given is Some && transformer_fits((given->0).1) && mark_fits(
                writable_strategy,
            ) && mark_fits(readable_strategy) && measure_fits(writable_strategy) && measure_fits(
                readable_strategy,
            );
            &&& made is Ok <==> fits
            &&& made matches Ok((stream, start)) ==> {
                let (receiver, members) = given->0;
                let writable = stream.writable;
                &&& stream.id == ids.transform
                &&& stream.backpressure
                &&& stream.has_change_promise
                &&& !stream.detached
                &&& writable.id == ids.writable
                &&& writable.controller.hwm == mark_or(writable_strategy, Number { bits: ONE })
                &&& writable.controller.size_algorithm == measure_of(writable_strategy)
                &&& writable.controller.write_algorithm == Algorithm::SinkWrite(ids.transform)
                &&& writable.controller.close_algorithm == Algorithm::SinkClose(ids.transform)
                &&& writable.controller.abort_algorithm == Algorithm::SinkAbort(ids.transform)
                &&& writable.controller.queue.len() == 0
                &&& writable.state is Writable
                &&& writable.writer is None
                &&& writable.controller.hwm.countable() ==> (writable.backpressure
                    <==> writable.controller.hwm.magnitude() == 0)
                &&& stream.readable.slots.id == ids.readable
                &&& stream.readable.slots.state is Readable
                &&& stream.readable.slots.reader is Unlocked
                &&& stream.readable.controller matches ControllerModel::Default(readable) && {
                    &&& readable.hwm == mark_or(readable_strategy, Number { bits: 0 })
                    &&& readable.size_algorithm == measure_of(readable_strategy)
                    &&& readable.pull_algorithm == Algorithm::SourcePull(ids.transform)
                    &&& readable.cancel_algorithm == Algorithm::SourceCancel(ids.transform)
                    &&& readable.queue.len() == 0
                }
                &&& stream.controller.transform_algorithm == called_by(
                    members.transform,
                    Algorithm::Identity(ids.transform),
                )
                &&& stream.controller.flush_algorithm == called_by(
                    members.flush,
                    Algorithm::Undefined,
                )
                &&& stream.controller.cancel_algorithm == called_by(
                    members.cancel,
                    Algorithm::Undefined,
                )
                &&& stream.controller.algorithm_receiver == receiver
                &&& !stream.controller.finish_promise
                &&& members.start is None ==> start == Effect::Resolve(
                    PromiseRef::TransformStart(ids.transform),
                    Value::Undefined,
                )
                &&& members.start matches Some(object) ==> start == Effect::Invoke {
                    call: Call::TransformStart { transform: ids.transform },
                    algorithm: Algorithm::Callback(object.handle),
                    receiver,
                }
                &&& writable.identity_transform is Some <==> members.transform is None
                    && members.start is None && members.flush is None && members.cancel is None
                    && (writable_strategy is None || writable_strategy->0.size is None) && (
                readable_strategy is None || readable_strategy->0.size is None)
                &&& writable.identity_transform matches Some(id) ==> id == ids.transform
            }
        }),
{
    let made = constructed_transform(ids, transformer, writable_strategy, readable_strategy);
    if made is Ok {
        let hwm = made->Ok_0.0.writable.controller.hwm;
        if hwm.countable() {
            lemma_room(hwm);
        }
    }
}

/// A transform stream that is made with no strategies has room for a chunk at once.
pub proof fn law_plain_transform_has_room(ids: TransformIds, transformer: TransformerArgument)
    ensures
        constructed_transform(ids, transformer, None, None) matches Ok((stream, _))
            ==> !stream.writable.backpressure,
{
    law_transform_made(ids, transformer, None, None);
    assert((Number { bits: ONE }).magnitude() != 0);
}

/// The strategy of one side of a transform stream leaves the other side alone.
pub proof fn law_sides_apart(
    writable_strategy: Option<QueuingStrategy>,
    readable_strategy: Option<QueuingStrategy>,
    other: Option<QueuingStrategy>,
)
    ensures
        sides_of(writable_strategy, readable_strategy) is Ok && sides_of(writable_strategy, other)
            is Ok ==> {
            let one = sides_of(writable_strategy, readable_strategy)->Ok_0;
            let two = sides_of(writable_strategy, other)->Ok_0;
            one.writable_mark == two.writable_mark && one.writable_size == two.writable_size
        },
        sides_of(writable_strategy, readable_strategy) is Ok && sides_of(other, readable_strategy)
            is Ok ==> {
            let one = sides_of(writable_strategy, readable_strategy)->Ok_0;
            let two = sides_of(other, readable_strategy)->Ok_0;
            one.readable_mark == two.readable_mark && one.readable_size == two.readable_size
        },
{
}

/// Of what is wrong with what a transform stream is to be made of the transformer comes first,
/// its members by name and then the kinds that it may not have, then the strategy of the
/// readable side, then that of the writable side; of a strategy the mark comes first.
pub proof fn law_transform_refused(
    ids: TransformIds,
    transformer: TransformerArgument,
    writable_strategy: Option<QueuingStrategy>,
    readable_strategy: Option<QueuingStrategy>,
)
    ensures
        ({
            let made = constructed_transform(
                ids,
                transformer,
                writable_strategy,
                readable_strategy,
            );
            match transformer {
                TransformerArgument::NotObject => made is Err && made->Err_0 == Value::TypeError(
                    Message::TransformerNotObject,
                ),
                TransformerArgument::Object { members: Err(Some(error)), .. } => made is Err
                    && made->Err_0 == error,
                TransformerArgument::Object { members: Err(None), .. } => made is Err
                    && made->Err_0 == Value::TypeError(Message::InvalidTransformer),
                _ => {
                    let (_, members) = members_of(transformer)->0;
                    let error = if !callable(members.cancel) {
                        Some(Value::TypeError(Message::TransformerCancelNotFunction))
                    } else if !callable(members.flush) {
                        Some(Value::TypeError(Message::TransformerFlushNotFunction))
                    } else if !callable(members.start) {
                        Some(Value::TypeError(Message::TransformerStartNotFunction))
                    } else if !callable(members.transform) {
                        Some(Value::TypeError(Message::TransformerTransformNotFunction))
                    } else if members.has_readable_type {
                        Some(Value::RangeError(Message::InvalidReadableType))
                    } else if members.has_writable_type {
                        Some(Value::RangeError(Message::InvalidWritableType))
                    } else if !mark_fits(readable_strategy) {
                        Some(Value::RangeError(Message::HighWaterMarkNegative))
                    } else if !measure_fits(readable_strategy) {
                        Some(Value::TypeError(Message::SizeMustBeFunction))
                    } else if !mark_fits(writable_strategy) {
                        Some(Value::RangeError(Message::HighWaterMarkNegative))
                    } else if !measure_fits(writable_strategy) {
                        Some(Value::TypeError(Message::SizeMustBeFunction))
                    } else {
                        None
                    };
                    error matches Some(error) ==> made is Err && made->Err_0 == error
                },
            }
        }),
{
}

/// What the making of a transform stream asks for: the start of both its sides waits for that
/// of the transformer.
pub proof fn law_transform_set_up(ids: TransformIds, scope: ScopeModel)
    ensures
        set_up_effects(ids, scope) == scope.emit(
            Effect::NewPromise(PromiseRef::TransformStart(ids.transform)),
        ).emit(
            Effect::Invoke {
                call: Call::WritableStart { stream: ids.writable },
                algorithm: Algorithm::TransformStart(ids.transform),
                receiver: Value::Undefined,
            },
        ).emit(
            Effect::Invoke {
                call: Call::ReadableStart { stream: ids.readable },
                algorithm: Algorithm::TransformStart(ids.transform),
                receiver: Value::Undefined,
            },
        ).emit(Effect::NewPromise(PromiseRef::BackpressureChange(ids.transform))),
{
}

/// The members that a sink has, and the object that they are called on.
pub open spec fn sink_members(sink: SinkArgument) -> Option<(Value, UnderlyingSink)> {
    match sink {
        SinkArgument::Missing => Some(
            (
                Value::Undefined,
                UnderlyingSink {
                    start: None,
                    write: None,
                    close: None,
                    abort: None,
                    has_kind: false,
                },
            ),
        ),
        SinkArgument::Object { handle, members: Ok(members) } => Some(
            (Value::Handle(handle), members),
        ),
        _ => None,
    }
}

/// Whether a stream is a new writable one, with nothing in it and nothing under way.
pub open spec fn freshly_writable(stream: WritableModel) -> bool {
    &&& stream.state is Writable
    &&& stream.close_request is None
    &&& stream.in_flight_write is None
    &&& stream.in_flight_close is None
    &&& stream.pending_abort is None
    &&& stream.writer is None
    &&& stream.write_requests.len() == 0
    &&& stream.controller.queue.len() == 0
    &&& stream.controller.total == (Number { bits: 0 })
    &&& !stream.controller.started
    &&& !stream.detached
    &&& stream.identity_transform is None
}

/// A writable stream is made just where all that its author gave will do. It is empty, has the
/// mark and the measure that it was given, by default one chunk; its sink is called as it was
/// given and is started at once.
pub proof fn law_writable_made(id: u64, sink: SinkArgument, strategy: Option<QueuingStrategy>)
    ensures
        ({
            let made = constructed_writable(id, sink, strategy);
            let given = sink_members(sink);
            &&& made is Ok <==> given is Some && !(given->0).1.has_kind && callable(
                (given->0).1.start,
            ) && callable((given->0).1.write) && callable((given->0).1.close) && callable(
                (given->0).1.abort,
            ) && mark_fits(strategy) && measure_fits(strategy)
            &&& made matches Ok((stream, start)) ==> {
                let (receiver, members) = given->0;
                let controller = stream.controller;
                let none = Algorithm::Undefined;
                &&& stream.id == id
                &&& freshly_writable(stream)
                &&& controller.hwm == mark_or(strategy, Number { bits: ONE })
                &&& controller.size_algorithm == measure_of(strategy)
                &&& controller.receiver == receiver
                &&& controller.write_algorithm == called_by(members.write, none)
                &&& controller.close_algorithm == called_by(members.close, none)
                &&& controller.abort_algorithm == called_by(members.abort, none)
                &&& controller.hwm.countable() ==> (stream.backpressure
                    <==> controller.hwm.magnitude() == 0)
                &&& start == Effect::Invoke {
                    call: Call::WritableStart { stream: id },
                    algorithm: called_by(members.start, none),
                    receiver,
                }
            }
        }),
{
    let made = constructed_writable(id, sink, strategy);
    if made is Ok {
        let hwm = made->Ok_0.0.controller.hwm;
        if hwm.countable() {
            lemma_room(hwm);
        }
    }
}

/// Of what is wrong with what a writable stream is to be made of, the sink comes first, then a
/// kind that it may not have, then the measure and the mark of the strategy, and then the
/// members of the sink.
pub proof fn law_writable_refused(id: u64, sink: SinkArgument, strategy: Option<QueuingStrategy>)
    ensures
        ({
            let made = constructed_writable(id, sink, strategy);
            match sink {
                SinkArgument::NotObject => made is Err && made->Err_0 == Value::TypeError(
                    Message::SinkNotObject,
                ),
                SinkArgument::Object { members: Err(Some(error)), .. } => made is Err
                    && made->Err_0 == error,
                SinkArgument::Object { members: Err(None), .. } => made is Err && made->Err_0
                    == Value::TypeError(Message::InvalidSink),
                _ => {
                    let (_, members) = sink_members(sink)->0;
                    let error = if members.has_kind {
                        Some(Value::RangeError(Message::InvalidSinkType))
                    } else if !measure_fits(strategy) {
                        Some(Value::TypeError(Message::SizeMustBeFunction))
                    } else if !mark_fits(strategy) {
                        Some(Value::RangeError(Message::HighWaterMarkNegative))
                    } else if !callable(members.start) {
                        Some(Value::TypeError(Message::SinkStartNotFunction))
                    } else if !callable(members.write) {
                        Some(Value::TypeError(Message::SinkWriteNotFunction))
                    } else if !callable(members.close) {
                        Some(Value::TypeError(Message::SinkCloseNotFunction))
                    } else if !callable(members.abort) {
                        Some(Value::TypeError(Message::SinkAbortNotFunction))
                    } else {
                        None
                    };
                    error matches Some(error) ==> made is Err && made->Err_0 == error
                },
            }
        }),
{
}

/// The members that a source has, and the object that they are called on.
pub open spec fn source_members(source: SourceArgument) -> Option<(Value, UnderlyingSource)> {
    match source {
        SourceArgument::Missing => Some(
            (
                Value::Undefined,
                UnderlyingSource {
                    start: None,
                    pull: None,
                    cancel: None,
                    kind: None,
                    auto_allocate_chunk_size: None,
                },
            ),
        ),
        SourceArgument::Object { handle, members: Ok(members) } => Some(
            (Value::Handle(handle), members),
        ),
        _ => None,
    }
}

/// Whether the slots are those of a new stream that nobody reads yet.
pub open spec fn freshly_readable(slots: SlotsModel, id: u64) -> bool {
    &&& slots.id == id
    &&& slots.state is Readable
    &&& slots.reader is Unlocked
    &&& !slots.disturbed
    &&& !slots.detached
    &&& slots.native_byte_source is None
    &&& slots.piped_to_identity_transform is None
}

/// A size for the buffers that a byte stream makes itself has to be a whole number above zero
/// once it is rounded down; what is past the largest index is taken for that.
pub proof fn law_allocation_taken(size: Option<Number>)
    ensures
        size is None ==> allocation_of(size) == Ok::<Option<usize>, Value>(None),
        size matches Some(number) ==> {
            &&& !number.in_range() ==> allocation_of(size) == Err::<Option<usize>, Value>(
                Value::TypeError(Message::AutoAllocateOutOfRange),
            )
            &&& number.in_range() && number.whole() == 0 ==> allocation_of(size) == Err::<
                Option<usize>,
                Value,
            >(Value::TypeError(Message::AutoAllocateZero))
            &&& number.in_range() && number.whole() > 0 ==> allocation_of(size) == Ok::<
                Option<usize>,
                Value,
            >(
                Some(
                    if number.whole() <= usize::MAX {
                        number.whole() as usize
                    } else {
                        usize::MAX
                    },
                ),
            )
        },
{
}

/// A readable stream of values has the mark and the measure that it was given, by default one
/// chunk; its source is called as it was given and is started at once.
pub proof fn law_value_stream_made(
    id: u64,
    source: SourceArgument,
    strategy: Option<QueuingStrategy>,
)
    requires
        source_members(source) is Some,
        (source_members(source)->0).1.kind is None,
    ensures
        ({
            let made = constructed(id, source, strategy);
            let (receiver, members) = source_members(source)->0;
            let none = Algorithm::Undefined;
            &&& made is Ok <==> callable(members.start) && callable(members.pull) && callable(
                members.cancel,
            ) && mark_fits(strategy) && measure_fits(strategy)
            &&& made matches Ok((stream, start)) ==> {
                &&& freshly_readable(stream.slots, id)
                &&& stream.controller matches ControllerModel::Default(controller) && {
                    &&& controller.hwm == mark_or(strategy, Number { bits: ONE })
                    &&& controller.size_algorithm == measure_of(strategy)
                    &&& controller.pull_algorithm == called_by(members.pull, none)
                    &&& controller.cancel_algorithm == called_by(members.cancel, none)
                    &&& controller.receiver == receiver
                    &&& controller.queue.len() == 0
                    &&& controller.total == (Number { bits: 0 })
                    &&& !controller.started && !controller.pulling && !controller.pull_again
                    &&& !controller.close_requested
                }
                &&& start == Effect::Invoke {
                    call: Call::ReadableStart { stream: id },
                    algorithm: called_by(members.start, none),
                    receiver,
                }
            }
        }),
{
}

/// A byte stream has the mark that it was given, by default none, and no measure but the number
/// of bytes.
pub proof fn law_byte_stream_made(
    id: u64,
    source: SourceArgument,
    strategy: Option<QueuingStrategy>,
)
    requires
        source_members(source) is Some,
        (source_members(source)->0).1.kind is Some,
    ensures
        ({
            let made = constructed(id, source, strategy);
            let (receiver, members) = source_members(source)->0;
            let size = members.auto_allocate_chunk_size;
            let none = Algorithm::Undefined;
            &&& made is Ok <==> callable(members.start) && callable(members.pull) && callable(
                members.cancel,
            ) && mark_fits(strategy) && (strategy is None || strategy->0.size is None) && (size
                is None || (size->0.in_range() && size->0.whole() > 0))
            &&& made matches Ok((stream, start)) ==> {
                &&& freshly_readable(stream.slots, id)
                &&& stream.controller matches ControllerModel::Byte(controller) && {
                    &&& controller.hwm == mark_or(strategy, Number { bits: 0 })
                    &&& controller.pull_algorithm == called_by(members.pull, none)
                    &&& controller.cancel_algorithm == called_by(members.cancel, none)
                    &&& controller.receiver == receiver
                    &&& controller.queue.len() == 0
                    &&& controller.pending.len() == 0
                    &&& controller.total == 0
                    &&& controller.byob_request is None
                    &&& controller.auto_allocate_chunk_size is None <==> size is None
                    &&& size matches Some(number) ==> number.whole() <= usize::MAX
                        ==> controller.auto_allocate_chunk_size == Some(number.whole() as usize)
                    &&& !controller.started && !controller.pulling && !controller.pull_again
                    &&& !controller.close_requested
                }
                &&& start == Effect::Invoke {
                    call: Call::ReadableStart { stream: id },
                    algorithm: called_by(members.start, none),
                    receiver,
                }
            }
        }),
{
}

/// Of what is wrong with what a readable stream is to be made of, the source comes first and
/// its members by name, then the strategy, and then the size of the buffers of a byte stream.
pub proof fn law_readable_refused(
    id: u64,
    source: SourceArgument,
    strategy: Option<QueuingStrategy>,
)
    ensures
        ({
            let made = constructed(id, source, strategy);
            match source {
                SourceArgument::NotObject => made is Err && made->Err_0 == Value::TypeError(
                    Message::SourceNotObject,
                ),
                SourceArgument::Object { members: Err(Some(error)), .. } => made is Err
                    && made->Err_0 == error,
                SourceArgument::Object { members: Err(None), .. } => made is Err && made->Err_0
                    == Value::TypeError(Message::InvalidSource),
                _ => {
                    let (_, members) = source_members(source)->0;
                    let sized = strategy is Some && strategy->0.size is Some;
                    let size = members.auto_allocate_chunk_size;
                    let error = if !callable(members.cancel) {
                        Some(Value::TypeError(Message::SourceCancelNotFunction))
                    } else if !callable(members.pull) {
                        Some(Value::TypeError(Message::SourcePullNotFunction))
                    } else if !callable(members.start) {
                        Some(Value::TypeError(Message::SourceStartNotFunction))
                    } else if !measure_fits(strategy) {
                        Some(Value::TypeError(Message::SizeMustBeFunction))
                    } else if members.kind is Some && sized {
                        Some(Value::RangeError(Message::ByteStreamWithSize))
                    } else if !mark_fits(strategy) {
                        Some(Value::RangeError(Message::HighWaterMarkNegative))
                    } else if members.kind is Some && size is Some && !size->0.in_range() {
                        Some(Value::TypeError(Message::AutoAllocateOutOfRange))
                    } else if members.kind is Some && size is Some && size->0.whole() == 0 {
                        Some(Value::TypeError(Message::AutoAllocateZero))
                    } else {
                        None
                    };
                    error matches Some(error) ==> made is Err && made->Err_0 == error
                },
            }
        }),
{
}

/// A stream of one chunk has that chunk to read, and then ends; a stream of none has ended.
pub proof fn law_stream_of_chunk(id: u64, chunk: Value)
    ensures
        stream_of_chunk(id, None).slots.state is Closed,
        stream_of_chunk(id, None).slots.reader is Unlocked,
        stream_of_chunk(id, None).controller is Default,
        stream_of_chunk(id, None).controller->Default_0.queue.len() == 0,
        freshly_readable(stream_of_chunk(id, Some(chunk)).slots, id),
        stream_of_chunk(id, Some(chunk)).controller is Default,
        stream_of_chunk(id, Some(chunk)).controller->Default_0.close_requested,
        stream_of_chunk(id, Some(chunk)).controller->Default_0.queue.len() == 1,
        stream_of_chunk(id, Some(chunk)).controller->Default_0.queue[0].value == chunk,
{
}

/// A stream over an iterator asks it for a value only when one is read.
pub proof fn law_stream_of_iterator(id: u64, iterator: u64)
    ensures
        ({
            let stream = stream_of_iterator(id, iterator);
            &&& freshly_readable(stream.slots, id)
            &&& stream.controller matches ControllerModel::Default(controller) && {
                &&& controller.pull_algorithm == Algorithm::FromPull(iterator)
                &&& controller.cancel_algorithm == Algorithm::FromCancel(iterator)
                &&& controller.hwm == (Number { bits: 0 })
                &&& controller.queue.len() == 0
                &&& controller.size_algorithm is Undefined
            }
        }),
{
}

/// A new iterator cancels its stream when it is given up, unless it was told not to.
pub proof fn law_iterator_made(
    id: u64,
    options: Option<ReadableStreamIteratorOptions>,
    value: Value,
)
    ensures
        new_iterator(id, options).id == id,
        !new_iterator(id, options).is_finished,
        new_iterator(id, options).ongoing_promise is None,
        options is None ==> !new_iterator(id, options).prevent_cancel,
        options matches Some(options) ==> new_iterator(id, Some(options)).prevent_cancel
            == options.prevent_cancel,
        value is EndOfIteration ==> step_result(value) == Value::IterResult(
            Box::new(Value::Undefined),
            true,
        ),
        value !is EndOfIteration ==> step_result(value) == Value::IterResult(
            Box::new(value),
            false,
        ),
{
}

/// A call for the next value reads the stream once no other call is under way, and waits for
/// that call otherwise; of an iteration that has ended it is told so. In each case it is the
/// last call, for which the following ones wait.
pub proof fn law_iterator_called(
    iterator: ReadableStreamAsyncIterator,
    w: ReadableWorld,
    promise: u64,
    read: u64,
)
    ensures
        ({
            let (next, after) = iterator.called(w, promise, read);
            let request = crate::readable::read_request::ReadRequest::AsyncIter {
                promise: read,
                stream: w.stream.slots.id,
            };
            &&& next == (ReadableStreamAsyncIterator {
                ongoing_promise: Some(PromiseRef::Request(promise)),
                ..iterator
            })
            &&& iterator.ongoing_promise matches Some(ongoing) ==> after == w.emit(
                Effect::NextAfter { ongoing, iterator: iterator.id, promise },
            )
            &&& iterator.ongoing_promise is None && iterator.is_finished ==> after == w.emit(
                Effect::Resolve(
                    PromiseRef::Request(promise),
                    Value::IterResult(Box::new(Value::Undefined), true),
                ),
            )
            &&& iterator.ongoing_promise is None && !iterator.is_finished ==> after == w.read(
                request,
            ).emit(
                Effect::OnSettled(
                    PromiseRef::Request(read),
                    Reaction::IteratorNext { iterator: iterator.id, promise },
                ),
            )
        }),
{
}

/// An iteration that is given up ends with the value that was given; the stream is canceled with
/// that value, or only let go of where the iterator was told not to cancel, and nothing is done
/// to it where the iteration had ended before.
pub proof fn law_iterator_given_up(
    iterator: ReadableStreamAsyncIterator,
    w: ReadableWorld,
    value: Value,
    promise: u64,
    returned: u64,
)
    ensures
        ({
            let after = iterator.return_steps(w, value, promise, returned);
            let result = Value::IterResult(Box::new(value), true);
            let outcome = PromiseRef::Request(returned);
            &&& iterator.is_finished ==> after == w.emit(
                Effect::Resolve(PromiseRef::Request(promise), result),
            )
            &&& !iterator.is_finished && iterator.prevent_cancel ==> after == w.release().emit(
                Effect::Resolve(outcome, Value::Undefined),
            ).emit(Effect::ResolveAfter(PromiseRef::Request(promise), outcome, result))
            &&& !iterator.is_finished && !iterator.prevent_cancel ==> after == w.cancel(
                value,
                outcome,
            ).emit(Effect::ReleaseReader { stream: w.stream.slots.id }).emit(
                Effect::ResolveAfter(PromiseRef::Request(promise), outcome, result),
            )
            &&& iterator.after_read(value).is_finished == (iterator.is_finished || value
                is EndOfIteration)
        }),
{
}

} // verus!
