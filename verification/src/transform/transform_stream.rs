//! Transform streams: pairs of streams, where what is written to the one is transformed and
//! comes out of the other.

use vstd::prelude::*;

use crate::algorithms::{
    extract_high_water_mark, extract_size_algorithm, high_water_mark_of, size_algorithm_of,
};
use crate::number::{Number, ONE};
use crate::queuing::{CallbackObject, QueuingStrategy};
use crate::readable::default_controller::EnqueueStep;
use crate::readable::readable_stream::{create_readable_stream, new_stream, ReadableStream};
use crate::readable::set_up::start_effect;
use crate::scope::{Algorithm, Call, Effect, PromiseRef, Scope, ScopeModel};
use crate::support::{
    callback_member, ensure_callback_members_callable, first_bad_member, member_ok,
};
use crate::transform::transform_stream_default_controller::TransformStreamDefaultController;
use crate::transform::transformer::{empty_transformer, Transformer, TransformerArgument};
use crate::transform::world::{TransformModel, TransformWorld};
use crate::value::{Message, Value};
use crate::writable::world::WritableModel;
use crate::writable::writable_stream::{
    create_writable_stream, new_writable, sink_start_effect, SinkAlgorithms, WritableStream,
};

verus! {

/// A transform stream.
pub struct TransformStream {
    /// The name of the stream in effects.
    pub id: u64,
    /// Whether the readable side pushed back when that was last looked at.
    pub backpressure: bool,
    /// Whether there is a promise for the next change of the backpressure.
    pub has_change_promise: bool,
    pub controller: TransformStreamDefaultController,
    /// Whether the stream has been transferred elsewhere.
    pub detached: bool,
    pub readable: ReadableStream,
    pub writable: WritableStream,
}

impl View for TransformStream {
    type V = TransformModel;

    open spec fn view(&self) -> TransformModel {
        TransformModel {
            id: self.id,
            backpressure: self.backpressure,
            has_change_promise: self.has_change_promise,
            controller: self.controller,
            detached: self.detached,
            readable: self.readable@,
            writable: self.writable@,
        }
    }
}

/// A stream and a scope, to state what an operation does to them.
pub open spec fn transform_world(stream: TransformStream, scope: Scope) -> TransformWorld {
    TransformWorld { stream: stream@, scope: scope@ }
}

/// The algorithms of the writable side of a transform stream.
pub open spec fn sink_side(id: u64) -> SinkAlgorithms {
    SinkAlgorithms {
        start: Algorithm::TransformStart(id),
        write: Algorithm::SinkWrite(id),
        close: Algorithm::SinkClose(id),
        abort: Algorithm::SinkAbort(id),
    }
}

/// The names of a transform stream and of its two sides.
#[derive(Clone, Copy, Debug, PartialEq, Eq, Structural)]
pub struct TransformIds {
    pub transform: u64,
    pub readable: u64,
    pub writable: u64,
}

/// The high-water marks and the size algorithms of the two sides of a transform stream.
#[derive(Clone, Copy, Debug, PartialEq, Eq, Structural)]
pub struct SideStrategies {
    pub readable_mark: Number,
    pub readable_size: Algorithm,
    pub writable_mark: Number,
    pub writable_size: Algorithm,
}

/// A new transform stream, which pushes back until something is read from it.
pub open spec fn new_transform(
    ids: TransformIds,
    strategies: SideStrategies,
    controller: TransformStreamDefaultController,
) -> TransformModel {
    TransformModel {
        id: ids.transform,
        backpressure: true,
        has_change_promise: true,
        controller,
        detached: false,
        readable: new_stream(
            ids.readable,
            Algorithm::SourcePull(ids.transform),
            Algorithm::SourceCancel(ids.transform),
            Value::Undefined,
            strategies.readable_mark,
            strategies.readable_size,
        ),
        writable: new_writable(
            ids.writable,
            sink_side(ids.transform),
            Value::Undefined,
            strategies.writable_mark,
            strategies.writable_size,
        ),
    }
}

/// What the setting up of a transform stream asks for, but for its start.
pub open spec fn set_up_effects(ids: TransformIds, scope: ScopeModel) -> ScopeModel {
    let start = Algorithm::TransformStart(ids.transform);
    scope.emit(Effect::NewPromise(PromiseRef::TransformStart(ids.transform))).emit(
        sink_start_effect(ids.writable, start, Value::Undefined),
    ).emit(start_effect(ids.readable, start, Value::Undefined)).emit(
        Effect::NewPromise(PromiseRef::BackpressureChange(ids.transform)),
    )
}

/// The `this` of the algorithms of a transformer and its members, or what is wrong with it.
pub open spec fn transformer_of(transformer: TransformerArgument) -> Result<
    (Value, Transformer),
    Value,
> {
    match transformer {
        TransformerArgument::Missing => Ok((Value::Undefined, empty_transformer())),
        TransformerArgument::NotObject => Err(Value::TypeError(Message::TransformerNotObject)),
        TransformerArgument::Object { handle, members } => match members {
            Ok(members) => Ok((Value::Handle(handle), members)),
            Err(Some(error)) => Err(error),
            Err(None) => Err(Value::TypeError(Message::InvalidTransformer)),
        },
    }
}

/// What is wrong with the members of a transformer, in the order in which they are looked
/// at.
pub open spec fn transformer_error(transformer: Transformer) -> Option<Value> {
    if !member_ok(transformer.cancel) {
        Some(Value::TypeError(Message::TransformerCancelNotFunction))
    } else if !member_ok(transformer.flush) {
        Some(Value::TypeError(Message::TransformerFlushNotFunction))
    } else if !member_ok(transformer.start) {
        Some(Value::TypeError(Message::TransformerStartNotFunction))
    } else if !member_ok(transformer.transform) {
        Some(Value::TypeError(Message::TransformerTransformNotFunction))
    } else if transformer.has_readable_type {
        Some(Value::RangeError(Message::InvalidReadableType))
    } else if transformer.has_writable_type {
        Some(Value::RangeError(Message::InvalidWritableType))
    } else {
        None
    }
}

/// What the strategies of a transform stream ask for. By default the readable side has no
/// room ahead of its reads, and the writable side room for one chunk.
pub open spec fn sides_of(
    writable_strategy: Option<QueuingStrategy>,
    readable_strategy: Option<QueuingStrategy>,
) -> Result<SideStrategies, Value> {
    match high_water_mark_of(readable_strategy, Number { bits: 0 }) {
        Err(error) => Err(error),
        Ok(readable_mark) => match size_algorithm_of(readable_strategy) {
            Err(error) => Err(error),
            Ok(readable_size) => match high_water_mark_of(
                writable_strategy,
                Number { bits: ONE },
            ) {
                Err(error) => Err(error),
                Ok(writable_mark) => match size_algorithm_of(writable_strategy) {
                    Err(error) => Err(error),
                    Ok(writable_size) => Ok(
                        SideStrategies {
                            readable_mark,
                            readable_size,
                            writable_mark,
                            writable_size,
                        },
                    ),
                },
            },
        },
    }
}

/// The algorithm that a member of a transformer stands for, once it is known to be callable.
pub open spec fn callback_of(member: Option<CallbackObject>, otherwise: Algorithm) -> Algorithm {
    match member {
        Some(object) => Algorithm::Callback(object.handle),
        None => otherwise,
    }
}

/// The controller that a transformer makes. Without a `transform` of its own, chunks are
/// handed on unchanged.
pub open spec fn controller_of(
    id: u64,
    receiver: Value,
    transformer: Transformer,
) -> TransformStreamDefaultController {
    TransformStreamDefaultController {
        cancel_algorithm: callback_of(transformer.cancel, Algorithm::Undefined),
        finish_promise: false,
        flush_algorithm: callback_of(transformer.flush, Algorithm::Undefined),
        algorithm_receiver: receiver,
        transform_algorithm: callback_of(transformer.transform, Algorithm::Identity(id)),
    }
}

/// Whether a strategy calls the author for the size of a chunk.
pub open spec fn has_size(strategy: Option<QueuingStrategy>) -> bool {
    strategy matches Some(strategy) && strategy.size is Some
}

/// Whether no code of the author runs for a chunk.
pub open spec fn is_identity(
    transformer: Transformer,
    writable_strategy: Option<QueuingStrategy>,
    readable_strategy: Option<QueuingStrategy>,
) -> bool {
    &&& !has_size(readable_strategy)
    &&& !has_size(writable_strategy)
    &&& transformer.transform is None
    &&& transformer.start is None
    &&& transformer.flush is None
    &&& transformer.cancel is None
}

/// The start of a transform stream.
pub open spec fn transform_start(id: u64, receiver: Value, start: Option<CallbackObject>)
    -> Effect {
    match start {
        Some(object) => Effect::Invoke {
            call: Call::TransformStart { transform: id },
            algorithm: Algorithm::Callback(object.handle),
            receiver,
        },
        None => Effect::Resolve(PromiseRef::TransformStart(id), Value::Undefined),
    }
}

/// The stream that a transformer and its strategies make, with the start that is asked for;
/// or the error that is thrown instead.
pub open spec fn constructed_transform(
    ids: TransformIds,
    transformer: TransformerArgument,
    writable_strategy: Option<QueuingStrategy>,
    readable_strategy: Option<QueuingStrategy>,
) -> Result<(TransformModel, Effect), Value> {
    match transformer_of(transformer) {
        Err(error) => Err(error),
        Ok((receiver, members)) => match transformer_error(members) {
            Some(error) => Err(error),
            None => match sides_of(writable_strategy, readable_strategy) {
                Err(error) => Err(error),
                Ok(sides) => {
                    let made = new_transform(
                        ids,
                        sides,
                        controller_of(ids.transform, receiver, members),
                    );
                    let identity_transform = if is_identity(
                        members,
                        writable_strategy,
                        readable_strategy,
                    ) {
                        Some(ids.transform)
                    } else {
                        None
                    };
                    Ok(
                        (
                            TransformModel {
                                writable: WritableModel { identity_transform, ..made.writable },
                                ..made
                            },
                            transform_start(ids.transform, receiver, members.start),
                        ),
                    )
                },
            },
        },
    }
}

/// Takes what the strategies of a transform stream ask for.
fn extract_sides(
    writable_strategy: &Option<QueuingStrategy>,
    readable_strategy: &Option<QueuingStrategy>,
) -> (sides: Result<SideStrategies, Value>)
    ensures
        sides == sides_of(*writable_strategy, *readable_strategy),
{
    let readable_mark: Number = match extract_high_water_mark(
        readable_strategy,
        Number { bits: 0 },
    ) {
        Ok(mark) => mark,
        Err(error) => {
            return Err(error);
        },
    };
    let readable_size: Algorithm = match extract_size_algorithm(readable_strategy) {
        Ok(size) => size,
        Err(error) => {
            return Err(error);
        },
    };
    let writable_mark: Number = match extract_high_water_mark(
        writable_strategy,
        Number { bits: ONE },
    ) {
        Ok(mark) => mark,
        Err(error) => {
            return Err(error);
        },
    };
    let writable_size: Algorithm = match extract_size_algorithm(writable_strategy) {
        Ok(size) => size,
        Err(error) => {
            return Err(error);
        },
    };
    Ok(SideStrategies { readable_mark, readable_size, writable_mark, writable_size })
}

/// Takes the controller from a transformer.
pub fn set_up_transform_stream_default_controller_from_transformer(
    id: u64,
    receiver: Value,
    transformer: &Transformer,
) -> (result: Result<TransformStreamDefaultController, Value>)
    ensures
        match result {
            Ok(controller) => {
                &&& member_ok(transformer.transform)
                &&& member_ok(transformer.flush)
                &&& member_ok(transformer.cancel)
                &&& controller == controller_of(id, receiver, *transformer)
            },
            Err(error) => error == Value::TypeError(
                if !member_ok(transformer.transform) {
                    Message::TransformerTransformNotFunction
                } else if !member_ok(transformer.flush) {
                    Message::TransformerFlushNotFunction
                } else {
                    Message::TransformerCancelNotFunction
                },
            ),
        },
        result is Err <==> !member_ok(transformer.transform) || !member_ok(transformer.flush)
            || !member_ok(transformer.cancel),
{
    let transform_algorithm: Algorithm = match transformer.transform {
        Some(transform) => if transform.callable {
            Algorithm::Callback(transform.handle)
        } else {
            return Err(Value::TypeError(Message::TransformerTransformNotFunction));
        },
        None => Algorithm::Identity(id),
    };
    let flush_algorithm: Algorithm = match callback_member(
        transformer.flush,
        Message::TransformerFlushNotFunction,
    ) {
        Ok(algorithm) => algorithm,
        Err(error) => {
            return Err(error);
        },
    };
    let cancel_algorithm: Algorithm = match callback_member(
        transformer.cancel,
        Message::TransformerCancelNotFunction,
    ) {
        Ok(algorithm) => algorithm,
        Err(error) => {
            return Err(error);
        },
    };
    Ok(
        TransformStreamDefaultController {
            cancel_algorithm,
            finish_promise: false,
            flush_algorithm,
            algorithm_receiver: receiver,
            transform_algorithm,
        },
    )
}

/// Makes the two sides of a transform stream, which both wait for the promise of its start.
pub fn initialize_transform_stream(
    scope: &mut Scope,
    ids: TransformIds,
    strategies: SideStrategies,
    controller: TransformStreamDefaultController,
) -> (stream: TransformStream)
    ensures
        stream@ == new_transform(ids, strategies, controller),
        final(scope)@ == set_up_effects(ids, old(scope)@),
        stream@.writable.wf(),
        stream@.readable.controller is Default,
{
    let start: Algorithm = Algorithm::TransformStart(ids.transform);
    scope.emit(Effect::NewPromise(PromiseRef::TransformStart(ids.transform)));
    let writable: WritableStream = create_writable_stream(
        scope,
        ids.writable,
        SinkAlgorithms {
            start,
            write: Algorithm::SinkWrite(ids.transform),
            close: Algorithm::SinkClose(ids.transform),
            abort: Algorithm::SinkAbort(ids.transform),
        },
        strategies.writable_mark,
        strategies.writable_size,
    );
    let readable: ReadableStream = create_readable_stream(
        scope,
        ids.readable,
        start,
        Algorithm::SourcePull(ids.transform),
        Algorithm::SourceCancel(ids.transform),
        strategies.readable_mark,
        strategies.readable_size,
    );
    let mut stream: TransformStream = TransformStream {
        id: ids.transform,
        backpressure: false,
        has_change_promise: false,
        controller,
        detached: false,
        readable,
        writable,
    };
    stream.transform_stream_set_backpressure(scope, true);
    stream
}

/// Whether a strategy calls the author for the size of a chunk.
fn strategy_has_size(strategy: &Option<QueuingStrategy>) -> (has: bool)
    ensures
        has == has_size(*strategy),
{
    match strategy {
        Some(strategy) => strategy.size.is_some(),
        None => false,
    }
}

impl TransformStream {
    /// Makes a stream from a transformer and the strategies of its two sides.
    pub fn new(
        scope: &mut Scope,
        ids: TransformIds,
        transformer: TransformerArgument,
        writable_strategy: Option<QueuingStrategy>,
        readable_strategy: Option<QueuingStrategy>,
    ) -> (result: Result<TransformStream, Value>)
        ensures
            match constructed_transform(ids, transformer, writable_strategy, readable_strategy) {
                Err(error) => {
                    &&& result == Err::<TransformStream, Value>(error)
                    &&& final(scope)@ == old(scope)@
                },
                Ok((stream, effect)) => {
                    &&& result matches Ok(made) && made@ == stream && transform_world(
                        made,
                        *final(scope),
                    ).wf()
                    &&& final(scope)@ == set_up_effects(ids, old(scope)@).emit(effect)
                },
            },
    {
        let (receiver, members): (Value, Transformer) = match transformer {
            TransformerArgument::Missing => (
                Value::Undefined,
                Transformer {
                    start: None,
                    transform: None,
                    flush: None,
                    cancel: None,
                    has_readable_type: false,
                    has_writable_type: false,
                },
            ),
            TransformerArgument::NotObject => {
                return Err(Value::TypeError(Message::TransformerNotObject));
            },
            TransformerArgument::Object { handle, members } => match members {
                Ok(members) => (Value::Handle(handle), members),
                Err(Some(error)) => {
                    return Err(error);
                },
                Err(None) => {
                    return Err(Value::TypeError(Message::InvalidTransformer));
                },
            },
        };
        let callbacks: Vec<(Option<CallbackObject>, Message)> = vec![
            (members.cancel, Message::TransformerCancelNotFunction),
            (members.flush, Message::TransformerFlushNotFunction),
            (members.start, Message::TransformerStartNotFunction),
            (members.transform, Message::TransformerTransformNotFunction),
        ];
        proof {
            reveal_with_fuel(first_bad_member, 5);
        }
        match ensure_callback_members_callable(&callbacks) {
            Ok(()) => {},
            Err(error) => {
                return Err(error);
            },
        }
        if members.has_readable_type {
            return Err(Value::RangeError(Message::InvalidReadableType));
        }
        if members.has_writable_type {
            return Err(Value::RangeError(Message::InvalidWritableType));
        }
        let strategies: SideStrategies = match extract_sides(
            &writable_strategy,
            &readable_strategy,
        ) {
            Ok(strategies) => strategies,
            Err(error) => {
                return Err(error);
            },
        };
        let controller: TransformStreamDefaultController =
            match set_up_transform_stream_default_controller_from_transformer(
            ids.transform,
            receiver.clone(),
            &members,
        ) {
            Ok(controller) => controller,
            Err(error) => {
                return Err(error);
            },
        };
        let mut stream: TransformStream = initialize_transform_stream(
            scope,
            ids,
            strategies,
            controller,
        );
        match members.start {
            Some(start) => {
                scope.emit(
                    Effect::Invoke {
                        call: Call::TransformStart { transform: ids.transform },
                        algorithm: Algorithm::Callback(start.handle),
                        receiver,
                    },
                );
            },
            None => {
                scope.emit(
                    Effect::Resolve(PromiseRef::TransformStart(ids.transform), Value::Undefined),
                );
            },
        }
        if !strategy_has_size(&readable_strategy) && !strategy_has_size(&writable_strategy)
            && members.transform.is_none() && members.start.is_none() && members.flush.is_none()
            && members.cancel.is_none() {
            stream.writable.identity_transform = Some(ids.transform);
        }
        Ok(stream)
    }

    /// The readable side.
    pub fn readable(&self) -> (readable: &ReadableStream)
        ensures
            *readable == self.readable,
    {
        &self.readable
    }

    /// The writable side.
    pub fn writable(&self) -> (writable: &WritableStream)
        ensures
            *writable == self.writable,
    {
        &self.writable
    }

    /// Enqueues a chunk on the readable side. Where its strategy has a size function, that
    /// is to be called next.
    pub fn enqueue(&mut self, scope: &mut Scope, chunk: &Value) -> (result: Result<
        EnqueueStep,
        Value,
    >)
        requires
            old(self)@.readable.controller is Default,
        ensures
            (transform_world(*final(self), *final(scope)), result) == transform_world(
                *old(self),
                *old(scope),
            ).enqueue(*chunk),
            transform_world(*old(self), *old(scope)).wf() ==> transform_world(
                *final(self),
                *final(scope),
            ).wf(),
    {
        self.transform_stream_default_controller_enqueue(scope, chunk)
    }
}

} // verus!
