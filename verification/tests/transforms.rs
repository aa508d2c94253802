use web_streams::number::Number;
use web_streams::queuing::{CallbackObject, QueuingStrategy};
use web_streams::readable::default_controller::EnqueueStep;
use web_streams::readable::default_reader::DefaultReader;
use web_streams::readable::readable_stream::ReadableStreamState;
use web_streams::scope::{Algorithm, Call, Effect, PromiseRef, Scope};
use web_streams::transform::transform_stream::{TransformIds, TransformStream};
use web_streams::transform::transform_stream_default_controller::TransformStreamDefaultController;
use web_streams::transform::transformer::{Transformer, TransformerArgument};
use web_streams::value::{Message, Value};
use web_streams::writable::default_writer::WritableStreamDefaultWriter;
use web_streams::writable::writable_stream::WritableStreamState;

fn number(value: f64) -> Number {
    Number { bits: value.to_bits() }
}

const IDS: TransformIds = TransformIds { transform: 1, readable: 2, writable: 3 };

fn callback(handle: u64) -> Option<CallbackObject> {
    Some(CallbackObject { handle, callable: true })
}

fn not_callable() -> Option<CallbackObject> {
    Some(CallbackObject { handle: 99, callable: false })
}

fn transformer() -> Transformer {
    Transformer {
        start: callback(11),
        transform: callback(12),
        flush: callback(13),
        cancel: callback(14),
        has_readable_type: false,
        has_writable_type: false,
    }
}

fn object(members: Transformer) -> TransformerArgument {
    TransformerArgument::Object { handle: 50, members: Ok(members) }
}

fn strategy(mark: Number, size: Option<CallbackObject>) -> Option<QueuingStrategy> {
    Some(QueuingStrategy { high_water_mark: Some(mark), size })
}

fn take(scope: &mut Scope) -> Vec<Effect> {
    std::mem::take(&mut scope.effects)
}

fn made(argument: TransformerArgument, readable: Option<QueuingStrategy>) -> (Scope, TransformStream) {
    let mut scope = Scope::new(1 << 20);
    let stream = TransformStream::new(&mut scope, IDS, argument, None, readable);
    (scope, stream.unwrap_or_else(|_| panic!("the transformer is in order")))
}

fn started(mark: u64) -> (Scope, TransformStream) {
    let (mut scope, mut stream) =
        made(object(transformer()), strategy(number(mark as f64), None));
    stream.writable.ws_start_promise_fulfilled(&mut scope);
    stream.readable.start_promise_fulfilled(&mut scope);
    assert!(stream.writable.get_writer(&mut scope).is_ok());
    assert!(DefaultReader::new(&mut scope, &mut stream.readable).is_ok());
    scope.effects.clear();
    (scope, stream)
}

fn refusal(
    argument: TransformerArgument,
    writable: Option<QueuingStrategy>,
    readable: Option<QueuingStrategy>,
) -> Value {
    let mut scope = Scope::new(1 << 20);
    match TransformStream::new(&mut scope, IDS, argument, writable, readable) {
        Ok(_) => panic!("a refusal was expected"),
        Err(error) => {
            assert!(scope.effects.is_empty());
            error
        }
    }
}

fn type_error(message: Message) -> Value {
    Value::TypeError(message)
}

fn change() -> PromiseRef {
    PromiseRef::BackpressureChange(1)
}

fn finish() -> PromiseRef {
    PromiseRef::Finish(1)
}

#[test]
fn a_transform_stream_sets_up_its_sides() {
    let (mut scope, stream) = made(object(transformer()), None);
    let start = |call: Call| Effect::Invoke {
        call,
        algorithm: Algorithm::TransformStart(1),
        receiver: Value::Undefined,
    };
    assert_eq!(
        take(&mut scope),
        vec![
            Effect::NewPromise(PromiseRef::TransformStart(1)),
            start(Call::WritableStart { stream: 3 }),
            start(Call::ReadableStart { stream: 2 }),
            Effect::NewPromise(change()),
            Effect::Invoke {
                call: Call::TransformStart { transform: 1 },
                algorithm: Algorithm::Callback(11),
                receiver: Value::Handle(50),
            },
        ]
    );
    assert!(stream.backpressure);
    assert_eq!(
        TransformStreamDefaultController::desired_size(&stream),
        Some(number(0.0))
    );
    assert_eq!(stream.readable().slots.id, 2);
    assert_eq!(stream.writable().id, 3);
    assert_eq!(stream.writable().identity_transform, None);
}

#[test]
fn a_transform_without_a_transformer_hands_chunks_on() {
    let (mut scope, stream) = made(TransformerArgument::Missing, None);
    assert_eq!(
        take(&mut scope).last(),
        Some(&Effect::Resolve(PromiseRef::TransformStart(1), Value::Undefined))
    );
    assert_eq!(stream.writable().identity_transform, Some(1));
    assert_eq!(stream.controller.transform_algorithm, Algorithm::Identity(1));
    let (_, sized) = made(
        TransformerArgument::Missing,
        strategy(number(1.0), callback(5)),
    );
    assert_eq!(sized.writable().identity_transform, None);
}

#[test]
fn a_transformer_has_to_be_in_order() {
    assert_eq!(
        refusal(TransformerArgument::NotObject, None, None),
        type_error(Message::TransformerNotObject)
    );
    assert_eq!(
        refusal(TransformerArgument::Object { handle: 1, members: Err(None) }, None, None),
        type_error(Message::InvalidTransformer)
    );
    let thrown = TransformerArgument::Object { handle: 1, members: Err(Some(Value::Handle(8))) };
    assert_eq!(refusal(thrown, None, None), Value::Handle(8));
    let mut members = transformer();
    members.has_writable_type = true;
    assert_eq!(
        refusal(object(members), None, None),
        Value::RangeError(Message::InvalidWritableType)
    );
    members.has_readable_type = true;
    assert_eq!(
        refusal(object(members), None, None),
        Value::RangeError(Message::InvalidReadableType)
    );
    members.transform = not_callable();
    assert_eq!(
        refusal(object(members), None, None),
        type_error(Message::TransformerTransformNotFunction)
    );
    members.start = not_callable();
    assert_eq!(
        refusal(object(members), None, None),
        type_error(Message::TransformerStartNotFunction)
    );
    members.flush = not_callable();
    assert_eq!(
        refusal(object(members), None, None),
        type_error(Message::TransformerFlushNotFunction)
    );
    members.cancel = not_callable();
    assert_eq!(
        refusal(object(members), None, None),
        type_error(Message::TransformerCancelNotFunction)
    );
}

#[test]
fn the_strategies_are_read_in_order() {
    let wrong_mark = strategy(number(-1.0), None);
    let wrong_size = strategy(number(1.0), not_callable());
    assert_eq!(
        refusal(object(transformer()), wrong_size, wrong_mark),
        Value::RangeError(Message::HighWaterMarkNegative)
    );
    assert_eq!(
        refusal(object(transformer()), wrong_mark, wrong_size),
        type_error(Message::SizeMustBeFunction)
    );
    assert_eq!(
        refusal(object(transformer()), wrong_mark, None),
        Value::RangeError(Message::HighWaterMarkNegative)
    );
    assert_eq!(
        refusal(object(transformer()), wrong_size, None),
        type_error(Message::SizeMustBeFunction)
    );
}

#[test]
fn a_write_waits_until_something_is_read() {
    let (mut scope, mut stream) = started(0);
    WritableStreamDefaultWriter::write(
        &mut scope,
        &mut stream.writable,
        true,
        Some(Value::Handle(10)),
        1,
    );
    assert!(take(&mut scope).iter().any(|effect| matches!(
        effect,
        Effect::Invoke {
            call: Call::WritableWrite { stream: 3, .. },
            algorithm: Algorithm::SinkWrite(1),
            ..
        }
    )));
    let outcome =
        stream.transform_stream_default_sink_write_algorithm(&mut scope, Value::Handle(10), 2);
    assert_eq!(outcome, PromiseRef::Request(2));
    assert_eq!(
        take(&mut scope),
        vec![Effect::WriteAfter {
            change: change(),
            transform: 1,
            chunk: Value::Handle(10),
            promise: 2,
        }]
    );
    DefaultReader::read(&mut scope, &mut stream.readable, true, 3);
    assert_eq!(
        take(&mut scope),
        vec![Effect::Invoke {
            call: Call::ReadablePull { stream: 2 },
            algorithm: Algorithm::SourcePull(1),
            receiver: Value::Undefined,
        }]
    );
    let outcome = stream.transform_stream_default_source_pull_algorithm(&mut scope);
    assert_eq!(outcome, change());
    assert!(!stream.backpressure);
    assert_eq!(
        take(&mut scope),
        vec![Effect::Resolve(change(), Value::Undefined), Effect::NewPromise(change())]
    );
    stream.ts_sink_write_after_backpressure(&mut scope, Value::Handle(10), 2);
    assert_eq!(
        take(&mut scope),
        vec![Effect::Invoke {
            call: Call::Transform { transform: 1, chunk: Value::Handle(10), outcome: 2 },
            algorithm: Algorithm::Callback(12),
            receiver: Value::Handle(50),
        }]
    );
    assert_eq!(
        TransformStreamDefaultController::enqueue(
            &mut scope,
            &mut stream,
            Some(Value::Handle(20))
        ),
        Ok(EnqueueStep::Done)
    );
    assert!(stream.backpressure);
    assert_eq!(
        take(&mut scope),
        vec![
            Effect::Resolve(
                PromiseRef::Request(3),
                Value::IterResult(Box::new(Value::Handle(20)), false)
            ),
            Effect::Resolve(change(), Value::Undefined),
            Effect::NewPromise(change()),
        ]
    );
}

#[test]
fn a_write_without_backpressure_is_transformed_at_once() {
    let (mut scope, mut stream) = started(2);
    stream.transform_stream_default_source_pull_algorithm(&mut scope);
    take(&mut scope);
    stream.transform_stream_default_sink_write_algorithm(&mut scope, Value::Handle(10), 2);
    assert!(matches!(
        take(&mut scope).last(),
        Some(Effect::Invoke { call: Call::Transform { .. }, .. })
    ));
    assert_eq!(stream.enqueue(&mut scope, &Value::Handle(20)), Ok(EnqueueStep::Done));
    assert!(!stream.backpressure);
    assert_eq!(stream.enqueue(&mut scope, &Value::Handle(21)), Ok(EnqueueStep::Done));
    assert!(stream.backpressure);
}

#[test]
fn a_chunk_that_cannot_be_transformed_fails_both_sides() {
    let (mut scope, mut stream) = started(0);
    stream.ts_perform_transform_rejected(&mut scope, Value::Handle(6), 2);
    assert_eq!(stream.readable.slots.stored_error, Value::Handle(6));
    assert_eq!(stream.writable.state, WritableStreamState::Errored);
    assert_eq!(stream.writable.stored_error, Value::Handle(6));
    assert!(!stream.backpressure);
    assert_eq!(stream.controller.transform_algorithm, Algorithm::Undefined);
    assert_eq!(
        scope.effects.last(),
        Some(&Effect::Reject(PromiseRef::Request(2), Value::Handle(6)))
    );
    assert_eq!(
        stream.enqueue(&mut scope, &Value::Handle(20)),
        Err(type_error(Message::TransformEnqueueNotPermitted))
    );
}

#[test]
fn a_write_that_waits_sees_the_failure() {
    let (mut scope, mut stream) = started(0);
    WritableStreamDefaultWriter::write(
        &mut scope,
        &mut stream.writable,
        true,
        Some(Value::Handle(10)),
        1,
    );
    TransformStreamDefaultController::error(&mut scope, &mut stream, Some(Value::Handle(6)));
    assert_eq!(stream.writable.state, WritableStreamState::Erroring);
    take(&mut scope);
    stream.ts_sink_write_after_backpressure(&mut scope, Value::Handle(10), 2);
    assert_eq!(
        take(&mut scope),
        vec![Effect::Reject(PromiseRef::Request(2), Value::Handle(6))]
    );
}

#[test]
fn a_terminated_stream_gives_what_waits_in_it() {
    let (mut scope, mut stream) = started(2);
    stream.enqueue(&mut scope, &Value::Handle(20)).unwrap();
    TransformStreamDefaultController::terminate(&mut scope, &mut stream);
    let error = type_error(Message::TransformTerminated);
    assert_eq!(stream.writable.stored_error, error);
    assert_eq!(stream.readable.slots.state, ReadableStreamState::Readable);
    take(&mut scope);
    DefaultReader::read(&mut scope, &mut stream.readable, true, 3);
    assert_eq!(
        take(&mut scope).last(),
        Some(&Effect::Resolve(
            PromiseRef::Request(3),
            Value::IterResult(Box::new(Value::Handle(20)), false)
        ))
    );
    assert_eq!(stream.readable.slots.state, ReadableStreamState::Closed);
}

#[test]
fn a_close_flushes_the_transformer() {
    let (mut scope, mut stream) = started(0);
    assert_eq!(stream.transform_stream_default_sink_close_algorithm(&mut scope), finish());
    assert_eq!(
        take(&mut scope),
        vec![
            Effect::NewPromise(finish()),
            Effect::Invoke {
                call: Call::TransformFlush { transform: 1 },
                algorithm: Algorithm::Callback(13),
                receiver: Value::Handle(50),
            },
            Effect::ClearTransform { transform: 1 },
        ]
    );
    stream.transform_stream_default_controller_clear_algorithms();
    assert_eq!(
        stream.transform_stream_default_sink_abort_algorithm(&mut scope, Value::Handle(7)),
        finish()
    );
    assert!(take(&mut scope).is_empty());
    stream.ts_sink_close_fulfilled(&mut scope);
    assert_eq!(stream.readable.slots.state, ReadableStreamState::Closed);
    assert_eq!(
        take(&mut scope).last(),
        Some(&Effect::Resolve(finish(), Value::Undefined))
    );
}

#[test]
fn a_flush_may_fail() {
    let (mut scope, mut stream) = started(0);
    stream.transform_stream_default_sink_close_algorithm(&mut scope);
    stream.ts_sink_close_rejected(&mut scope, Value::Handle(6));
    assert_eq!(stream.readable.slots.stored_error, Value::Handle(6));
    assert_eq!(
        take(&mut scope).last(),
        Some(&Effect::Reject(finish(), Value::Handle(6)))
    );
    stream.ts_sink_close_fulfilled(&mut scope);
    assert_eq!(take(&mut scope), vec![Effect::Reject(finish(), Value::Handle(6))]);
}

#[test]
fn an_abort_cancels_the_transformer() {
    let (mut scope, mut stream) = started(0);
    stream.transform_stream_default_sink_abort_algorithm(&mut scope, Value::Handle(7));
    assert!(take(&mut scope).contains(&Effect::Invoke {
        call: Call::TransformAbort { transform: 1, reason: Value::Handle(7) },
        algorithm: Algorithm::Callback(14),
        receiver: Value::Handle(50),
    }));
    stream.ts_sink_abort_fulfilled(&mut scope, Value::Handle(7));
    assert_eq!(stream.readable.slots.stored_error, Value::Handle(7));
    assert_eq!(
        take(&mut scope).last(),
        Some(&Effect::Resolve(finish(), Value::Undefined))
    );
    let (mut scope, mut stream) = started(0);
    stream.transform_stream_default_sink_abort_algorithm(&mut scope, Value::Handle(7));
    stream.ts_sink_abort_rejected(&mut scope, Value::Handle(8));
    assert_eq!(stream.readable.slots.stored_error, Value::Handle(8));
    stream.ts_sink_abort_fulfilled(&mut scope, Value::Handle(7));
    assert_eq!(
        take(&mut scope).last(),
        Some(&Effect::Reject(finish(), Value::Handle(8)))
    );
}

#[test]
fn a_cancelation_fails_the_writable_side() {
    let (mut scope, mut stream) = started(0);
    DefaultReader::cancel(&mut scope, &mut stream.readable, true, Some(Value::Handle(7)), 4);
    take(&mut scope);
    stream.transform_stream_default_source_cancel_algorithm(&mut scope, Value::Handle(7));
    assert!(take(&mut scope).contains(&Effect::Invoke {
        call: Call::TransformCancel { transform: 1, reason: Value::Handle(7) },
        algorithm: Algorithm::Callback(14),
        receiver: Value::Handle(50),
    }));
    stream.ts_source_cancel_fulfilled(&mut scope, Value::Handle(7));
    assert_eq!(stream.writable.stored_error, Value::Handle(7));
    assert!(!stream.backpressure);
    assert_eq!(
        take(&mut scope).last(),
        Some(&Effect::Resolve(finish(), Value::Undefined))
    );
    stream.ts_source_cancel_fulfilled(&mut scope, Value::Handle(7));
    assert_eq!(take(&mut scope), vec![Effect::Reject(finish(), Value::Handle(7))]);
    let (mut scope, mut stream) = started(0);
    stream.ts_source_cancel_rejected(&mut scope, Value::Handle(8));
    assert_eq!(stream.writable.stored_error, Value::Handle(8));
    assert_eq!(
        take(&mut scope).last(),
        Some(&Effect::Reject(finish(), Value::Handle(8)))
    );
}

#[test]
fn the_size_of_an_enqueued_chunk_is_asked_for() {
    let (mut scope, mut stream) = made(
        object(transformer()),
        strategy(number(10.0), callback(5)),
    );
    take(&mut scope);
    assert_eq!(
        stream.enqueue(&mut scope, &Value::Handle(20)),
        Ok(EnqueueStep::NeedsSize(Algorithm::Callback(5)))
    );
    assert_eq!(
        stream.transform_stream_default_controller_enqueue_sized(
            &mut scope,
            Value::Handle(20),
            Ok(number(4.0))
        ),
        Ok(())
    );
    assert_eq!(
        TransformStreamDefaultController::desired_size(&stream),
        Some(number(6.0))
    );
    let error = Value::RangeError(Message::SizeOutOfRange);
    assert_eq!(
        stream.transform_stream_default_controller_enqueue_sized(
            &mut scope,
            Value::Handle(21),
            Ok(number(f64::INFINITY))
        ),
        Err(error.clone())
    );
    assert_eq!(stream.readable.slots.stored_error, error);
    assert_eq!(stream.writable.stored_error, error);
}
