use web_streams::number::Number;
use web_streams::queuing::{CallbackObject, QueuingStrategy};
use web_streams::readable::default_algorithms::{
    pull_promise_rejected, readable_stream_default_controller_enqueue_with_size,
    start_promise_rejected,
};
use web_streams::readable::default_controller::{EnqueueStep, ReadableStreamDefaultController};
use web_streams::readable::default_reader::DefaultReader;
use web_streams::readable::options::{
    ReadableStreamGetReaderOptions, ReadableStreamType, ReaderMode,
};
use web_streams::readable::readable_stream::{
    ReadableStream, ReadableStreamState, StreamController,
};
use web_streams::readable::slots::StreamSlots;
use web_streams::readable::underlying_source::{SourceArgument, UnderlyingSource};
use web_streams::scope::{Algorithm, Call, Effect, PromiseRef, Scope};
use web_streams::value::{Message, Value};

fn number(value: f64) -> Number {
    Number { bits: value.to_bits() }
}

const STREAM: u64 = 7;

fn scope() -> Scope {
    Scope::new(1 << 20)
}

fn callback(handle: u64) -> Option<CallbackObject> {
    Some(CallbackObject { handle, callable: true })
}

fn not_callable() -> Option<CallbackObject> {
    Some(CallbackObject { handle: 99, callable: false })
}

fn source() -> UnderlyingSource {
    UnderlyingSource {
        start: callback(1),
        pull: callback(2),
        cancel: callback(3),
        kind: None,
        auto_allocate_chunk_size: None,
    }
}

fn object(members: UnderlyingSource) -> SourceArgument {
    SourceArgument::Object { handle: 50, members: Ok(members) }
}

fn strategy(mark: Number, size: Option<CallbackObject>) -> Option<QueuingStrategy> {
    Some(QueuingStrategy { high_water_mark: Some(mark), size })
}

fn new_stream(scope: &mut Scope, mark: u64) -> ReadableStream {
    let made = ReadableStream::new(
        scope,
        STREAM,
        object(source()),
        strategy(number(mark as f64), None),
    );
    scope.effects.clear();
    made.unwrap_or_else(|_| panic!("the source is in order"))
}

fn parts(stream: &mut ReadableStream) -> (&mut StreamSlots, &mut ReadableStreamDefaultController) {
    match &mut stream.controller {
        StreamController::Default(controller) => (&mut stream.slots, controller),
        StreamController::Byte(_) => panic!("a stream of values"),
    }
}

fn enqueue(stream: &mut ReadableStream, scope: &mut Scope, chunk: u64) -> Result<EnqueueStep, Value> {
    let (slots, controller) = parts(stream);
    controller.enqueue(scope, slots, &Value::Handle(chunk))
}

fn close(stream: &mut ReadableStream, scope: &mut Scope) -> Result<(), Value> {
    let (slots, controller) = parts(stream);
    controller.close(scope, slots)
}

fn desired(stream: &mut ReadableStream) -> Option<Number> {
    let (slots, controller) = parts(stream);
    controller.desired_size(slots)
}

fn pull() -> Effect {
    Effect::Invoke {
        call: Call::ReadablePull { stream: STREAM },
        algorithm: Algorithm::Callback(2),
        receiver: Value::Handle(50),
    }
}

fn chunk_for(promise: u64, chunk: u64) -> Effect {
    Effect::Resolve(
        PromiseRef::Request(promise),
        Value::IterResult(Box::new(Value::Handle(chunk)), false),
    )
}

fn end_for(promise: u64) -> Effect {
    Effect::Resolve(
        PromiseRef::Request(promise),
        Value::IterResult(Box::new(Value::Undefined), true),
    )
}

fn type_error(message: Message) -> Value {
    Value::TypeError(message)
}

fn take(scope: &mut Scope) -> Vec<Effect> {
    std::mem::take(&mut scope.effects)
}

fn refusal(argument: SourceArgument, given: Option<QueuingStrategy>) -> Value {
    let mut scope = scope();
    match ReadableStream::new(&mut scope, STREAM, argument, given) {
        Ok(_) => panic!("a refusal was expected"),
        Err(error) => {
            assert!(scope.effects.is_empty());
            error
        }
    }
}

#[test]
fn a_new_stream_starts_its_source() {
    let mut scope = scope();
    let mut stream = match ReadableStream::new(&mut scope, STREAM, object(source()), None) {
        Ok(stream) => stream,
        Err(_) => panic!("the source is in order"),
    };
    assert_eq!(
        take(&mut scope),
        vec![Effect::Invoke {
            call: Call::ReadableStart { stream: STREAM },
            algorithm: Algorithm::Callback(1),
            receiver: Value::Handle(50),
        }]
    );
    assert!(!stream.is_locked());
    assert!(!stream.is_disturbed());
    assert_eq!(desired(&mut stream), Some(number(1.0)));
    stream.start_promise_fulfilled(&mut scope);
    assert_eq!(take(&mut scope), vec![pull()]);
}

#[test]
fn a_source_may_be_missing() {
    let mut scope = scope();
    let made = ReadableStream::new(&mut scope, STREAM, SourceArgument::Missing, None);
    assert!(made.is_ok());
    assert_eq!(
        take(&mut scope),
        vec![Effect::Invoke {
            call: Call::ReadableStart { stream: STREAM },
            algorithm: Algorithm::Undefined,
            receiver: Value::Undefined,
        }]
    );
}

#[test]
fn a_source_has_to_be_an_object() {
    assert_eq!(refusal(SourceArgument::NotObject, None), type_error(Message::SourceNotObject));
    assert_eq!(
        refusal(SourceArgument::Object { handle: 1, members: Err(None) }, None),
        type_error(Message::InvalidSource)
    );
    assert_eq!(
        refusal(
            SourceArgument::Object { handle: 1, members: Err(Some(Value::Handle(8))) },
            None
        ),
        Value::Handle(8)
    );
}

#[test]
fn the_members_of_a_source_have_to_be_functions() {
    let mut members = source();
    members.start = not_callable();
    assert_eq!(refusal(object(members), None), type_error(Message::SourceStartNotFunction));
    members.pull = not_callable();
    assert_eq!(refusal(object(members), None), type_error(Message::SourcePullNotFunction));
    members.cancel = not_callable();
    assert_eq!(refusal(object(members), None), type_error(Message::SourceCancelNotFunction));
}

#[test]
fn a_strategy_has_to_make_sense() {
    assert_eq!(
        refusal(object(source()), strategy(number(-1.0), None)),
        Value::RangeError(Message::HighWaterMarkNegative)
    );
    assert_eq!(
        refusal(object(source()), strategy(number(f64::NAN), None)),
        Value::RangeError(Message::HighWaterMarkNegative)
    );
    assert_eq!(
        refusal(object(source()), strategy(number(f64::NAN), not_callable())),
        type_error(Message::SizeMustBeFunction)
    );
    let mut bytes = source();
    bytes.kind = Some(ReadableStreamType::Bytes);
    assert_eq!(
        refusal(object(bytes), strategy(number(1.0), callback(4))),
        Value::RangeError(Message::ByteStreamWithSize)
    );
    assert_eq!(
        refusal(object(bytes), strategy(number(1.0), not_callable())),
        type_error(Message::SizeMustBeFunction)
    );
}

#[test]
fn chunks_are_read_in_the_order_in_which_they_came() {
    let mut scope = scope();
    let mut stream = new_stream(&mut scope, 3);
    assert_eq!(enqueue(&mut stream, &mut scope, 10), Ok(EnqueueStep::Done));
    assert_eq!(enqueue(&mut stream, &mut scope, 11), Ok(EnqueueStep::Done));
    assert_eq!(desired(&mut stream), Some(number(1.0)));
    assert!(DefaultReader::new(&mut scope, &mut stream).is_ok());
    take(&mut scope);
    DefaultReader::read(&mut scope, &mut stream, true, 1);
    DefaultReader::read(&mut scope, &mut stream, true, 2);
    assert_eq!(take(&mut scope), vec![chunk_for(1, 10), chunk_for(2, 11)]);
    assert!(stream.is_disturbed());
}

#[test]
fn a_read_waits_for_its_chunk() {
    let mut scope = scope();
    let mut stream = new_stream(&mut scope, 0);
    stream.start_promise_fulfilled(&mut scope);
    assert!(take(&mut scope).is_empty());
    assert!(DefaultReader::new(&mut scope, &mut stream).is_ok());
    take(&mut scope);
    DefaultReader::read(&mut scope, &mut stream, true, 1);
    assert_eq!(take(&mut scope), vec![pull()]);
    DefaultReader::read(&mut scope, &mut stream, true, 2);
    assert!(take(&mut scope).is_empty());
    assert_eq!(enqueue(&mut stream, &mut scope, 10), Ok(EnqueueStep::Done));
    assert_eq!(take(&mut scope), vec![chunk_for(1, 10)]);
    stream.pull_promise_fulfilled(&mut scope);
    assert_eq!(take(&mut scope), vec![pull()]);
    assert_eq!(enqueue(&mut stream, &mut scope, 11), Ok(EnqueueStep::Done));
    assert_eq!(take(&mut scope), vec![chunk_for(2, 11)]);
    stream.pull_promise_fulfilled(&mut scope);
    assert!(take(&mut scope).is_empty());
}

#[test]
fn a_close_lets_what_waits_be_read() {
    let mut scope = scope();
    let mut stream = new_stream(&mut scope, 2);
    enqueue(&mut stream, &mut scope, 10).unwrap();
    assert!(close(&mut stream, &mut scope).is_ok());
    assert_eq!(stream.slots.state, ReadableStreamState::Readable);
    assert_eq!(
        close(&mut stream, &mut scope),
        Err(type_error(Message::CloseNotPermitted))
    );
    assert_eq!(
        enqueue(&mut stream, &mut scope, 11),
        Err(type_error(Message::EnqueueNotPermitted))
    );
    assert!(DefaultReader::new(&mut scope, &mut stream).is_ok());
    take(&mut scope);
    DefaultReader::read(&mut scope, &mut stream, true, 1);
    assert_eq!(stream.slots.state, ReadableStreamState::Closed);
    assert_eq!(
        take(&mut scope),
        vec![
            Effect::Resolve(PromiseRef::ReaderClosed(STREAM), Value::Undefined),
            chunk_for(1, 10),
        ]
    );
    DefaultReader::read(&mut scope, &mut stream, true, 2);
    assert_eq!(take(&mut scope), vec![end_for(2)]);
    assert_eq!(desired(&mut stream), Some(number(0.0)));
}

#[test]
fn a_close_ends_the_reads_that_wait() {
    let mut scope = scope();
    let mut stream = new_stream(&mut scope, 0);
    assert!(DefaultReader::new(&mut scope, &mut stream).is_ok());
    DefaultReader::read(&mut scope, &mut stream, true, 1);
    DefaultReader::read(&mut scope, &mut stream, true, 2);
    take(&mut scope);
    assert!(close(&mut stream, &mut scope).is_ok());
    assert_eq!(
        take(&mut scope),
        vec![
            Effect::Resolve(PromiseRef::ReaderClosed(STREAM), Value::Undefined),
            end_for(1),
            end_for(2),
        ]
    );
}

#[test]
fn a_failure_reaches_every_read() {
    let mut scope = scope();
    let mut stream = new_stream(&mut scope, 0);
    assert!(DefaultReader::new(&mut scope, &mut stream).is_ok());
    DefaultReader::read(&mut scope, &mut stream, true, 1);
    take(&mut scope);
    let error = Value::Handle(66);
    stream.error(&mut scope, error.clone());
    assert_eq!(
        take(&mut scope),
        vec![
            Effect::Reject(PromiseRef::ReaderClosed(STREAM), error.clone()),
            Effect::MarkHandled(PromiseRef::ReaderClosed(STREAM)),
            Effect::Reject(PromiseRef::Request(1), error.clone()),
        ]
    );
    DefaultReader::read(&mut scope, &mut stream, true, 2);
    assert_eq!(take(&mut scope), vec![Effect::Reject(PromiseRef::Request(2), error)]);
    assert_eq!(desired(&mut stream), None);
    stream.error(&mut scope, Value::Handle(67));
    assert!(take(&mut scope).is_empty());
}

#[test]
fn a_source_that_fails_fails_its_stream() {
    let mut scope = scope();
    let mut stream = new_stream(&mut scope, 1);
    let (slots, controller) = parts(&mut stream);
    start_promise_rejected(&mut scope, slots, controller, Value::Handle(5));
    assert_eq!(stream.slots.state, ReadableStreamState::Errored);
    assert_eq!(stream.slots.stored_error, Value::Handle(5));
    let mut other = new_stream(&mut scope, 1);
    let (slots, controller) = parts(&mut other);
    pull_promise_rejected(&mut scope, slots, controller, Value::Handle(6));
    assert_eq!(other.slots.stored_error, Value::Handle(6));
}

#[test]
fn a_stream_is_locked_to_one_reader() {
    let mut scope = scope();
    let mut stream = new_stream(&mut scope, 1);
    assert!(stream.get_reader(&mut scope, None).is_ok());
    assert_eq!(
        take(&mut scope),
        vec![Effect::NewPromise(PromiseRef::ReaderClosed(STREAM))]
    );
    assert!(stream.is_locked());
    assert_eq!(
        stream.get_reader(&mut scope, None),
        Err(type_error(Message::ReaderLocked))
    );
    DefaultReader::release_lock(&mut scope, &mut stream, true);
    assert!(!stream.is_locked());
    let byob = ReadableStreamGetReaderOptions { mode: Some(ReaderMode::Byob) };
    assert_eq!(
        stream.get_reader(&mut scope, Some(byob)),
        Err(type_error(Message::ByobOnNonByteStream))
    );
}

#[test]
fn a_release_fails_the_reads_that_wait() {
    let mut scope = scope();
    let mut stream = new_stream(&mut scope, 0);
    assert!(DefaultReader::new(&mut scope, &mut stream).is_ok());
    DefaultReader::read(&mut scope, &mut stream, true, 1);
    take(&mut scope);
    DefaultReader::release_lock(&mut scope, &mut stream, true);
    assert_eq!(
        take(&mut scope),
        vec![
            Effect::Reject(
                PromiseRef::ReaderClosed(STREAM),
                type_error(Message::ReaderReleasedClosed)
            ),
            Effect::MarkHandled(PromiseRef::ReaderClosed(STREAM)),
            Effect::Reject(PromiseRef::Request(1), type_error(Message::ReaderReleased)),
        ]
    );
    DefaultReader::read(&mut scope, &mut stream, false, 2);
    DefaultReader::cancel(&mut scope, &mut stream, false, None, 3);
    DefaultReader::release_lock(&mut scope, &mut stream, false);
    assert_eq!(
        take(&mut scope),
        vec![
            Effect::Reject(PromiseRef::Request(2), type_error(Message::ReadWithoutStream)),
            Effect::Reject(PromiseRef::Request(3), type_error(Message::CancelWithoutStream)),
        ]
    );
}

#[test]
fn a_cancelation_closes_the_stream_and_tells_the_source() {
    let mut scope = scope();
    let mut stream = new_stream(&mut scope, 2);
    enqueue(&mut stream, &mut scope, 10).unwrap();
    stream.cancel(&mut scope, Some(Value::Handle(4)), 1);
    assert_eq!(
        take(&mut scope),
        vec![Effect::Invoke {
            call: Call::ReadableCancel {
                stream: STREAM,
                reason: Value::Handle(4),
                result: PromiseRef::Request(1),
            },
            algorithm: Algorithm::Callback(3),
            receiver: Value::Handle(50),
        }]
    );
    assert_eq!(stream.slots.state, ReadableStreamState::Closed);
    stream.cancel(&mut scope, None, 2);
    assert_eq!(
        take(&mut scope),
        vec![Effect::Resolve(PromiseRef::Request(2), Value::Undefined)]
    );
}

#[test]
fn a_locked_stream_is_not_canceled_from_outside() {
    let mut scope = scope();
    let mut stream = new_stream(&mut scope, 2);
    stream.get_reader(&mut scope, None).unwrap();
    take(&mut scope);
    stream.cancel(&mut scope, None, 1);
    assert_eq!(
        take(&mut scope),
        vec![Effect::Reject(PromiseRef::Request(1), type_error(Message::CancelLocked))]
    );
    assert_eq!(stream.slots.state, ReadableStreamState::Readable);
    DefaultReader::cancel(&mut scope, &mut stream, true, None, 2);
    assert_eq!(stream.slots.state, ReadableStreamState::Closed);
}

#[test]
fn a_failed_stream_passes_its_error_to_a_cancelation() {
    let mut scope = scope();
    let mut stream = new_stream(&mut scope, 2);
    stream.error(&mut scope, Value::Handle(66));
    take(&mut scope);
    stream.cancel(&mut scope, None, 1);
    assert_eq!(
        take(&mut scope),
        vec![Effect::Reject(PromiseRef::Request(1), Value::Handle(66))]
    );
}

#[test]
fn a_size_function_is_asked_for_the_size_of_a_chunk() {
    let mut scope = scope();
    let made = ReadableStream::new(
        &mut scope,
        STREAM,
        object(source()),
        strategy(number(10.0), callback(4)),
    );
    let mut stream = made.unwrap_or_else(|_| panic!("the source is in order"));
    assert_eq!(
        enqueue(&mut stream, &mut scope, 10),
        Ok(EnqueueStep::NeedsSize(Algorithm::Callback(4)))
    );
    let (slots, controller) = parts(&mut stream);
    let result = readable_stream_default_controller_enqueue_with_size(
        &mut scope,
        slots,
        controller,
        Value::Handle(10),
        Ok(number(13.0)),
    );
    assert_eq!(result, Ok(()));
    assert_eq!(desired(&mut stream), Some(number(-3.0)));
}

#[test]
fn a_size_that_will_not_do_fails_the_stream() {
    for size in [number(f64::INFINITY), number(f64::NAN), number(-1.0)] {
        let mut scope = scope();
        let mut stream = new_stream(&mut scope, 1);
        let (slots, controller) = parts(&mut stream);
        let error = Value::RangeError(Message::SizeOutOfRange);
        let result = readable_stream_default_controller_enqueue_with_size(
            &mut scope,
            slots,
            controller,
            Value::Handle(10),
            Ok(size),
        );
        assert_eq!(result, Err(error.clone()));
        assert_eq!(stream.slots.stored_error, error);
    }
    let mut scope = scope();
    let mut stream = new_stream(&mut scope, 1);
    let (slots, controller) = parts(&mut stream);
    let result = readable_stream_default_controller_enqueue_with_size(
        &mut scope,
        slots,
        controller,
        Value::Handle(10),
        Err(Value::Handle(9)),
    );
    assert_eq!(result, Err(Value::Handle(9)));
    assert_eq!(stream.slots.state, ReadableStreamState::Errored);
}

#[test]
fn marks_and_sizes_may_be_fractions() {
    let mut scope = scope();
    let made = ReadableStream::new(
        &mut scope,
        STREAM,
        object(source()),
        strategy(number(1.5), callback(4)),
    );
    let mut stream = made.unwrap_or_else(|_| panic!("the source is in order"));
    assert_eq!(desired(&mut stream), Some(number(1.5)));
    for (size, left) in [(0.5, 1.0), (0.75, 0.25), (0.25, 0.0), (0.1, 1.5 - (1.5 + 0.1))] {
        let (slots, controller) = parts(&mut stream);
        let result = readable_stream_default_controller_enqueue_with_size(
            &mut scope,
            slots,
            controller,
            Value::Handle(10),
            Ok(number(size)),
        );
        assert_eq!(result, Ok(()));
        assert_eq!(desired(&mut stream), Some(number(left)));
    }
}

#[test]
fn an_infinite_mark_always_wants_more() {
    let mut scope = scope();
    let made = ReadableStream::new(
        &mut scope,
        STREAM,
        object(source()),
        strategy(number(f64::INFINITY), None),
    );
    let mut stream = made.unwrap_or_else(|_| panic!("the source is in order"));
    enqueue(&mut stream, &mut scope, 10).unwrap();
    assert_eq!(desired(&mut stream), Some(number(f64::INFINITY)));
}

#[test]
fn a_native_stream_keeps_its_source() {
    let mut scope = scope();
    let mut stream = ReadableStream::new_native(
        &mut scope,
        STREAM,
        Some(40),
        Algorithm::Callback(2),
        Algorithm::Callback(3),
    );
    assert_eq!(stream.native_source(), Some(40));
    assert_eq!(desired(&mut stream), Some(number(0.0)));
    stream.set_native_source(41);
    assert_eq!(stream.native_source(), Some(41));
}

#[test]
fn a_consumed_stream_is_locked_and_disturbed() {
    let mut scope = scope();
    let made = ReadableStream::new_consumed(&mut scope, STREAM);
    let stream = made.unwrap_or_else(|_| panic!("an empty stream"));
    assert!(stream.is_locked());
    assert!(stream.is_disturbed());
    let mut other = new_stream(&mut scope, 1);
    assert_eq!(other.lock_and_disturb(&mut scope), Ok(()));
    assert!(other.is_locked());
    assert!(other.is_disturbed());
    assert!(other.reader().is_some());
}

#[test]
fn a_locked_stream_is_disturbed_and_keeps_its_reader() {
    let mut scope = scope();
    let mut stream = new_stream(&mut scope, 1);
    assert_eq!(stream.get_reader(&mut scope, None), Ok(()));
    assert!(!stream.is_disturbed());
    DefaultReader::read(&mut scope, &mut stream, true, 1);
    stream.slots.disturbed = false;
    take(&mut scope);
    assert_eq!(stream.lock_and_disturb(&mut scope), Ok(()));
    assert!(stream.is_locked());
    assert!(stream.is_disturbed());
    assert_eq!(stream.slots.num_read_requests(), 1);
    assert!(take(&mut scope).is_empty());
}

#[test]
fn bytes_make_a_stream_of_one_chunk() {
    let mut scope = scope();
    let made = ReadableStream::from_bytes(&mut scope, STREAM, vec![1, 2, 3]);
    let mut stream = made.unwrap_or_else(|_| panic!("the bytes fit"));
    stream.get_reader(&mut scope, None).unwrap();
    take(&mut scope);
    DefaultReader::read(&mut scope, &mut stream, true, 1);
    let effects = take(&mut scope);
    match effects.last() {
        Some(Effect::Resolve(_, Value::IterResult(chunk, false))) => match &**chunk {
            Value::Bytes(view) => {
                assert_eq!(view.byte_length, 3);
                assert_eq!(scope.buffers[view.buffer].data, vec![1, 2, 3]);
            }
            other => panic!("bytes, not {:?}", other),
        },
        other => panic!("a chunk, not {:?}", other),
    }
    assert_eq!(stream.slots.state, ReadableStreamState::Closed);
}
