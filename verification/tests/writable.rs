use web_streams::number::Number;
use web_streams::queuing::{CallbackObject, QueuingStrategy};
use web_streams::scope::{Algorithm, Call, Effect, PromiseRef, Scope};
use web_streams::value::{Message, Value};
use web_streams::writable::default_writer::{PromiseState, WritableStreamDefaultWriter};
use web_streams::writable::underlying_sink::{SinkArgument, UnderlyingSink};
use web_streams::writable::world::{AbortStep, WriteStep};
use web_streams::writable::writable_stream::{WritableStream, WritableStreamState};

fn number(value: f64) -> Number {
    Number { bits: value.to_bits() }
}

const STREAM: u64 = 4;

fn scope() -> Scope {
    Scope::new(1 << 20)
}

fn callback(handle: u64) -> Option<CallbackObject> {
    Some(CallbackObject { handle, callable: true })
}

fn not_callable() -> Option<CallbackObject> {
    Some(CallbackObject { handle: 99, callable: false })
}

fn sink() -> UnderlyingSink {
    UnderlyingSink {
        start: callback(1),
        write: callback(2),
        close: callback(3),
        abort: callback(4),
        has_kind: false,
    }
}

fn object(members: UnderlyingSink) -> SinkArgument {
    SinkArgument::Object { handle: 50, members: Ok(members) }
}

fn strategy(mark: Number, size: Option<CallbackObject>) -> Option<QueuingStrategy> {
    Some(QueuingStrategy { high_water_mark: Some(mark), size })
}

fn construct(mark: u64) -> (Scope, WritableStream) {
    let mut scope = scope();
    let made = WritableStream::new(
        &mut scope,
        STREAM,
        object(sink()),
        strategy(number(mark as f64), None),
    );
    scope.effects.clear();
    (scope, made.unwrap_or_else(|_| panic!("the sink is in order")))
}

fn started(mark: u64) -> (Scope, WritableStream) {
    let (mut scope, mut stream) = construct(mark);
    stream.ws_start_promise_fulfilled(&mut scope);
    assert!(stream.get_writer(&mut scope).is_ok());
    scope.effects.clear();
    (scope, stream)
}

fn write(scope: &mut Scope, stream: &mut WritableStream, chunk: u64, promise: u64) {
    let step = WritableStreamDefaultWriter::write(
        scope,
        stream,
        true,
        Some(Value::Handle(chunk)),
        promise,
    );
    assert_eq!(step, WriteStep::Done);
}

fn sink_write(chunk: u64) -> Effect {
    Effect::Invoke {
        call: Call::WritableWrite { stream: STREAM, chunk: Value::Handle(chunk) },
        algorithm: Algorithm::Callback(2),
        receiver: Value::Handle(50),
    }
}

fn sink_close() -> Effect {
    Effect::Invoke {
        call: Call::WritableClose { stream: STREAM },
        algorithm: Algorithm::Callback(3),
        receiver: Value::Handle(50),
    }
}

fn resolved(promise: PromiseRef) -> Effect {
    Effect::Resolve(promise, Value::Undefined)
}

fn done(promise: u64) -> Effect {
    resolved(PromiseRef::Request(promise))
}

fn refused(promise: u64, error: Value) -> Effect {
    Effect::Reject(PromiseRef::Request(promise), error)
}

fn ready() -> PromiseRef {
    PromiseRef::WriterReady(STREAM)
}

fn closed() -> PromiseRef {
    PromiseRef::WriterClosed(STREAM)
}

fn take(scope: &mut Scope) -> Vec<Effect> {
    std::mem::take(&mut scope.effects)
}

fn refusal(argument: SinkArgument, given: Option<QueuingStrategy>) -> Value {
    let mut scope = scope();
    match WritableStream::new(&mut scope, STREAM, argument, given) {
        Ok(_) => panic!("a refusal was expected"),
        Err(error) => {
            assert!(scope.effects.is_empty());
            error
        }
    }
}

fn type_error(message: Message) -> Value {
    Value::TypeError(message)
}

#[test]
fn a_new_stream_starts_its_sink() {
    let mut scope = scope();
    let made = WritableStream::new(&mut scope, STREAM, object(sink()), None);
    let stream = made.unwrap_or_else(|_| panic!("the sink is in order"));
    assert_eq!(
        take(&mut scope),
        vec![Effect::Invoke {
            call: Call::WritableStart { stream: STREAM },
            algorithm: Algorithm::Callback(1),
            receiver: Value::Handle(50),
        }]
    );
    assert!(!stream.locked());
    assert!(!stream.backpressure);
    assert_eq!(stream.writable_stream_default_writer_get_desired_size(), Some(number(1.0)));
}

#[test]
fn a_sink_has_to_be_in_order() {
    assert_eq!(refusal(SinkArgument::NotObject, None), type_error(Message::SinkNotObject));
    assert_eq!(
        refusal(SinkArgument::Object { handle: 1, members: Err(None) }, None),
        type_error(Message::InvalidSink)
    );
    assert_eq!(
        refusal(SinkArgument::Object { handle: 1, members: Err(Some(Value::Handle(8))) }, None),
        Value::Handle(8)
    );
    let mut typed = sink();
    typed.has_kind = true;
    assert_eq!(refusal(object(typed), None), Value::RangeError(Message::InvalidSinkType));
    let mut members = sink();
    members.abort = not_callable();
    assert_eq!(refusal(object(members), None), type_error(Message::SinkAbortNotFunction));
    members.close = not_callable();
    assert_eq!(refusal(object(members), None), type_error(Message::SinkCloseNotFunction));
    members.write = not_callable();
    assert_eq!(refusal(object(members), None), type_error(Message::SinkWriteNotFunction));
    members.start = not_callable();
    assert_eq!(refusal(object(members), None), type_error(Message::SinkStartNotFunction));
    assert_eq!(
        refusal(object(sink()), strategy(number(f64::NAN), None)),
        Value::RangeError(Message::HighWaterMarkNegative)
    );
    assert!(matches!(
        WritableStream::new(&mut scope(), STREAM, SinkArgument::Missing, None),
        Ok(_)
    ));
}

#[test]
fn chunks_are_written_one_at_a_time_and_in_order() {
    let (mut scope, mut stream) = started(4);
    write(&mut scope, &mut stream, 10, 1);
    assert_eq!(take(&mut scope), vec![sink_write(10)]);
    write(&mut scope, &mut stream, 11, 2);
    write(&mut scope, &mut stream, 12, 3);
    assert!(take(&mut scope).is_empty());
    stream.ws_write_promise_fulfilled(&mut scope);
    assert_eq!(take(&mut scope), vec![done(1), sink_write(11)]);
    stream.ws_write_promise_fulfilled(&mut scope);
    assert_eq!(take(&mut scope), vec![done(2), sink_write(12)]);
    stream.ws_write_promise_fulfilled(&mut scope);
    assert_eq!(take(&mut scope), vec![done(3)]);
}

#[test]
fn ready_tells_backpressure() {
    let (mut scope, mut stream) = started(1);
    assert_eq!(stream.writer.as_ref().map(|w| w.ready), Some(PromiseState::Fulfilled));
    write(&mut scope, &mut stream, 10, 1);
    assert!(stream.backpressure);
    assert_eq!(take(&mut scope), vec![Effect::NewPromise(ready()), sink_write(10)]);
    assert_eq!(
        WritableStreamDefaultWriter::desired_size(&stream, true),
        Ok(Some(number(0.0)))
    );
    stream.ws_write_promise_fulfilled(&mut scope);
    assert!(!stream.backpressure);
    assert_eq!(take(&mut scope), vec![done(1), resolved(ready())]);
}

#[test]
fn nothing_is_written_before_the_sink_has_started() {
    let (mut scope, mut stream) = construct(2);
    assert!(stream.get_writer(&mut scope).is_ok());
    take(&mut scope);
    write(&mut scope, &mut stream, 10, 1);
    assert!(take(&mut scope).is_empty());
    stream.ws_start_promise_fulfilled(&mut scope);
    assert_eq!(take(&mut scope), vec![sink_write(10)]);
}

#[test]
fn a_sink_that_fails_to_start_fails_the_stream() {
    let (mut scope, mut stream) = construct(2);
    stream.ws_start_promise_rejected(&mut scope, Value::Handle(5));
    assert_eq!(stream.state, WritableStreamState::Errored);
    assert_eq!(stream.stored_error, Value::Handle(5));
}

#[test]
fn a_close_comes_after_the_chunks() {
    let (mut scope, mut stream) = started(4);
    write(&mut scope, &mut stream, 10, 1);
    WritableStreamDefaultWriter::close(&mut scope, &mut stream, true, 2);
    assert_eq!(take(&mut scope), vec![sink_write(10)]);
    write(&mut scope, &mut stream, 11, 3);
    assert_eq!(take(&mut scope), vec![refused(3, type_error(Message::WriteClosing))]);
    WritableStreamDefaultWriter::close(&mut scope, &mut stream, true, 4);
    assert_eq!(take(&mut scope), vec![refused(4, type_error(Message::CloseAlreadyClosing))]);
    stream.ws_write_promise_fulfilled(&mut scope);
    assert_eq!(
        take(&mut scope),
        vec![done(1), sink_close(), Effect::ClearAlgorithms { stream: STREAM }]
    );
    stream.writable_stream_default_controller_clear_algorithms();
    stream.ws_close_promise_fulfilled(&mut scope);
    assert_eq!(take(&mut scope), vec![done(2), resolved(closed())]);
    assert_eq!(stream.state, WritableStreamState::Closed);
    write(&mut scope, &mut stream, 12, 5);
    assert_eq!(take(&mut scope), vec![refused(5, type_error(Message::WriteClosing))]);
    assert_eq!(
        WritableStreamDefaultWriter::desired_size(&stream, true),
        Ok(Some(number(0.0)))
    );
}

#[test]
fn a_stream_that_has_ended_is_not_closed_again() {
    let (mut scope, mut stream) = construct(1);
    stream.ws_start_promise_fulfilled(&mut scope);
    stream.close(&mut scope, 1);
    stream.ws_close_promise_fulfilled(&mut scope);
    take(&mut scope);
    stream.close(&mut scope, 2);
    assert_eq!(take(&mut scope), vec![refused(2, type_error(Message::CloseNotWritable))]);
}

#[test]
fn a_failed_write_fails_the_stream() {
    let (mut scope, mut stream) = started(4);
    write(&mut scope, &mut stream, 10, 1);
    write(&mut scope, &mut stream, 11, 2);
    take(&mut scope);
    let error = Value::Handle(66);
    stream.ws_write_promise_rejected(&mut scope, error.clone());
    assert_eq!(stream.state, WritableStreamState::Errored);
    assert_eq!(
        take(&mut scope),
        vec![
            refused(1, error.clone()),
            Effect::NewPromise(ready()),
            Effect::Reject(ready(), error.clone()),
            Effect::MarkHandled(ready()),
            refused(2, error.clone()),
            Effect::Reject(closed(), error.clone()),
            Effect::MarkHandled(closed()),
        ]
    );
    write(&mut scope, &mut stream, 12, 3);
    assert_eq!(take(&mut scope), vec![refused(3, error)]);
    assert_eq!(WritableStreamDefaultWriter::desired_size(&stream, true), Ok(None));
}

#[test]
fn a_failed_close_fails_the_stream() {
    let (mut scope, mut stream) = started(4);
    WritableStreamDefaultWriter::close(&mut scope, &mut stream, true, 1);
    take(&mut scope);
    stream.ws_close_promise_rejected(&mut scope, Value::Handle(6));
    assert_eq!(stream.state, WritableStreamState::Errored);
    assert_eq!(take(&mut scope)[0], refused(1, Value::Handle(6)));
}

#[test]
fn an_abort_waits_for_what_is_under_way() {
    let (mut scope, mut stream) = started(4);
    write(&mut scope, &mut stream, 10, 1);
    write(&mut scope, &mut stream, 11, 2);
    take(&mut scope);
    let reason = Value::Handle(7);
    let step =
        WritableStreamDefaultWriter::abort(&mut scope, &mut stream, true, reason.clone(), 3);
    assert_eq!(step, AbortStep::Signaling);
    assert_eq!(
        take(&mut scope),
        vec![Effect::SignalAbort { stream: STREAM, reason: reason.clone() }]
    );
    let promise = PromiseRef::Request(3);
    assert_eq!(
        stream.writable_stream_abort_signaled(&mut scope, reason.clone(), promise),
        promise
    );
    assert_eq!(stream.state, WritableStreamState::Erroring);
    take(&mut scope);
    write(&mut scope, &mut stream, 12, 4);
    assert_eq!(take(&mut scope), vec![refused(4, reason.clone())]);
    let again = PromiseRef::Request(5);
    assert_eq!(
        stream.writable_stream_abort_signaled(&mut scope, Value::Handle(8), again),
        promise
    );
    stream.ws_write_promise_fulfilled(&mut scope);
    assert_eq!(stream.state, WritableStreamState::Errored);
    assert_eq!(
        take(&mut scope),
        vec![
            done(1),
            refused(2, reason.clone()),
            Effect::Invoke {
                call: Call::WritableAbort { stream: STREAM, reason: reason.clone(), promise },
                algorithm: Algorithm::Callback(4),
                receiver: Value::Handle(50),
            },
            Effect::ClearAlgorithms { stream: STREAM },
        ]
    );
    stream.ws_abort_promise_fulfilled(&mut scope, promise);
    assert_eq!(
        take(&mut scope),
        vec![
            done(3),
            Effect::Reject(closed(), reason),
            Effect::MarkHandled(closed()),
        ]
    );
}

#[test]
fn a_sink_may_fail_over_an_abort() {
    let (mut scope, mut stream) = started(4);
    let promise = PromiseRef::Request(1);
    stream.writable_stream_abort_signaled(&mut scope, Value::Handle(7), promise);
    take(&mut scope);
    stream.ws_abort_promise_rejected(&mut scope, promise, Value::Handle(9));
    assert_eq!(take(&mut scope)[0], refused(1, Value::Handle(9)));
}

#[test]
fn an_ended_stream_is_not_aborted() {
    let (mut scope, mut stream) = started(1);
    WritableStreamDefaultWriter::close(&mut scope, &mut stream, true, 1);
    stream.ws_close_promise_fulfilled(&mut scope);
    take(&mut scope);
    let step =
        WritableStreamDefaultWriter::abort(&mut scope, &mut stream, true, Value::Undefined, 2);
    assert_eq!(step, AbortStep::Done);
    assert_eq!(take(&mut scope), vec![done(2)]);
}

#[test]
fn a_close_that_succeeds_outweighs_an_abort() {
    let (mut scope, mut stream) = started(1);
    WritableStreamDefaultWriter::close(&mut scope, &mut stream, true, 1);
    let promise = PromiseRef::Request(2);
    stream.writable_stream_abort_signaled(&mut scope, Value::Handle(7), promise);
    take(&mut scope);
    stream.ws_close_promise_fulfilled(&mut scope);
    assert_eq!(stream.state, WritableStreamState::Closed);
    assert_eq!(take(&mut scope), vec![done(1), done(2), resolved(closed())]);
}

#[test]
fn a_locked_stream_is_left_to_its_writer() {
    let (mut scope, mut stream) = started(1);
    assert_eq!(stream.get_writer(&mut scope), Err(type_error(Message::WriterLocked)));
    assert_eq!(stream.abort(&mut scope, Value::Undefined, 1), AbortStep::Done);
    stream.close(&mut scope, 2);
    assert_eq!(
        take(&mut scope),
        vec![
            refused(1, type_error(Message::AbortLocked)),
            refused(2, type_error(Message::CloseLocked)),
        ]
    );
}

#[test]
fn a_released_writer_does_nothing() {
    let (mut scope, mut stream) = started(1);
    WritableStreamDefaultWriter::release_lock(&mut scope, &mut stream, true);
    assert!(!stream.locked());
    let error = type_error(Message::WriterReleasedClosed);
    assert_eq!(
        take(&mut scope),
        vec![
            Effect::NewPromise(ready()),
            Effect::Reject(ready(), error.clone()),
            Effect::MarkHandled(ready()),
            Effect::Reject(closed(), error),
            Effect::MarkHandled(closed()),
        ]
    );
    let step = WritableStreamDefaultWriter::write(&mut scope, &mut stream, false, None, 1);
    assert_eq!(step, WriteStep::Done);
    WritableStreamDefaultWriter::close(&mut scope, &mut stream, false, 2);
    WritableStreamDefaultWriter::abort(&mut scope, &mut stream, false, Value::Undefined, 3);
    WritableStreamDefaultWriter::release_lock(&mut scope, &mut stream, false);
    assert_eq!(
        take(&mut scope),
        vec![
            refused(1, type_error(Message::WriteReleased)),
            refused(2, type_error(Message::CloseReleased)),
            refused(3, type_error(Message::AbortReleased)),
        ]
    );
    assert_eq!(
        WritableStreamDefaultWriter::desired_size(&stream, false),
        Err(type_error(Message::DesiredSizeWithoutStream))
    );
}

#[test]
fn a_size_function_measures_chunks() {
    let mut scope = scope();
    let made = WritableStream::new(
        &mut scope,
        STREAM,
        object(sink()),
        strategy(number(5.0), callback(6)),
    );
    let mut stream = made.unwrap_or_else(|_| panic!("the sink is in order"));
    stream.ws_start_promise_fulfilled(&mut scope);
    assert!(stream.get_writer(&mut scope).is_ok());
    take(&mut scope);
    let step = WritableStreamDefaultWriter::write(
        &mut scope,
        &mut stream,
        true,
        Some(Value::Handle(10)),
        1,
    );
    assert_eq!(step, WriteStep::NeedsSize(Algorithm::Callback(6)));
    let promise = PromiseRef::Request(1);
    stream.writable_stream_default_writer_write_sized(
        &mut scope,
        true,
        Value::Handle(10),
        Ok(number(3.0)),
        promise,
    );
    assert_eq!(
        WritableStreamDefaultWriter::desired_size(&stream, true),
        Ok(Some(number(2.0)))
    );
    take(&mut scope);
    stream.writable_stream_default_writer_write_sized(
        &mut scope,
        true,
        Value::Handle(11),
        Ok(number(f64::NAN)),
        PromiseRef::Request(2),
    );
    assert_eq!(stream.state, WritableStreamState::Erroring);
    assert_eq!(stream.stored_error, Value::RangeError(Message::SizeOutOfRange));
}

#[test]
fn a_size_function_that_throws_fails_the_stream() {
    let (mut scope, mut stream) = started(4);
    stream.writable_stream_default_writer_write_sized(
        &mut scope,
        true,
        Value::Handle(11),
        Err(Value::Handle(9)),
        PromiseRef::Request(1),
    );
    assert_eq!(stream.state, WritableStreamState::Errored);
    assert_eq!(scope.effects.last(), Some(&refused(1, Value::Handle(9))));
}

#[test]
fn a_writer_that_was_released_meanwhile_writes_nothing() {
    let (mut scope, mut stream) = started(4);
    stream.writable_stream_default_writer_write_sized(
        &mut scope,
        false,
        Value::Handle(11),
        Ok(number(1.0)),
        PromiseRef::Request(1),
    );
    assert_eq!(take(&mut scope), vec![refused(1, type_error(Message::WriteReleased))]);
}

#[test]
fn the_controller_fails_the_stream() {
    let (mut scope, mut stream) = started(4);
    stream.error(&mut scope, Value::Handle(6));
    assert_eq!(stream.state, WritableStreamState::Errored);
    take(&mut scope);
    stream.error(&mut scope, Value::Handle(7));
    assert!(take(&mut scope).is_empty());
    assert_eq!(stream.stored_error, Value::Handle(6));
}

#[test]
fn states_have_names() {
    for (state, name) in [
        (WritableStreamState::Writable, "writable"),
        (WritableStreamState::Closed, "closed"),
        (WritableStreamState::Erroring, "erroring"),
        (WritableStreamState::Errored, "errored"),
    ] {
        assert_eq!(state.name(), name);
        assert_eq!(WritableStreamState::from_name(&name.to_string()), Ok(state));
    }
    assert_eq!(
        WritableStreamState::from_name(&"open".to_string()),
        Err(type_error(Message::InvalidWritableState))
    );
}

#[test]
fn a_pipe_closes_a_stream_whatever_its_state() {
    let (mut scope, mut stream) = started(1);
    let promise = PromiseRef::Request(1);
    stream.writable_stream_default_writer_close_with_error_propagation(&mut scope, promise);
    take(&mut scope);
    let other = PromiseRef::Request(2);
    stream.writable_stream_default_writer_close_with_error_propagation(&mut scope, other);
    assert_eq!(take(&mut scope), vec![done(2)]);
    let (mut scope, mut failed) = started(1);
    failed.error(&mut scope, Value::Handle(6));
    take(&mut scope);
    failed.writable_stream_default_writer_close_with_error_propagation(&mut scope, other);
    assert_eq!(take(&mut scope), vec![refused(2, Value::Handle(6))]);
}
