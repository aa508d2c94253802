use web_streams::buffer::{ArrayBuffer, ArrayBufferView, ViewKind};
use web_streams::number::Number;
use web_streams::readable::from_iterable::readable_stream_from_iterable;
use web_streams::readable::native_read::{
    acquire_native_reader, native_reader_read, NativeReadSteps,
};
use web_streams::readable::options::ReadableStreamIteratorOptions;
use web_streams::readable::read_all_bytes::read_all_bytes;
use web_streams::readable::read_request::ReadRequest;
use web_streams::readable::readable_stream::{
    create_readable_stream, ReadableStream, ReadableStreamState,
};
use web_streams::scope::{
    Algorithm, Call, Effect, Microtask, PromiseRef, Reaction, ReadOutcome, Scope,
};
use web_streams::value::{Message, Value};

fn number(value: f64) -> Number {
    Number { bits: value.to_bits() }
}

const STREAM: u64 = 5;
const ITERATOR: u64 = 60;

fn stream() -> (Scope, ReadableStream) {
    let mut scope = Scope::new(1 << 20);
    let mut stream = create_readable_stream(
        &mut scope,
        STREAM,
        Algorithm::Undefined,
        Algorithm::Callback(2),
        Algorithm::Callback(3),
        number(0.0),
        Algorithm::Undefined,
    );
    stream.start_promise_fulfilled(&mut scope);
    scope.effects.clear();
    (scope, stream)
}

fn take(scope: &mut Scope) -> Vec<Effect> {
    std::mem::take(&mut scope.effects)
}

fn result(promise: u64, value: Value, done: bool) -> Effect {
    Effect::Resolve(PromiseRef::Request(promise), Value::IterResult(Box::new(value), done))
}

fn bytes(scope: &mut Scope, kind: ViewKind, bytes: &[u8]) -> Value {
    scope.buffers.push(ArrayBuffer { data: bytes.to_vec(), detached: false, detachable: true });
    Value::Bytes(ArrayBufferView {
        kind,
        buffer: scope.buffers.len() - 1,
        byte_offset: 0,
        byte_length: bytes.len(),
    })
}

#[test]
fn an_iterator_gives_the_chunks_and_then_the_end() {
    let (mut scope, mut stream) = stream();
    let made = stream.values(&mut scope, ITERATOR, None);
    let mut iterator = made.unwrap_or_else(|_| panic!("the stream is not locked"));
    take(&mut scope);
    stream.enqueue_chunk(&mut scope, &Value::Handle(10));
    iterator.next(&mut scope, &mut stream, 1, 101);
    assert_eq!(
        take(&mut scope),
        vec![
            Effect::Resolve(PromiseRef::Request(101), Value::Handle(10)),
            Effect::OnSettled(
                PromiseRef::Request(101),
                Reaction::IteratorNext { iterator: ITERATOR, promise: 1 }
            ),
        ]
    );
    iterator.next_fulfilled(&mut scope, Value::Handle(10), 1);
    assert_eq!(take(&mut scope), vec![result(1, Value::Handle(10), false)]);
    iterator.next(&mut scope, &mut stream, 2, 102);
    assert_eq!(
        take(&mut scope),
        vec![Effect::NextAfter {
            ongoing: PromiseRef::Request(1),
            iterator: ITERATOR,
            promise: 2,
        }]
    );
    iterator.run_next_steps(&mut scope, &mut stream, 2, 102);
    take(&mut scope);
    stream.close_values(&mut scope);
    let closing = Effect::ReadSteps(
        ReadRequest::AsyncIter { promise: 102, stream: STREAM },
        ReadOutcome::Close(Value::Undefined),
    );
    assert!(take(&mut scope).contains(&closing));
    stream.async_iter_close_steps(&mut scope, 102);
    assert!(!stream.is_locked());
    assert_eq!(
        take(&mut scope).last(),
        Some(&Effect::Resolve(PromiseRef::Request(102), Value::EndOfIteration))
    );
    iterator.next_fulfilled(&mut scope, Value::EndOfIteration, 2);
    assert!(iterator.is_finished);
    assert_eq!(take(&mut scope), vec![result(2, Value::Undefined, true)]);
    iterator.run_next_steps(&mut scope, &mut stream, 3, 103);
    assert_eq!(take(&mut scope), vec![result(3, Value::Undefined, true)]);
}

#[test]
fn calls_that_are_made_without_waiting_settle_in_order() {
    let (mut scope, mut stream) = stream();
    let made = stream.values(&mut scope, ITERATOR, None);
    let mut iterator = made.unwrap_or_else(|_| panic!("the stream is not locked"));
    stream.enqueue_chunk(&mut scope, &Value::Handle(10));
    take(&mut scope);
    let mut told: Vec<Effect> = Vec::new();
    for promise in 1..5 {
        iterator.next(&mut scope, &mut stream, promise, 100 + promise);
    }
    let mut effects = take(&mut scope);
    for promise in 1..4 {
        let waits = Effect::NextAfter {
            ongoing: PromiseRef::Request(promise),
            iterator: ITERATOR,
            promise: promise + 1,
        };
        assert!(effects.contains(&waits));
    }
    for promise in 1..5 {
        let read = PromiseRef::Request(100 + promise);
        if promise > 1 {
            iterator.run_next_steps(&mut scope, &mut stream, promise, 100 + promise);
            effects = take(&mut scope);
        }
        if promise == 2 {
            stream.enqueue_chunk(&mut scope, &Value::Handle(11));
            effects.append(&mut take(&mut scope));
        }
        if promise == 3 {
            stream.close_values(&mut scope);
            effects.append(&mut take(&mut scope));
        }
        for effect in effects.drain(..) {
            match effect {
                Effect::Resolve(resolved, value) if resolved == read => {
                    iterator.next_fulfilled(&mut scope, value, promise);
                }
                Effect::ReadSteps(_, ReadOutcome::Close(_)) => {
                    stream.async_iter_close_steps(&mut scope, 100 + promise);
                    iterator.next_fulfilled(&mut scope, Value::EndOfIteration, promise);
                }
                Effect::Resolve(PromiseRef::Request(_), value) => {
                    told.push(Effect::Resolve(PromiseRef::Request(promise), value));
                }
                _ => {}
            }
        }
        for effect in take(&mut scope) {
            if matches!(effect, Effect::Resolve(PromiseRef::Request(p), _) if p == promise) {
                told.push(effect);
            }
        }
    }
    assert_eq!(
        told,
        vec![
            result(1, Value::Handle(10), false),
            result(2, Value::Handle(11), false),
            result(3, Value::Undefined, true),
            result(4, Value::Undefined, true),
        ]
    );
    assert!(!stream.is_locked());
}

#[test]
fn a_failure_ends_an_iteration() {
    let (mut scope, mut stream) = stream();
    let made = stream.values(&mut scope, ITERATOR, None);
    let mut iterator = made.unwrap_or_else(|_| panic!("the stream is not locked"));
    iterator.next(&mut scope, &mut stream, 1, 101);
    take(&mut scope);
    stream.error(&mut scope, Value::Handle(6));
    take(&mut scope);
    stream.async_iter_error_steps(&mut scope, 101, Value::Handle(6));
    assert!(!stream.is_locked());
    assert_eq!(
        take(&mut scope).last(),
        Some(&Effect::Reject(PromiseRef::Request(101), Value::Handle(6)))
    );
    iterator.next_rejected(&mut scope, Value::Handle(6), 1);
    assert!(iterator.is_finished);
    assert_eq!(
        take(&mut scope),
        vec![Effect::Reject(PromiseRef::Request(1), Value::Handle(6))]
    );
}

#[test]
fn an_iteration_that_is_given_up_cancels_the_stream() {
    let (mut scope, mut stream) = stream();
    let made = stream.values(&mut scope, ITERATOR, None);
    let mut iterator = made.unwrap_or_else(|_| panic!("the stream is not locked"));
    take(&mut scope);
    iterator.iterator_return(&mut scope, &mut stream, Some(Value::Handle(8)), 1, 101);
    assert!(iterator.is_finished);
    assert_eq!(stream.slots.state, ReadableStreamState::Closed);
    let effects = take(&mut scope);
    let told = effects.iter().position(|effect| matches!(
        effect,
        Effect::Invoke {
            call: Call::ReadableCancel { reason: Value::Handle(8), .. },
            ..
        }
    ));
    let released = effects
        .iter()
        .position(|effect| *effect == Effect::ReleaseReader { stream: STREAM });
    assert!(told.is_some() && told < released);
    assert!(stream.is_locked());
    stream.readable_stream_reader_generic_release(&mut scope);
    assert!(!stream.is_locked());
    take(&mut scope);
    assert_eq!(
        effects.last(),
        Some(&Effect::ResolveAfter(
            PromiseRef::Request(1),
            PromiseRef::Request(101),
            Value::IterResult(Box::new(Value::Handle(8)), true),
        ))
    );
    iterator.run_return_steps(&mut scope, &mut stream, Value::Handle(9), 2, 102);
    assert_eq!(take(&mut scope), vec![result(2, Value::Handle(9), true)]);
}

#[test]
fn an_iteration_may_leave_its_stream_as_it_is() {
    let (mut scope, mut stream) = stream();
    let options = Some(ReadableStreamIteratorOptions { prevent_cancel: true });
    let made = stream.values(&mut scope, ITERATOR, options);
    let mut iterator = made.unwrap_or_else(|_| panic!("the stream is not locked"));
    iterator.iterator_return(&mut scope, &mut stream, None, 1, 101);
    assert!(!stream.is_locked());
    assert_eq!(stream.slots.state, ReadableStreamState::Readable);
    assert!(take(&mut scope)
        .contains(&Effect::Resolve(PromiseRef::Request(101), Value::Undefined)));
}

#[test]
fn the_end_of_an_iteration_waits_for_the_call_before() {
    let (mut scope, mut stream) = stream();
    let made = stream.values(&mut scope, ITERATOR, None);
    let mut iterator = made.unwrap_or_else(|_| panic!("the stream is not locked"));
    iterator.next(&mut scope, &mut stream, 1, 101);
    take(&mut scope);
    iterator.iterator_return(&mut scope, &mut stream, None, 2, 102);
    assert!(!iterator.is_finished);
    assert_eq!(
        take(&mut scope),
        vec![Effect::ReturnAfter {
            ongoing: PromiseRef::Request(1),
            iterator: ITERATOR,
            value: Value::Undefined,
            promise: 2,
        }]
    );
    assert!(matches!(
        stream.values(&mut scope, 61, None),
        Err(Value::TypeError(Message::ReaderLocked))
    ));
}

#[test]
fn an_iterable_is_asked_when_it_is_read() {
    let mut scope = Scope::new(1 << 20);
    let made = readable_stream_from_iterable(&mut scope, STREAM, Ok(90));
    let mut stream = made.unwrap_or_else(|_| panic!("there is an iterator"));
    take(&mut scope);
    stream.start_promise_fulfilled(&mut scope);
    assert!(take(&mut scope).is_empty());
    acquire_native_reader(&mut scope, &mut stream).unwrap();
    take(&mut scope);
    native_reader_read(&mut scope, &mut stream, NativeReadSteps { consumer: 4 });
    assert_eq!(
        take(&mut scope),
        vec![Effect::Invoke {
            call: Call::ReadablePull { stream: STREAM },
            algorithm: Algorithm::FromPull(90),
            receiver: Value::Undefined,
        }]
    );
    assert_eq!(stream.from_pull_fulfilled(&mut scope, Ok(Some(Value::Handle(10)))), Ok(()));
    assert_eq!(
        take(&mut scope),
        vec![Effect::ReadSteps(
            ReadRequest::Native { consumer: 4 },
            ReadOutcome::Chunk(Value::Handle(10))
        )]
    );
    assert_eq!(stream.from_pull_fulfilled(&mut scope, Ok(None)), Ok(()));
    assert_eq!(stream.slots.state, ReadableStreamState::Closed);
    take(&mut scope);
    assert_eq!(
        stream.from_pull_fulfilled(&mut scope, Err(Value::Handle(6))),
        Err(Value::Handle(6))
    );
    assert!(take(&mut scope).is_empty());
}

#[test]
fn what_is_no_iterable_makes_no_stream() {
    let mut scope = Scope::new(1 << 20);
    let made = readable_stream_from_iterable(&mut scope, STREAM, Err(Value::Handle(6)));
    assert!(matches!(made, Err(Value::Handle(6))));
    assert!(scope.effects.is_empty());
}

#[test]
fn all_bytes_are_read_in_order() {
    let (mut scope, mut stream) = stream();
    let made = read_all_bytes(&mut scope, &mut stream, 70, 1);
    let mut all = made.unwrap_or_else(|_| panic!("the stream is not locked"));
    take(&mut scope);
    for part in [&[1u8, 2][..], &[3][..]] {
        let chunk = bytes(&mut scope, ViewKind::Uint8, part);
        stream.enqueue_chunk(&mut scope, &chunk);
        take(&mut scope);
        all.read_all_bytes_chunk_steps(&mut scope, chunk);
        assert_eq!(
            take(&mut scope),
            vec![Effect::Queue(Microtask::ReadNext { consumer: 70 })]
        );
        all.read_next(&mut scope, &mut stream);
    }
    take(&mut scope);
    stream.close_values(&mut scope);
    assert!(take(&mut scope).contains(&Effect::ReadSteps(
        ReadRequest::Consume { consumer: 70 },
        ReadOutcome::Close(Value::Undefined)
    )));
    assert_eq!(all.read_all_bytes_close_steps(), vec![1, 2, 3]);
    assert!(stream.is_locked());
    all.read_all_bytes_completed(&mut scope, Ok(Value::Handle(5)));
    all.read_all_bytes_completed(&mut scope, Err(Value::Handle(6)));
    all.read_all_bytes_error_steps(&mut scope, Value::Handle(7));
    assert_eq!(
        take(&mut scope),
        vec![
            Effect::Resolve(PromiseRef::Request(1), Value::Handle(5)),
            Effect::Reject(PromiseRef::Request(1), Value::Handle(6)),
            Effect::Reject(PromiseRef::Request(1), Value::Handle(7)),
        ]
    );
}

#[test]
fn only_bytes_are_collected() {
    let (mut scope, mut stream) = stream();
    let made = read_all_bytes(&mut scope, &mut stream, 70, 1);
    let mut all = made.unwrap_or_else(|_| panic!("the stream is not locked"));
    let words = bytes(&mut scope, ViewKind::Uint16, &[1, 2]);
    for chunk in [Value::Handle(4), words] {
        take(&mut scope);
        all.read_all_bytes_chunk_steps(&mut scope, chunk);
        assert_eq!(
            take(&mut scope),
            vec![Effect::Reject(
                PromiseRef::Request(1),
                Value::TypeError(Message::ChunkNotUint8Array)
            )]
        );
    }
    let gone = bytes(&mut scope, ViewKind::Uint8, &[1, 2]);
    scope.buffers[1].detached = true;
    all.read_all_bytes_chunk_steps(&mut scope, gone);
    assert!(all.bytes.is_empty());
    assert!(matches!(
        read_all_bytes(&mut scope, &mut stream, 71, 2),
        Err(Value::TypeError(Message::ReaderLocked))
    ));
}
