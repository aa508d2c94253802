use web_streams::buffer::{ArrayBuffer, ArrayBufferView, ViewKind};
use web_streams::number::Number;
use web_streams::queuing::{CallbackObject, QueuingStrategy};
use web_streams::readable::byob_reader::BYOBReader;
use web_streams::readable::default_reader::DefaultReader;
use web_streams::readable::options::{BYOBReaderReadOptions, ReadableStreamType};
use web_streams::readable::read_request::{ReadIntoRequest, ReadRequest};
use web_streams::readable::readable_stream::{ReadableStream, ReadableStreamState, Tee};
use web_streams::readable::tee::{TeeChunkStep, TeeState};
use web_streams::readable::byte_tee::ByteTeeState;
use web_streams::readable::underlying_source::{SourceArgument, UnderlyingSource};
use web_streams::scope::{
    Branch, Call, Effect, Microtask, PromiseRef, Reaction, ReadOutcome, Scope,
};
use web_streams::value::{Message, Value};

fn number(value: f64) -> Number {
    Number { bits: value.to_bits() }
}

const SOURCE: u64 = 1;
const TEE: u64 = 20;

fn scope() -> Scope {
    Scope::new(1 << 20)
}

fn source(scope: &mut Scope, kind: Option<ReadableStreamType>) -> ReadableStream {
    let members = UnderlyingSource {
        start: None,
        pull: Some(CallbackObject { handle: 2, callable: true }),
        cancel: Some(CallbackObject { handle: 3, callable: true }),
        kind,
        auto_allocate_chunk_size: None,
    };
    let made = ReadableStream::new(
        scope,
        SOURCE,
        SourceArgument::Object { handle: 50, members: Ok(members) },
        Some(QueuingStrategy { high_water_mark: Some(number(0.0)), size: None }),
    );
    let mut stream = made.unwrap_or_else(|_| panic!("the source is in order"));
    stream.start_promise_fulfilled(scope);
    scope.effects.clear();
    stream
}

fn take(scope: &mut Scope) -> Vec<Effect> {
    std::mem::take(&mut scope.effects)
}

fn tee_values(
    scope: &mut Scope,
    stream: &mut ReadableStream,
    clone: bool,
) -> (TeeState, ReadableStream, ReadableStream) {
    match stream.tee(scope, TEE, (11, 12), 30, clone) {
        Ok((Tee::Values(state), one, two)) => (state, one, two),
        _ => panic!("a stream of values that is not locked"),
    }
}

fn tee_bytes(
    scope: &mut Scope,
    stream: &mut ReadableStream,
) -> (ByteTeeState, ReadableStream, ReadableStream) {
    match stream.tee(scope, TEE, (11, 12), 30, false) {
        Ok((Tee::Bytes(state), one, two)) => (state, one, two),
        _ => panic!("a byte stream that is not locked"),
    }
}

fn give(stream: &mut ReadableStream, scope: &mut Scope, bytes: &[u8]) {
    scope.buffers.push(ArrayBuffer { data: bytes.to_vec(), detached: false, detachable: true });
    let view = ArrayBufferView {
        kind: ViewKind::Uint8,
        buffer: scope.buffers.len() - 1,
        byte_offset: 0,
        byte_length: bytes.len(),
    };
    assert_eq!(stream.enqueue_bytes(scope, view), Ok(()));
}

fn chunk_steps(effects: &[Effect]) -> Option<Value> {
    effects.iter().find_map(|effect| match effect {
        Effect::ReadSteps(_, ReadOutcome::Chunk(chunk)) => Some(chunk.clone()),
        _ => None,
    })
}

fn read_bytes(scope: &mut Scope, stream: &mut ReadableStream, promise: u64) -> Vec<u8> {
    if !stream.is_locked() {
        assert!(DefaultReader::new(scope, stream).is_ok());
    }
    scope.effects.clear();
    DefaultReader::read(scope, stream, true, promise);
    for effect in &scope.effects {
        if let Effect::Resolve(_, Value::IterResult(value, false)) = effect {
            if let Value::Bytes(view) = &**value {
                return scope.buffers[view.buffer].data
                    [view.byte_offset..view.byte_offset + view.byte_length]
                    .to_vec();
            }
        }
    }
    panic!("no bytes in {:?}", scope.effects)
}

#[test]
fn a_tee_locks_its_source() {
    let mut scope = scope();
    let mut stream = source(&mut scope, None);
    let (_, one, two) = tee_values(&mut scope, &mut stream, false);
    assert!(stream.is_locked());
    assert!(!one.is_locked());
    assert!(!two.is_locked());
    let effects = take(&mut scope);
    assert!(effects.contains(&Effect::NewPromise(PromiseRef::TeeCancel(TEE))));
    assert_eq!(
        effects.last(),
        Some(&Effect::OnRejected(
            PromiseRef::ReaderClosed(SOURCE),
            Reaction::TeeClosedRejected { tee: TEE }
        ))
    );
    assert!(matches!(
        stream.tee(&mut scope, 21, (13, 14), 31, false),
        Err(Value::TypeError(Message::ReaderLocked))
    ));
}

#[test]
fn both_branches_get_every_chunk() {
    let mut scope = scope();
    let mut stream = source(&mut scope, None);
    let (mut state, mut one, mut two) = tee_values(&mut scope, &mut stream, false);
    take(&mut scope);
    for chunk in [10, 11] {
        state.tee_pull(&mut scope, &mut stream);
        take(&mut scope);
        stream.enqueue_chunk(&mut scope, &Value::Handle(chunk));
        let read = chunk_steps(&take(&mut scope));
        assert_eq!(read, Some(Value::Handle(chunk)));
        state.tee_read_request_chunk_steps(&mut scope, Value::Handle(chunk));
        assert_eq!(take(&mut scope), vec![Effect::Queue(Microtask::TeeChunk { tee: TEE })]);
        assert_eq!(state.tee_chunk_microtask(), TeeChunkStep::Enqueue(Value::Handle(chunk)));
        state.tee_chunk_enqueue(
            &mut scope,
            &mut one,
            &mut two,
            Value::Handle(chunk),
            Value::Handle(chunk),
        );
        assert_eq!(scope.effects.last(), Some(&Effect::TeeChunkDone { tee: TEE }));
        state.tee_chunk_done(&mut scope, &mut stream);
    }
    for branch in [&mut one, &mut two] {
        assert!(DefaultReader::new(&mut scope, branch).is_ok());
        take(&mut scope);
        DefaultReader::read(&mut scope, branch, true, 1);
        DefaultReader::read(&mut scope, branch, true, 2);
        let chunk = |promise: u64, chunk: u64| {
            Effect::Resolve(
                PromiseRef::Request(promise),
                Value::IterResult(Box::new(Value::Handle(chunk)), false),
            )
        };
        assert_eq!(take(&mut scope), vec![chunk(1, 10), chunk(2, 11)]);
    }
}

#[test]
fn a_chunk_that_is_wanted_meanwhile_is_read_next() {
    let mut scope = scope();
    let mut stream = source(&mut scope, None);
    let (mut state, _, _) = tee_values(&mut scope, &mut stream, false);
    state.tee_pull(&mut scope, &mut stream);
    assert!(state.reading);
    state.tee_pull(&mut scope, &mut stream);
    assert!(state.read_again);
    stream.enqueue_chunk(&mut scope, &Value::Handle(10));
    state.tee_read_request_chunk_steps(&mut scope, Value::Handle(10));
    state.tee_chunk_microtask();
    assert!(!state.read_again);
    state.tee_pull(&mut scope, &mut stream);
    take(&mut scope);
    state.tee_chunk_done(&mut scope, &mut stream);
    assert!(state.reading);
    assert_eq!(stream.slots.num_read_requests(), 1);
    state.tee_read_request_error_steps();
    assert!(!state.reading);
}

#[test]
fn a_source_is_canceled_with_both_reasons_once_both_branches_are() {
    let mut scope = scope();
    let mut stream = source(&mut scope, None);
    let (mut state, _, _) = tee_values(&mut scope, &mut stream, false);
    take(&mut scope);
    state.tee_cancel(&mut scope, &mut stream, Branch::Two, Value::Handle(8), 1);
    assert!(take(&mut scope).is_empty());
    assert_eq!(stream.slots.state, ReadableStreamState::Readable);
    state.tee_cancel(&mut scope, &mut stream, Branch::One, Value::Handle(7), 2);
    let effects = take(&mut scope);
    let reason = Value::Pair(Box::new(Value::Handle(7)), Box::new(Value::Handle(8)));
    assert!(effects.iter().any(|effect| matches!(
        effect,
        Effect::Invoke { call: Call::ReadableCancel { reason: given, .. }, .. } if *given == reason
    )));
    assert_eq!(
        effects.last(),
        Some(&Effect::Adopt(PromiseRef::TeeCancel(TEE), PromiseRef::Request(2)))
    );
}

#[test]
fn a_failure_of_the_source_reaches_both_branches() {
    let mut scope = scope();
    let mut stream = source(&mut scope, None);
    let (state, mut one, mut two) = tee_values(&mut scope, &mut stream, false);
    take(&mut scope);
    state.tee_closed_rejected(&mut scope, &mut one, &mut two, Value::Handle(6));
    assert_eq!(one.slots.stored_error, Value::Handle(6));
    assert_eq!(two.slots.stored_error, Value::Handle(6));
    assert_eq!(
        take(&mut scope),
        vec![Effect::Resolve(PromiseRef::TeeCancel(TEE), Value::Undefined)]
    );
}

#[test]
fn the_end_of_the_source_closes_the_branches_that_are_left() {
    let mut scope = scope();
    let mut stream = source(&mut scope, None);
    let (mut state, mut one, mut two) = tee_values(&mut scope, &mut stream, false);
    state.tee_cancel(&mut scope, &mut stream, Branch::One, Value::Undefined, 1);
    take(&mut scope);
    state.tee_read_request_close_steps(&mut scope, &mut one, &mut two);
    assert_eq!(one.slots.state, ReadableStreamState::Readable);
    assert_eq!(two.slots.state, ReadableStreamState::Closed);
    assert_eq!(
        take(&mut scope),
        vec![Effect::Resolve(PromiseRef::TeeCancel(TEE), Value::Undefined)]
    );
}

#[test]
fn the_second_branch_may_get_copies() {
    let mut scope = scope();
    let mut stream = source(&mut scope, None);
    let (mut state, mut one, mut two) = tee_values(&mut scope, &mut stream, true);
    state.tee_read_request_chunk_steps(&mut scope, Value::Handle(10));
    assert_eq!(state.tee_chunk_microtask(), TeeChunkStep::Clone(Value::Handle(10)));
    state.tee_clone_failed(&mut scope, &mut stream, &mut one, &mut two, Value::Handle(6), 1);
    assert_eq!(one.slots.state, ReadableStreamState::Errored);
    assert_eq!(two.slots.state, ReadableStreamState::Errored);
    assert_eq!(stream.slots.state, ReadableStreamState::Closed);
    assert_eq!(
        scope.effects.last(),
        Some(&Effect::Adopt(PromiseRef::TeeCancel(TEE), PromiseRef::Request(1)))
    );
}

#[test]
fn both_branches_of_a_byte_stream_get_the_same_bytes() {
    let mut scope = scope();
    let mut stream = source(&mut scope, Some(ReadableStreamType::Bytes));
    let (mut state, mut one, mut two) = tee_bytes(&mut scope, &mut stream);
    one.start_promise_fulfilled(&mut scope);
    two.start_promise_fulfilled(&mut scope);
    take(&mut scope);
    state.byte_tee_pull(&mut scope, &mut stream, &mut one, false, 31);
    take(&mut scope);
    give(&mut stream, &mut scope, &[1, 2, 3]);
    let chunk = chunk_steps(&take(&mut scope)).unwrap_or(Value::Undefined);
    state.byte_tee_default_chunk_steps(&mut scope, chunk);
    assert_eq!(take(&mut scope), vec![Effect::Queue(Microtask::ByteTeeDefault { tee: TEE })]);
    assert_eq!(
        state.byte_tee_default_microtask(&mut scope, &mut stream, &mut one, &mut two, 5),
        Ok(())
    );
    assert_eq!(scope.effects.last(), Some(&Effect::ByteTeeChunkDone { tee: TEE }));
    state.byte_tee_chunk_done(&mut scope, &mut stream, &mut one, &mut two, 32);
    assert_eq!(read_bytes(&mut scope, &mut one, 1), vec![1, 2, 3]);
    assert_eq!(read_bytes(&mut scope, &mut two, 1), vec![1, 2, 3]);
}

#[test]
fn a_branch_that_brings_a_buffer_has_it_filled() {
    let mut scope = scope();
    let mut stream = source(&mut scope, Some(ReadableStreamType::Bytes));
    let (mut state, mut one, mut two) = tee_bytes(&mut scope, &mut stream);
    one.start_promise_fulfilled(&mut scope);
    two.start_promise_fulfilled(&mut scope);
    assert!(BYOBReader::new(&mut scope, &mut one).is_ok());
    scope.buffers.push(ArrayBuffer { data: vec![0; 4], detached: false, detachable: true });
    let view = ArrayBufferView {
        kind: ViewKind::Uint8,
        buffer: scope.buffers.len() - 1,
        byte_offset: 0,
        byte_length: 4,
    };
    BYOBReader::read(&mut scope, &mut one, true, Some(view), None, 9);
    take(&mut scope);
    state.byte_tee_pull(&mut scope, &mut stream, &mut one, false, 31);
    take(&mut scope);
    give(&mut stream, &mut scope, &[7, 8]);
    let filled = take(&mut scope).into_iter().find_map(|effect| match effect {
        Effect::ReadIntoSteps(
            ReadIntoRequest::ByteTeeByob { for_branch2: false, .. },
            ReadOutcome::Chunk(chunk),
        ) => Some(chunk),
        _ => None,
    });
    let filled = filled.unwrap_or_else(|| panic!("the view was filled"));
    state.byte_tee_byob_chunk_steps(&mut scope, false, filled);
    assert_eq!(take(&mut scope), vec![Effect::Queue(Microtask::ByteTeeByob { tee: TEE })]);
    assert_eq!(
        state.byte_tee_byob_microtask(&mut scope, &mut stream, &mut one, &mut two, 5),
        Ok(())
    );
    let given = scope.effects.iter().find_map(|effect| match effect {
        Effect::Resolve(PromiseRef::Request(9), Value::IterResult(value, false)) => {
            Some((**value).clone())
        }
        _ => None,
    });
    match given {
        Some(Value::Bytes(view)) => {
            assert_eq!(scope.buffers[view.buffer].data[..view.byte_length], [7, 8]);
        }
        other => panic!("bytes, not {:?}", other),
    }
    state.byte_tee_chunk_done(&mut scope, &mut stream, &mut one, &mut two, 32);
    assert_eq!(read_bytes(&mut scope, &mut two, 1), vec![7, 8]);
}

#[test]
fn a_byte_source_is_canceled_once_both_branches_are() {
    let mut scope = scope();
    let mut stream = source(&mut scope, Some(ReadableStreamType::Bytes));
    let (mut state, _, _) = tee_bytes(&mut scope, &mut stream);
    take(&mut scope);
    state.byte_tee_cancel(&mut scope, &mut stream, Branch::One, Value::Handle(7), 1);
    assert!(take(&mut scope).is_empty());
    state.byte_tee_cancel(&mut scope, &mut stream, Branch::Two, Value::Handle(8), 2);
    assert_eq!(stream.slots.state, ReadableStreamState::Closed);
    assert_eq!(
        scope.effects.last(),
        Some(&Effect::Adopt(PromiseRef::TeeCancel(TEE), PromiseRef::Request(2)))
    );
}

#[test]
fn the_end_of_a_byte_source_closes_its_branches() {
    let mut scope = scope();
    let mut stream = source(&mut scope, Some(ReadableStreamType::Bytes));
    let (mut state, mut one, mut two) = tee_bytes(&mut scope, &mut stream);
    one.start_promise_fulfilled(&mut scope);
    two.start_promise_fulfilled(&mut scope);
    state.byte_tee_pull(&mut scope, &mut stream, &mut one, false, 31);
    take(&mut scope);
    assert_eq!(stream.close_bytes(&mut scope), Ok(()));
    assert!(take(&mut scope).contains(&Effect::ReadSteps(
        ReadRequest::ByteTeeDefault { tee: TEE },
        ReadOutcome::Close(Value::Undefined)
    )));
    state.byte_tee_default_close_steps(&mut scope, &mut stream, &mut one, &mut two, 4);
    assert_eq!(one.slots.state, ReadableStreamState::Closed);
    assert_eq!(two.slots.state, ReadableStreamState::Closed);
}

#[test]
fn a_failure_of_a_byte_source_reaches_both_branches() {
    let mut scope = scope();
    let mut stream = source(&mut scope, Some(ReadableStreamType::Bytes));
    let (state, mut one, mut two) = tee_bytes(&mut scope, &mut stream);
    take(&mut scope);
    state.byte_tee_forward_rejected(&mut scope, &mut one, &mut two, 99, Value::Handle(5));
    assert_eq!(one.slots.state, ReadableStreamState::Readable);
    state.byte_tee_forward_rejected(&mut scope, &mut one, &mut two, 30, Value::Handle(6));
    assert_eq!(one.slots.stored_error, Value::Handle(6));
    assert_eq!(two.slots.stored_error, Value::Handle(6));
}

#[test]
fn the_end_of_a_byte_source_hands_a_buffer_back() {
    let mut scope = scope();
    let mut stream = source(&mut scope, Some(ReadableStreamType::Bytes));
    let (mut state, mut one, mut two) = tee_bytes(&mut scope, &mut stream);
    one.start_promise_fulfilled(&mut scope);
    two.start_promise_fulfilled(&mut scope);
    assert!(BYOBReader::new(&mut scope, &mut one).is_ok());
    scope.buffers.push(ArrayBuffer { data: vec![0; 4], detached: false, detachable: true });
    let view = ArrayBufferView {
        kind: ViewKind::Uint8,
        buffer: scope.buffers.len() - 1,
        byte_offset: 0,
        byte_length: 4,
    };
    BYOBReader::read(&mut scope, &mut one, true, Some(view), None, 9);
    state.byte_tee_pull(&mut scope, &mut stream, &mut one, false, 31);
    assert_eq!(stream.close_bytes(&mut scope), Ok(()));
    take(&mut scope);
    assert_eq!(stream.respond_bytes(&mut scope, 0), Ok(()));
    let handed_back = take(&mut scope).into_iter().find_map(|effect| match effect {
        Effect::ReadIntoSteps(
            ReadIntoRequest::ByteTeeByob { for_branch2: false, .. },
            ReadOutcome::Close(Value::Bytes(view)),
        ) => Some(view),
        _ => None,
    });
    assert!(handed_back.is_some());
    state.byte_tee_byob_close_steps(
        &mut scope,
        &mut stream,
        &mut one,
        &mut two,
        false,
        handed_back,
        4,
    );
    assert!(!state.reading);
    assert_eq!(one.slots.state, ReadableStreamState::Closed);
    assert_eq!(two.slots.state, ReadableStreamState::Closed);
    let closed = scope.effects.iter().any(|effect| matches!(
        effect,
        Effect::Resolve(PromiseRef::Request(9), Value::IterResult(value, true))
            if matches!(&**value, Value::Bytes(view) if view.byte_length == 0)
    ));
    assert!(closed);
    assert_eq!(
        scope.effects.last(),
        Some(&Effect::Resolve(PromiseRef::TeeCancel(TEE), Value::Undefined))
    );
}

#[test]
fn a_failed_read_of_a_byte_source_ends_the_reading() {
    let mut scope = scope();
    let mut stream = source(&mut scope, Some(ReadableStreamType::Bytes));
    let (mut state, mut one, _) = tee_bytes(&mut scope, &mut stream);
    state.byte_tee_pull(&mut scope, &mut stream, &mut one, false, 31);
    assert!(state.reading);
    state.byte_tee_set_not_reading();
    assert!(!state.reading);
}

#[test]
fn reads_that_wait_on_the_branches_get_the_chunk() {
    let mut scope = scope();
    let mut stream = source(&mut scope, None);
    let (mut state, mut one, mut two) = tee_values(&mut scope, &mut stream, false);
    assert!(DefaultReader::new(&mut scope, &mut one).is_ok());
    assert!(DefaultReader::new(&mut scope, &mut two).is_ok());
    DefaultReader::read(&mut scope, &mut one, true, 1);
    DefaultReader::read(&mut scope, &mut one, true, 2);
    DefaultReader::read(&mut scope, &mut two, true, 3);
    state.tee_pull(&mut scope, &mut stream);
    stream.enqueue_chunk(&mut scope, &Value::Handle(10));
    state.tee_read_request_chunk_steps(&mut scope, Value::Handle(10));
    assert_eq!(state.tee_chunk_microtask(), TeeChunkStep::Enqueue(Value::Handle(10)));
    take(&mut scope);
    state.tee_chunk_enqueue(
        &mut scope,
        &mut one,
        &mut two,
        Value::Handle(10),
        Value::Handle(10),
    );
    let given = |promise: u64| {
        Effect::Resolve(
            PromiseRef::Request(promise),
            Value::IterResult(Box::new(Value::Handle(10)), false),
        )
    };
    let effects = take(&mut scope);
    assert!(effects.contains(&given(1)));
    assert!(!effects.contains(&given(2)));
    assert!(effects.contains(&given(3)));
    assert_eq!(one.slots.num_read_requests(), 1);
    assert_eq!(two.slots.num_read_requests(), 0);
}

/// The bytes of the view that a promise was resolved with.
fn bytes_for(scope: &Scope, promise: u64) -> Option<Vec<u8>> {
    scope.effects.iter().find_map(|effect| match effect {
        Effect::Resolve(PromiseRef::Request(given), Value::IterResult(value, false))
            if *given == promise =>
        {
            match &**value {
                Value::Bytes(view) => Some(
                    scope.buffers[view.buffer].data
                        [view.byte_offset..view.byte_offset + view.byte_length]
                        .to_vec(),
                ),
                _ => None,
            }
        }
        _ => None,
    })
}

#[test]
fn reads_that_wait_on_byte_branches_get_the_bytes() {
    let mut scope = scope();
    let mut stream = source(&mut scope, Some(ReadableStreamType::Bytes));
    let (mut state, mut one, mut two) = tee_bytes(&mut scope, &mut stream);
    one.start_promise_fulfilled(&mut scope);
    two.start_promise_fulfilled(&mut scope);
    assert!(DefaultReader::new(&mut scope, &mut one).is_ok());
    DefaultReader::read(&mut scope, &mut one, true, 8);
    assert!(BYOBReader::new(&mut scope, &mut two).is_ok());
    scope.buffers.push(ArrayBuffer { data: vec![0; 2], detached: false, detachable: true });
    let view = ArrayBufferView {
        kind: ViewKind::Uint8,
        buffer: scope.buffers.len() - 1,
        byte_offset: 0,
        byte_length: 2,
    };
    BYOBReader::read(&mut scope, &mut two, true, Some(view), None, 9);
    state.byte_tee_pull(&mut scope, &mut stream, &mut one, false, 31);
    take(&mut scope);
    give(&mut stream, &mut scope, &[1, 2, 3]);
    let chunk = chunk_steps(&take(&mut scope)).unwrap_or(Value::Undefined);
    state.byte_tee_default_chunk_steps(&mut scope, chunk);
    take(&mut scope);
    assert_eq!(
        state.byte_tee_default_microtask(&mut scope, &mut stream, &mut one, &mut two, 5),
        Ok(())
    );
    assert_eq!(bytes_for(&scope, 8), Some(vec![1, 2, 3]));
    assert_eq!(bytes_for(&scope, 9), Some(vec![1, 2]));
    state.byte_tee_chunk_done(&mut scope, &mut stream, &mut one, &mut two, 32);
    BYOBReader::release_lock(&mut scope, &mut two, true);
    assert_eq!(read_bytes(&mut scope, &mut two, 10), vec![3]);
}

#[test]
fn a_read_into_a_view_waits_until_it_has_what_it_asks_for() {
    let mut scope = scope();
    let mut stream = source(&mut scope, Some(ReadableStreamType::Bytes));
    assert!(BYOBReader::new(&mut scope, &mut stream).is_ok());
    scope.buffers.push(ArrayBuffer { data: vec![0; 4], detached: false, detachable: true });
    let view = ArrayBufferView {
        kind: ViewKind::Uint8,
        buffer: scope.buffers.len() - 1,
        byte_offset: 0,
        byte_length: 4,
    };
    let options = Some(BYOBReaderReadOptions { min: number(3.0) });
    BYOBReader::read(&mut scope, &mut stream, true, Some(view), options, 9);
    give(&mut stream, &mut scope, &[1, 2]);
    assert_eq!(bytes_for(&scope, 9), None);
    give(&mut stream, &mut scope, &[3, 4, 5]);
    assert_eq!(bytes_for(&scope, 9), Some(vec![1, 2, 3, 4]));
}
