use web_streams::buffer::{ArrayBuffer, ArrayBufferView, ViewKind};
use web_streams::number::Number;
use web_streams::queuing::{ByteLengthQueuingStrategy, CallbackObject, QueuingStrategy};
use web_streams::readable::byob_reader::BYOBReader;
use web_streams::readable::byob_request::ReadableStreamBYOBRequest;
use web_streams::readable::byte_respond::{byte_pull_promise_rejected, byte_start_promise_rejected};
use web_streams::readable::byte_stream_controller::ReadableByteStreamController;
use web_streams::readable::default_reader::DefaultReader;
use web_streams::readable::options::{BYOBReaderReadOptions, ReadableStreamType};
use web_streams::readable::readable_stream::{
    ReadableStream, ReadableStreamState, StreamController,
};
use web_streams::readable::slots::StreamSlots;
use web_streams::readable::underlying_source::{SourceArgument, UnderlyingSource};
use web_streams::scope::{Algorithm, Call, Effect, PromiseRef, Scope};
use web_streams::value::{Message, Value};

fn number(value: f64) -> Number {
    Number { bits: value.to_bits() }
}

const STREAM: u64 = 3;

fn members() -> UnderlyingSource {
    UnderlyingSource {
        start: None,
        pull: Some(CallbackObject { handle: 2, callable: true }),
        cancel: Some(CallbackObject { handle: 3, callable: true }),
        kind: Some(ReadableStreamType::Bytes),
        auto_allocate_chunk_size: None,
    }
}

fn construct(
    scope: &mut Scope,
    given: UnderlyingSource,
    mark: u64,
) -> Result<ReadableStream, Value> {
    ReadableStream::new(
        scope,
        STREAM,
        SourceArgument::Object { handle: 50, members: Ok(given) },
        Some(QueuingStrategy { high_water_mark: Some(number(mark as f64)), size: None }),
    )
}

fn byte_stream(scope: &mut Scope, mark: u64) -> ReadableStream {
    let made = construct(scope, members(), mark);
    let mut stream = made.unwrap_or_else(|_| panic!("the source is in order"));
    stream.start_promise_fulfilled(scope);
    scope.effects.clear();
    stream
}

fn scope() -> Scope {
    Scope::new(1 << 20)
}

fn parts(stream: &mut ReadableStream) -> (&mut StreamSlots, &mut ReadableByteStreamController) {
    match &mut stream.controller {
        StreamController::Byte(controller) => (&mut stream.slots, controller),
        StreamController::Default(_) => panic!("a byte stream"),
    }
}

fn buffer(scope: &mut Scope, bytes: &[u8]) -> usize {
    scope.buffers.push(ArrayBuffer { data: bytes.to_vec(), detached: false, detachable: true });
    scope.buffers.len() - 1
}

fn whole(scope: &Scope, buffer: usize) -> ArrayBufferView {
    ArrayBufferView {
        kind: ViewKind::Uint8,
        buffer,
        byte_offset: 0,
        byte_length: scope.buffers[buffer].data.len(),
    }
}

fn bytes_of(scope: &Scope, view: ArrayBufferView) -> Vec<u8> {
    scope.buffers[view.buffer].data[view.byte_offset..view.byte_offset + view.byte_length].to_vec()
}

fn enqueue(stream: &mut ReadableStream, scope: &mut Scope, bytes: &[u8]) -> Result<(), Value> {
    let place = buffer(scope, bytes);
    let view = whole(scope, place);
    let (slots, controller) = parts(stream);
    controller.enqueue(scope, slots, Some(view))
}

fn read_into(stream: &mut ReadableStream, scope: &mut Scope, length: usize, min: u64, promise: u64) {
    let place = buffer(scope, &vec![0; length]);
    let view = whole(scope, place);
    let options = Some(BYOBReaderReadOptions { min: number(min as f64) });
    BYOBReader::read(scope, stream, true, Some(view), options, promise);
}

fn request(stream: &mut ReadableStream, scope: &Scope) -> ReadableStreamBYOBRequest {
    let (slots, controller) = parts(stream);
    match controller.byob_request(scope, slots) {
        Some(request) => request,
        None => panic!("a view is to be filled"),
    }
}

fn write_into(scope: &mut Scope, view: ArrayBufferView, bytes: &[u8]) {
    for (place, byte) in bytes.iter().enumerate() {
        scope.buffers[view.buffer].data[view.byte_offset + place] = *byte;
    }
}

fn respond(stream: &mut ReadableStream, scope: &mut Scope, count: u64) -> Result<(), Value> {
    let asked = request(stream, scope);
    let (slots, controller) = parts(stream);
    asked.respond(scope, slots, controller, number(count as f64))
}

fn result_of(effects: &[Effect], promise: u64) -> (Value, bool) {
    for effect in effects {
        if let Effect::Resolve(PromiseRef::Request(other), Value::IterResult(value, done)) = effect {
            if *other == promise {
                return ((**value).clone(), *done);
            }
        }
    }
    panic!("no result for {} in {:?}", promise, effects)
}

fn bytes_for(scope: &Scope, effects: &[Effect], promise: u64) -> Vec<u8> {
    match result_of(effects, promise) {
        (Value::Bytes(view), false) => bytes_of(scope, view),
        other => panic!("bytes, not {:?}", other),
    }
}

fn rejection_of(effects: &[Effect], promise: u64) -> Value {
    for effect in effects {
        if let Effect::Reject(PromiseRef::Request(other), error) = effect {
            if *other == promise {
                return error.clone();
            }
        }
    }
    panic!("no rejection for {} in {:?}", promise, effects)
}

fn take(scope: &mut Scope) -> Vec<Effect> {
    std::mem::take(&mut scope.effects)
}

fn pull() -> Effect {
    Effect::Invoke {
        call: Call::ReadablePull { stream: STREAM },
        algorithm: Algorithm::Callback(2),
        receiver: Value::Handle(50),
    }
}

fn type_error<T>(message: Message) -> Result<T, Value> {
    Err(Value::TypeError(message))
}

fn range_error<T>(message: Message) -> Result<T, Value> {
    Err(Value::RangeError(message))
}

fn byob(scope: &mut Scope, stream: &mut ReadableStream) {
    assert!(BYOBReader::new(scope, stream).is_ok());
    scope.effects.clear();
}

fn default_reader(scope: &mut Scope, stream: &mut ReadableStream) {
    assert!(DefaultReader::new(scope, stream).is_ok());
    scope.effects.clear();
}

#[test]
fn a_default_reader_gets_the_chunks_as_they_were_enqueued() {
    let mut scope = scope();
    let mut stream = byte_stream(&mut scope, 0);
    enqueue(&mut stream, &mut scope, &[1, 2, 3]).unwrap();
    enqueue(&mut stream, &mut scope, &[4]).unwrap();
    default_reader(&mut scope, &mut stream);
    DefaultReader::read(&mut scope, &mut stream, true, 1);
    DefaultReader::read(&mut scope, &mut stream, true, 2);
    let effects = take(&mut scope);
    assert_eq!(bytes_for(&scope, &effects, 1), vec![1, 2, 3]);
    assert_eq!(bytes_for(&scope, &effects, 2), vec![4]);
}

#[test]
fn an_enqueued_buffer_is_taken_from_its_owner() {
    let mut scope = scope();
    let mut stream = byte_stream(&mut scope, 0);
    let place = buffer(&mut scope, &[1, 2]);
    let view = whole(&scope, place);
    let (slots, controller) = parts(&mut stream);
    assert_eq!(controller.enqueue(&mut scope, slots, Some(view)), Ok(()));
    assert!(scope.is_detached(place));
    assert_eq!(scope.byte_length(place), 0);
    let (slots, controller) = parts(&mut stream);
    assert_eq!(
        controller.enqueue(&mut scope, slots, Some(view)),
        type_error(Message::EnqueueEmptyView)
    );
}

#[test]
fn a_byte_stream_takes_views_that_are_not_empty() {
    let mut scope = scope();
    let mut stream = byte_stream(&mut scope, 0);
    let (slots, controller) = parts(&mut stream);
    assert_eq!(
        controller.enqueue(&mut scope, slots, None),
        type_error(Message::EnqueueNotView)
    );
    assert_eq!(
        enqueue(&mut stream, &mut scope, &[]),
        type_error(Message::EnqueueEmptyView)
    );
    let place = buffer(&mut scope, &[1]);
    scope.buffers[place].detachable = false;
    let view = whole(&scope, place);
    let (slots, controller) = parts(&mut stream);
    assert_eq!(
        controller.enqueue(&mut scope, slots, Some(view)),
        type_error(Message::BufferNotDetachable)
    );
}

#[test]
fn a_closed_byte_stream_takes_nothing() {
    let mut scope = scope();
    let mut stream = byte_stream(&mut scope, 0);
    enqueue(&mut stream, &mut scope, &[1]).unwrap();
    let (slots, controller) = parts(&mut stream);
    assert_eq!(controller.close(&mut scope, slots), Ok(()));
    assert_eq!(
        controller.close(&mut scope, slots),
        type_error(Message::ByteCloseRequested)
    );
    assert_eq!(
        enqueue(&mut stream, &mut scope, &[2]),
        type_error(Message::EnqueueCloseRequested)
    );
    assert_eq!(stream.slots.state, ReadableStreamState::Readable);
    default_reader(&mut scope, &mut stream);
    DefaultReader::read(&mut scope, &mut stream, true, 1);
    assert_eq!(stream.slots.state, ReadableStreamState::Closed);
    let mut failed = byte_stream(&mut scope, 0);
    failed.error(&mut scope, Value::Handle(9));
    let (slots, controller) = parts(&mut failed);
    assert_eq!(
        controller.close(&mut scope, slots),
        type_error(Message::ByteCloseNotReadable)
    );
    assert_eq!(
        enqueue(&mut failed, &mut scope, &[2]),
        type_error(Message::EnqueueNotReadable)
    );
}

#[test]
fn desired_size_counts_bytes() {
    let mut scope = scope();
    let mut stream = byte_stream(&mut scope, 5);
    enqueue(&mut stream, &mut scope, &[1, 2, 3]).unwrap();
    let (slots, controller) = parts(&mut stream);
    assert_eq!(controller.desired_size(slots), Some(number(2.0)));
    enqueue(&mut stream, &mut scope, &[1, 2, 3]).unwrap();
    let (slots, controller) = parts(&mut stream);
    assert_eq!(controller.desired_size(slots), Some(number(-1.0)));
    controller.error(&mut scope, slots, None);
    assert_eq!(controller.desired_size(slots), None);
}

#[test]
fn a_byob_read_takes_bytes_across_chunks() {
    let mut scope = scope();
    let mut stream = byte_stream(&mut scope, 0);
    enqueue(&mut stream, &mut scope, &[1, 2, 3]).unwrap();
    enqueue(&mut stream, &mut scope, &[4, 5]).unwrap();
    byob(&mut scope, &mut stream);
    read_into(&mut stream, &mut scope, 4, 1, 1);
    let effects = take(&mut scope);
    assert_eq!(bytes_for(&scope, &effects, 1), vec![1, 2, 3, 4]);
    read_into(&mut stream, &mut scope, 4, 1, 2);
    let effects = take(&mut scope);
    assert_eq!(bytes_for(&scope, &effects, 2), vec![5]);
}

#[test]
fn a_source_fills_the_view_of_a_byob_read() {
    let mut scope = scope();
    let mut stream = byte_stream(&mut scope, 0);
    byob(&mut scope, &mut stream);
    read_into(&mut stream, &mut scope, 4, 1, 1);
    assert_eq!(take(&mut scope), vec![pull()]);
    let view = request(&mut stream, &scope).view();
    let view = view.unwrap_or_else(|| panic!("the request is valid"));
    assert_eq!((view.byte_offset, view.byte_length), (0, 4));
    write_into(&mut scope, view, &[7, 8]);
    assert_eq!(respond(&mut stream, &mut scope, 2), Ok(()));
    let effects = take(&mut scope);
    assert_eq!(effects[0], Effect::InvalidateByobRequest { stream: STREAM });
    assert_eq!(bytes_for(&scope, &effects, 1), vec![7, 8]);
    let (slots, controller) = parts(&mut stream);
    assert!(controller.byob_request(&scope, slots).is_none());
}

#[test]
fn a_byob_read_waits_for_its_minimum() {
    let mut scope = scope();
    let mut stream = byte_stream(&mut scope, 0);
    byob(&mut scope, &mut stream);
    read_into(&mut stream, &mut scope, 5, 3, 1);
    take(&mut scope);
    let view = request(&mut stream, &scope).view.unwrap();
    write_into(&mut scope, view, &[1, 2]);
    assert_eq!(respond(&mut stream, &mut scope, 2), Ok(()));
    assert!(!take(&mut scope).iter().any(|effect| matches!(effect, Effect::Resolve(..))));
    let view = request(&mut stream, &scope).view.unwrap();
    assert_eq!((view.byte_offset, view.byte_length), (2, 3));
    write_into(&mut scope, view, &[3]);
    assert_eq!(respond(&mut stream, &mut scope, 1), Ok(()));
    let effects = take(&mut scope);
    assert_eq!(bytes_for(&scope, &effects, 1), vec![1, 2, 3]);
}

#[test]
fn only_whole_elements_are_handed_over() {
    let mut scope = scope();
    let mut stream = byte_stream(&mut scope, 0);
    byob(&mut scope, &mut stream);
    let place = buffer(&mut scope, &[0; 4]);
    let view = ArrayBufferView { kind: ViewKind::Uint16, buffer: place, byte_offset: 0, byte_length: 4 };
    BYOBReader::read(&mut scope, &mut stream, true, Some(view), None, 1);
    take(&mut scope);
    let asked = request(&mut stream, &scope).view.unwrap();
    write_into(&mut scope, asked, &[1, 2, 3]);
    assert_eq!(respond(&mut stream, &mut scope, 3), Ok(()));
    let effects = take(&mut scope);
    assert_eq!(bytes_for(&scope, &effects, 1), vec![1, 2]);
    let (_, controller) = parts(&mut stream);
    assert_eq!(controller.queue_total_size, 1);
    BYOBReader::release_lock(&mut scope, &mut stream, true);
    default_reader(&mut scope, &mut stream);
    DefaultReader::read(&mut scope, &mut stream, true, 2);
    let effects = take(&mut scope);
    assert_eq!(bytes_for(&scope, &effects, 2), vec![3]);
}

#[test]
fn a_close_with_part_of_an_element_fails_the_stream() {
    let mut scope = scope();
    let mut stream = byte_stream(&mut scope, 0);
    byob(&mut scope, &mut stream);
    let place = buffer(&mut scope, &[0; 2]);
    let view = ArrayBufferView { kind: ViewKind::Uint16, buffer: place, byte_offset: 0, byte_length: 2 };
    BYOBReader::read(&mut scope, &mut stream, true, Some(view), None, 1);
    assert_eq!(respond(&mut stream, &mut scope, 1), Ok(()));
    take(&mut scope);
    let (slots, controller) = parts(&mut stream);
    assert_eq!(
        controller.close(&mut scope, slots),
        type_error(Message::InsufficientBytesPending)
    );
    assert_eq!(stream.slots.state, ReadableStreamState::Errored);
    let effects = take(&mut scope);
    assert_eq!(rejection_of(&effects, 1), Value::TypeError(Message::InsufficientBytesPending));
}

#[test]
fn a_read_for_more_than_a_closing_stream_has_fails_it() {
    let mut scope = scope();
    let mut stream = byte_stream(&mut scope, 0);
    enqueue(&mut stream, &mut scope, &[1]).unwrap();
    let (slots, controller) = parts(&mut stream);
    controller.close(&mut scope, slots).unwrap();
    byob(&mut scope, &mut stream);
    let place = buffer(&mut scope, &[0; 2]);
    let view = ArrayBufferView { kind: ViewKind::Uint16, buffer: place, byte_offset: 0, byte_length: 2 };
    BYOBReader::read(&mut scope, &mut stream, true, Some(view), None, 1);
    let effects = take(&mut scope);
    assert_eq!(
        rejection_of(&effects, 1),
        Value::TypeError(Message::InsufficientBytesRequested)
    );
}

#[test]
fn a_closed_stream_hands_the_view_back() {
    let mut scope = scope();
    let mut stream = byte_stream(&mut scope, 0);
    byob(&mut scope, &mut stream);
    read_into(&mut stream, &mut scope, 4, 1, 1);
    let (slots, controller) = parts(&mut stream);
    controller.close(&mut scope, slots).unwrap();
    assert_eq!(respond(&mut stream, &mut scope, 1), type_error(Message::BytesWrittenNonZeroClosed));
    assert_eq!(respond(&mut stream, &mut scope, 0), Ok(()));
    let effects = take(&mut scope);
    match result_of(&effects, 1) {
        (Value::Bytes(view), true) => assert_eq!(view.byte_length, 0),
        other => panic!("an empty view, not {:?}", other),
    }
    read_into(&mut stream, &mut scope, 4, 1, 2);
    let effects = take(&mut scope);
    match result_of(&effects, 2) {
        (Value::Bytes(view), true) => assert_eq!(view.byte_length, 0),
        other => panic!("an empty view, not {:?}", other),
    }
}

#[test]
fn an_answer_has_to_fit_the_view() {
    let mut scope = scope();
    let mut stream = byte_stream(&mut scope, 0);
    byob(&mut scope, &mut stream);
    read_into(&mut stream, &mut scope, 4, 1, 1);
    assert_eq!(respond(&mut stream, &mut scope, 0), type_error(Message::BytesWrittenZeroReadable));
    assert_eq!(respond(&mut stream, &mut scope, 5), range_error(Message::BytesWrittenTooLarge));
    let asked = request(&mut stream, &scope);
    let (slots, controller) = parts(&mut stream);
    for count in [number(-1.0), number(f64::NAN), number(f64::INFINITY)] {
        assert_eq!(
            asked.respond(&mut scope, slots, controller, count),
            type_error(Message::RespondOutOfRange)
        );
    }
    assert_eq!(respond(&mut stream, &mut scope, 4), Ok(()));
    let gone = ReadableStreamBYOBRequest { controller: None, view: None };
    let (slots, controller) = parts(&mut stream);
    assert_eq!(
        gone.respond(&mut scope, slots, controller, number(1.0)),
        type_error(Message::RespondInvalidated)
    );
    assert_eq!(
        gone.respond_with_new_view(&mut scope, slots, controller, None),
        type_error(Message::RespondNewViewNotView)
    );
    let place = buffer(&mut scope, &[0; 4]);
    let view = whole(&scope, place);
    assert_eq!(
        gone.respond_with_new_view(&mut scope, slots, controller, Some(view)),
        type_error(Message::RespondNewViewInvalidated)
    );
}

#[test]
fn an_answer_needs_a_buffer_that_is_there() {
    let mut scope = scope();
    let mut stream = byte_stream(&mut scope, 0);
    byob(&mut scope, &mut stream);
    read_into(&mut stream, &mut scope, 4, 1, 1);
    let asked = request(&mut stream, &scope);
    let view = asked.view.unwrap();
    let moved = scope.transfer(view.buffer).unwrap_or_else(|_| panic!("it can be moved"));
    let (slots, controller) = parts(&mut stream);
    assert_eq!(
        asked.respond(&mut scope, slots, controller, number(1.0)),
        type_error(Message::RespondDetached)
    );
    assert_eq!(
        asked.respond_with_new_view(&mut scope, slots, controller, Some(view)),
        type_error(Message::RespondNewViewDetached)
    );
    assert_eq!(
        enqueue(&mut stream, &mut scope, &[1]),
        type_error(Message::PendingPullIntoDetached)
    );
    let back = ArrayBufferView { buffer: moved, ..view };
    write_into(&mut scope, back, &[5, 6, 7, 8]);
    let (slots, controller) = parts(&mut stream);
    assert_eq!(asked.respond_with_new_view(&mut scope, slots, controller, Some(back)), Ok(()));
    let effects = take(&mut scope);
    assert_eq!(bytes_for(&scope, &effects, 1), vec![5, 6, 7, 8]);
}

#[test]
fn a_new_view_has_to_match_the_one_that_was_asked_for() {
    let mut scope = scope();
    let mut stream = byte_stream(&mut scope, 0);
    byob(&mut scope, &mut stream);
    read_into(&mut stream, &mut scope, 4, 1, 1);
    let asked = request(&mut stream, &scope);
    let view = asked.view.unwrap();
    let other = buffer(&mut scope, &[0; 3]);
    let (slots, controller) = parts(&mut stream);
    let mut give = |scope: &mut Scope, given: ArrayBufferView| {
        asked.respond_with_new_view(scope, slots, controller, Some(given))
    };
    assert_eq!(
        give(&mut scope, ArrayBufferView { byte_length: 0, ..view }),
        type_error(Message::ViewEmptyReadable)
    );
    assert_eq!(
        give(&mut scope, ArrayBufferView { byte_offset: 1, byte_length: 3, ..view }),
        range_error(Message::ViewOffsetMismatch)
    );
    assert_eq!(
        give(&mut scope, ArrayBufferView { buffer: other, byte_length: 3, ..view }),
        range_error(Message::ViewBufferLengthMismatch)
    );
    assert_eq!(give(&mut scope, ArrayBufferView { byte_length: 2, ..view }), Ok(()));
}

#[test]
fn a_new_view_is_not_longer_than_what_is_left() {
    let mut scope = scope();
    let mut stream = byte_stream(&mut scope, 0);
    byob(&mut scope, &mut stream);
    let place = buffer(&mut scope, &[0; 6]);
    let view = ArrayBufferView { kind: ViewKind::Uint8, buffer: place, byte_offset: 0, byte_length: 4 };
    BYOBReader::read(&mut scope, &mut stream, true, Some(view), None, 1);
    let asked = request(&mut stream, &scope);
    let given = asked.view.unwrap();
    let (slots, controller) = parts(&mut stream);
    assert_eq!(
        asked.respond_with_new_view(
            &mut scope,
            slots,
            controller,
            Some(ArrayBufferView { byte_length: 5, ..given })
        ),
        range_error(Message::ViewTooLong)
    );
    controller.close(&mut scope, slots).unwrap();
    assert_eq!(
        asked.respond_with_new_view(&mut scope, slots, controller, Some(given)),
        type_error(Message::ViewNonEmptyClosed)
    );
}

#[test]
fn the_arguments_of_a_byob_read_are_looked_at() {
    let mut scope = scope();
    let mut stream = byte_stream(&mut scope, 0);
    byob(&mut scope, &mut stream);
    let place = buffer(&mut scope, &[0; 4]);
    let view = whole(&scope, place);
    let words = ArrayBufferView { kind: ViewKind::Uint16, ..view };
    let data = ArrayBufferView { kind: ViewKind::DataView, ..view };
    let empty = ArrayBufferView { byte_length: 0, ..view };
    let min = |min: Number| Some(BYOBReaderReadOptions { min });
    let cases = [
        (true, None, None, Value::TypeError(Message::ReadNotView)),
        (true, Some(view), min(number(-1.0)), Value::TypeError(Message::ReadMinOutOfRange)),
        (true, Some(empty), None, Value::TypeError(Message::ReadEmptyView)),
        (true, Some(view), min(number(0.0)), Value::TypeError(Message::ReadMinZero)),
        (true, Some(view), min(number(0.9)), Value::TypeError(Message::ReadMinZero)),
        (true, Some(view), min(number(-0.9)), Value::TypeError(Message::ReadMinZero)),
        (true, Some(words), min(number(3.0)), Value::RangeError(Message::ReadMinExceedsLength)),
        (true, Some(data), min(number(5.0)), Value::RangeError(Message::ReadMinExceedsByteLength)),
        (false, Some(view), None, Value::TypeError(Message::ByobReadWithoutStream)),
    ];
    for (attached, given, options, error) in cases {
        BYOBReader::read(&mut scope, &mut stream, attached, given, options, 1);
        assert_eq!(take(&mut scope), vec![Effect::Reject(PromiseRef::Request(1), error)]);
    }
    scope.buffers[place].detachable = false;
    BYOBReader::read(&mut scope, &mut stream, true, Some(view), None, 2);
    assert_eq!(
        rejection_of(&take(&mut scope), 2),
        Value::TypeError(Message::BufferNotDetachable)
    );
    scope.buffers[place].detached = true;
    BYOBReader::read(&mut scope, &mut stream, true, Some(view), None, 3);
    assert_eq!(rejection_of(&take(&mut scope), 3), Value::TypeError(Message::ReadEmptyView));
    BYOBReader::cancel(&mut scope, &mut stream, false, None, 4);
    assert_eq!(
        rejection_of(&take(&mut scope), 4),
        Value::TypeError(Message::ByobCancelWithoutStream)
    );
}

#[test]
fn a_cancelation_ends_the_byob_reads() {
    let mut scope = scope();
    let mut stream = byte_stream(&mut scope, 0);
    byob(&mut scope, &mut stream);
    read_into(&mut stream, &mut scope, 4, 1, 1);
    take(&mut scope);
    BYOBReader::cancel(&mut scope, &mut stream, true, Some(Value::Handle(8)), 2);
    let effects = take(&mut scope);
    assert_eq!(result_of(&effects, 1), (Value::Undefined, true));
    assert_eq!(
        effects.last(),
        Some(&Effect::Invoke {
            call: Call::ReadableCancel {
                stream: STREAM,
                reason: Value::Handle(8),
                result: PromiseRef::Request(2),
            },
            algorithm: Algorithm::Callback(3),
            receiver: Value::Handle(50),
        })
    );
}

#[test]
fn a_default_read_can_allocate() {
    let mut scope = scope();
    let mut given = members();
    given.auto_allocate_chunk_size = Some(number(8.0));
    let mut stream = construct(&mut scope, given, 0).unwrap_or_else(|_| panic!("in order"));
    stream.start_promise_fulfilled(&mut scope);
    default_reader(&mut scope, &mut stream);
    DefaultReader::read(&mut scope, &mut stream, true, 1);
    assert_eq!(take(&mut scope), vec![pull()]);
    let view = request(&mut stream, &scope).view.unwrap();
    assert_eq!(view.byte_length, 8);
    write_into(&mut scope, view, &[9, 9]);
    assert_eq!(respond(&mut stream, &mut scope, 2), Ok(()));
    let effects = take(&mut scope);
    assert_eq!(bytes_for(&scope, &effects, 1), vec![9, 9]);
}

#[test]
fn an_allocation_can_fail() {
    let mut scope = Scope::new(4);
    let mut given = members();
    given.auto_allocate_chunk_size = Some(number(8.0));
    let mut stream = construct(&mut scope, given, 0).unwrap_or_else(|_| panic!("in order"));
    stream.start_promise_fulfilled(&mut scope);
    default_reader(&mut scope, &mut stream);
    DefaultReader::read(&mut scope, &mut stream, true, 1);
    assert_eq!(
        rejection_of(&take(&mut scope), 1),
        Value::RangeError(Message::BufferTooLong)
    );
}

#[test]
fn the_allocation_size_has_to_make_sense() {
    let mut scope = scope();
    let mut given = members();
    given.auto_allocate_chunk_size = Some(number(0.0));
    assert!(matches!(
        construct(&mut scope, given, 0),
        Err(Value::TypeError(Message::AutoAllocateZero))
    ));
    given.auto_allocate_chunk_size = Some(number(-1.0));
    assert!(matches!(
        construct(&mut scope, given, 0),
        Err(Value::TypeError(Message::AutoAllocateOutOfRange))
    ));
}

#[test]
fn bytes_that_a_released_reader_left_come_to_the_next_one() {
    let mut scope = scope();
    let mut stream = byte_stream(&mut scope, 0);
    byob(&mut scope, &mut stream);
    read_into(&mut stream, &mut scope, 4, 1, 1);
    take(&mut scope);
    let view = request(&mut stream, &scope).view.unwrap();
    BYOBReader::release_lock(&mut scope, &mut stream, true);
    assert_eq!(
        rejection_of(&take(&mut scope), 1),
        Value::TypeError(Message::ReaderReleased)
    );
    write_into(&mut scope, view, &[4, 5]);
    assert_eq!(respond(&mut stream, &mut scope, 2), Ok(()));
    default_reader(&mut scope, &mut stream);
    DefaultReader::read(&mut scope, &mut stream, true, 2);
    let effects = take(&mut scope);
    assert_eq!(bytes_for(&scope, &effects, 2), vec![4, 5]);
}

#[test]
fn a_chunk_comes_after_what_a_released_reader_left() {
    let mut scope = scope();
    let mut stream = byte_stream(&mut scope, 0);
    byob(&mut scope, &mut stream);
    read_into(&mut stream, &mut scope, 4, 4, 1);
    assert_eq!(enqueue(&mut stream, &mut scope, &[4, 5]), Ok(()));
    BYOBReader::release_lock(&mut scope, &mut stream, true);
    default_reader(&mut scope, &mut stream);
    DefaultReader::read(&mut scope, &mut stream, true, 2);
    DefaultReader::read(&mut scope, &mut stream, true, 3);
    take(&mut scope);
    assert_eq!(enqueue(&mut stream, &mut scope, &[6]), Ok(()));
    let effects = take(&mut scope);
    assert_eq!(bytes_for(&scope, &effects, 2), vec![4, 5]);
    match effects.last() {
        Some(Effect::EnqueueRest { stream: STREAM, view }) => {
            stream.enqueue_rest(&mut scope, *view);
        }
        other => panic!("the rest is left for later, not {:?}", other),
    }
    let effects = take(&mut scope);
    assert_eq!(bytes_for(&scope, &effects, 3), vec![6]);
}

#[test]
fn a_byte_source_that_fails_fails_its_stream() {
    let mut scope = scope();
    let mut stream = byte_stream(&mut scope, 0);
    let (slots, controller) = parts(&mut stream);
    byte_start_promise_rejected(&mut scope, slots, controller, Value::Handle(5));
    assert_eq!(stream.slots.stored_error, Value::Handle(5));
    let mut other = byte_stream(&mut scope, 0);
    let (slots, controller) = parts(&mut other);
    byte_pull_promise_rejected(&mut scope, slots, controller, Value::Handle(6));
    assert_eq!(other.slots.stored_error, Value::Handle(6));
    byob(&mut scope, &mut other);
    read_into(&mut other, &mut scope, 2, 1, 1);
    assert_eq!(rejection_of(&take(&mut scope), 1), Value::Handle(6));
}

#[test]
fn a_byte_length_is_that_of_the_view() {
    let mut scope = scope();
    let place = buffer(&mut scope, &[0; 5]);
    let view = whole(&scope, place);
    assert_eq!(
        ByteLengthQueuingStrategy::size(&scope, &Value::Bytes(view)),
        Some(number(5.0))
    );
    assert_eq!(ByteLengthQueuingStrategy::size(&scope, &Value::Undefined), None);
    scope.buffers[place].detached = true;
    assert_eq!(
        ByteLengthQueuingStrategy::size(&scope, &Value::Bytes(view)),
        Some(number(0.0))
    );
}

#[test]
fn a_branch_is_not_handed_a_detached_buffer() {
    let mut scope = scope();
    let mut stream = byte_stream(&mut scope, 0);
    let place = buffer(&mut scope, &[1, 2]);
    let view = whole(&scope, place);
    scope.transfer(place).unwrap_or_else(|_| panic!("it can be moved"));
    assert_eq!(
        stream.enqueue_bytes(&mut scope, view),
        type_error(Message::EnqueueDetached)
    );
}
