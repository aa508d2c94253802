//! What the streams, their readers and their pipes ask of what they are given.

use vstd::prelude::*;

use crate::buffer::{
    byte_length_of, live, spliced, transferred, view_length_of, ArrayBufferView, Heap, ViewKind,
};
use crate::number::{Number, ONE};
use crate::readable::byob_reader::read_min;
use crate::readable::byte_stream_controller::ByteWorld;
use crate::readable::byte_tee::{new_byte_tee, target, ByteTeeState};
use crate::readable::default_controller::DefaultWorld;
use crate::readable::options::{BYOBReaderReadOptions, StreamPipeOptions};
use crate::readable::pipe::{
    given_options, new_pipe, pipe_lock_refusal, pipe_refusal, PipeWorld,
};
use crate::readable::read_all_bytes::chunk_bytes;
use crate::readable::read_request::{into_error_effect, ReadIntoRequest, ReadRequest};
use crate::readable::slots::SlotsModel;
use crate::readable::stream_world::{read_view_check, ControllerModel, ReadableWorld};
use crate::readable::tee::{new_tee, BranchesWorld};
use crate::scope::{can_clone, clone_error, transfer_error, ScopeModel};
use crate::value::{Message, Value};

verus! {

/// A read into a view waits for one element where no more are asked for. It is refused without a
/// view, with a number of elements that there cannot be, with a view or a buffer that has no
/// bytes, for no elements at all, for more than the view has room for, and after the reader was
/// released; the first of these that holds is what is told.
pub proof fn law_read_into_checked(
    scope: ScopeModel,
    attached: bool,
    view: ArrayBufferView,
    min: Number,
    options: Option<BYOBReaderReadOptions>,
)
    ensures
        read_min(None) == (Number { bits: ONE }),
        options matches Some(options) ==> read_min(Some(options)) == options.min,
        read_view_check(scope, attached, None, min) == Err::<usize, Value>(
            Value::TypeError(Message::ReadNotView),
        ),
        ({
            let checked = read_view_check(scope, attached, Some(view), min);
            let elements = if min.whole() <= usize::MAX {
                min.whole() as int
            } else {
                usize::MAX as int
            };
            if !min.in_range() {
                checked == Err::<usize, Value>(Value::TypeError(Message::ReadMinOutOfRange))
            } else if !live(scope.heap, view.buffer) || view.byte_length == 0 {
                checked == Err::<usize, Value>(Value::TypeError(Message::ReadEmptyView))
            } else if scope.heap[view.buffer as int].data.len() == 0 {
                checked == Err::<usize, Value>(Value::TypeError(Message::ReadEmptyBuffer))
            } else if elements == 0 {
                checked == Err::<usize, Value>(Value::TypeError(Message::ReadMinZero))
            } else if elements * view.kind.size() > view.byte_length {
                checked == Err::<usize, Value>(
                    Value::RangeError(
                        if view.kind is DataView {
                            Message::ReadMinExceedsByteLength
                        } else {
                            Message::ReadMinExceedsLength
                        },
                    ),
                )
            } else if !attached {
                checked == Err::<usize, Value>(Value::TypeError(Message::ByobReadWithoutStream))
            } else {
                checked is Ok && checked->Ok_0 == elements
            }
        }),
{
}

/// How many bytes an element of a view has.
pub proof fn law_element_sizes(kind: ViewKind)
    ensures
        kind.size() == 1 <==> kind is Int8 || kind is Uint8 || kind is Uint8Clamped
            || kind is DataView,
        kind.size() == 2 <==> kind is Int16 || kind is Uint16 || kind is Float16,
        kind.size() == 4 <==> kind is Int32 || kind is Uint32 || kind is Float32,
        kind.size() == 8 <==> kind is Float64 || kind is BigInt64 || kind is BigUint64,
{
}

/// A pipe begins with what it was told to leave alone, and with nothing under way; where it was
/// told nothing, it leaves nothing alone.
pub proof fn law_pipe_made(id: u64, options: StreamPipeOptions)
    ensures
        ({
            let state = new_pipe(id, options);
            &&& state.id == id
            &&& state.prevent_close == options.prevent_close
            &&& state.prevent_abort == options.prevent_abort
            &&& state.prevent_cancel == options.prevent_cancel
            &&& state.signal == options.signal
            &&& !state.shutting_down
            &&& !state.shutdown_waiting
            &&& !state.finished
            &&& state.action_kind is Nothing
            &&& state.original_error is None
            &&& state.pending_writes == 0
        }),
        given_options(Ok(Some(options))) == options,
        ({
            let plain = given_options(Ok(None));
            !plain.prevent_close && !plain.prevent_abort && !plain.prevent_cancel && plain.signal
                is None
        }),
{
}

/// A pipe is refused with options that cannot be read, and then where either stream is locked,
/// the source before the destination.
pub proof fn law_pipe_refused(w: PipeWorld, given: Option<StreamPipeOptions>, error: Value)
    ensures
        pipe_refusal(w, Err(error)) == Some(error),
        w.source.slots.reader !is Unlocked ==> pipe_refusal(w, Ok(given)) == Some(
            Value::TypeError(Message::PipeFromLocked),
        ),
        w.source.slots.reader is Unlocked && w.dest.writer is Some ==> pipe_refusal(w, Ok(given))
            == Some(Value::TypeError(Message::PipeToLocked)),
        w.source.slots.reader is Unlocked && w.dest.writer is None ==> pipe_refusal(w, Ok(given))
            is None,
        pipe_lock_refusal(w.source, w.dest) == pipe_refusal(w, Ok(given)),
{
}

/// A chunk of bytes is one of single bytes; it stands for those that it shows, and for none once
/// its buffer is detached. Nothing else stands for bytes.
pub proof fn law_chunk_stands_for_bytes(heap: Heap, chunk: Value)
    ensures
        chunk_bytes(heap, chunk) is Some <==> chunk is Bytes && chunk->Bytes_0.kind is Uint8,
        chunk matches Value::Bytes(view) ==> view.kind is Uint8 ==> {
            &&& live(heap, view.buffer) ==> chunk_bytes(heap, chunk) == Some(
                heap[view.buffer as int].data.subrange(
                    view.byte_offset as int,
                    view.byte_offset + view.byte_length,
                ),
            )
            &&& !live(heap, view.buffer) ==> chunk_bytes(heap, chunk) == Some(Seq::<u8>::empty())
        },
{
}

/// A tee begins with no read under way and neither branch canceled; when it takes up a chunk, it
/// forgets what was asked for before.
pub proof fn law_tee_made(id: u64, clone_for_branch2: bool, reader: u64, bytes: ByteTeeState)
    ensures
        ({
            let values = new_tee(id, clone_for_branch2);
            &&& values.id == id
            &&& values.clone_for_branch2 == clone_for_branch2
            &&& !values.reading && !values.read_again
            &&& !values.canceled1 && !values.canceled2
        }),
        ({
            let fresh = new_byte_tee(id, reader);
            &&& fresh.id == id
            &&& fresh.reader == reader
            &&& !fresh.reading
            &&& !fresh.read_again_for_branch1 && !fresh.read_again_for_branch2
            &&& !fresh.canceled1 && !fresh.canceled2
        }),
        bytes.taken_up() == (ByteTeeState {
            pending_chunk: Value::Undefined,
            read_again_for_branch1: false,
            read_again_for_branch2: false,
            ..bytes
        }),
        target(false) is One,
        target(true) is Two,
{
}

/// What is done for the second branch of a tee of bytes is what is done for the first, with the
/// branches in the other order.
pub proof fn law_tee_branches_in_order(w: BranchesWorld)
    ensures
        w.ordered(false) == w,
        w.ordered(true).branch1 == w.branch2,
        w.ordered(true).branch2 == w.branch1,
        w.ordered(true).scope == w.scope,
        w.ordered(true).ordered(true) == w,
{
}

/// A reader that lets go of a byte stream leaves its queue as it is, and the view that waits
/// first, if one does, with the source.
pub proof fn law_byte_reader_lets_go(w: ReadableWorld)
    requires
        w.stream.controller is Byte,
    ensures
        ({
            let after = w.release();
            let before = w.stream.controller->Byte_0;
            let controller = after.stream.controller->Byte_0;
            &&& after.stream.controller is Byte
            &&& after.stream.slots.reader is Unlocked
            &&& after.stream.slots.state == w.stream.slots.state
            &&& after.scope.heap == w.scope.heap
            &&& controller.queue == before.queue
            &&& controller.total == before.total
            &&& controller.pulling == before.pulling
            &&& controller.pull_again == before.pull_again
            &&& controller.byob_request == before.byob_request
            &&& before.pending.len() == 0 ==> controller.pending.len() == 0
            &&& before.pending.len() > 0 ==> {
                &&& controller.pending.len() == 1
                &&& controller.pending[0].reader_type is Released
                &&& controller.pending[0].buffer == before.pending[0].buffer
                &&& controller.pending[0].bytes_filled == before.pending[0].bytes_filled
            }
        }),
{
}

/// What is done to a stream of values through the stream is done by its controller, to the same
/// slots and in the same scope.
pub proof fn law_value_stream_is_its_controller(
    w: ReadableWorld,
    chunk: Value,
    request: ReadRequest,
)
    requires
        w.stream.controller is Default,
    ensures
        ({
            let values = DefaultWorld {
                slots: w.stream.slots,
                controller: w.stream.controller->Default_0,
                scope: w.scope,
            };
            let read = DefaultWorld {
                slots: SlotsModel { disturbed: true, ..w.stream.slots },
                ..values
            };
            &&& is_default(w.enqueue_chunk(chunk), values.enqueue(chunk).0)
            &&& is_default(w.close_values(), values.close())
            &&& is_default(w.errored(chunk), values.errored(chunk))
            &&& is_default(w.start_fulfilled(), values.start_fulfilled())
            &&& is_default(w.pull_fulfilled(), values.pull_fulfilled())
            &&& w.stream.slots.state is Readable ==> is_default(
                w.read(request),
                read.pull_steps(request),
            )
        }),
{
}

/// Whether a stream is one of values, with what there is in the world of its controller.
pub open spec fn is_default(w: ReadableWorld, values: DefaultWorld) -> bool {
    &&& w.stream.slots == values.slots
    &&& w.stream.controller == ControllerModel::Default(values.controller)
    &&& w.scope == values.scope
}

/// Whether a stream is one of bytes, with what there is in the world of its controller.
pub open spec fn is_byte(w: ReadableWorld, bytes: ByteWorld) -> bool {
    &&& w.stream.slots == bytes.slots
    &&& w.stream.controller == ControllerModel::Byte(bytes.controller)
    &&& w.scope == bytes.scope
}

/// What is done to a byte stream through the stream is done by its controller, to the same slots
/// and in the same scope, and with the same result. A read into a view of a stream that has
/// failed fails with its error.
pub proof fn law_byte_stream_is_its_controller(
    w: ReadableWorld,
    view: ArrayBufferView,
    count: u64,
    error: Value,
    request: ReadRequest,
    min: usize,
    into: ReadIntoRequest,
)
    requires
        w.stream.controller is Byte,
    ensures
        ({
            let bytes = ByteWorld {
                slots: w.stream.slots,
                controller: w.stream.controller->Byte_0,
                scope: w.scope,
            };
            let read = ByteWorld {
                slots: SlotsModel { disturbed: true, ..w.stream.slots },
                ..bytes
            };
            &&& is_byte(w.enqueue_bytes(view).0, bytes.enqueue(view).0)
            &&& w.enqueue_bytes(view).1 == bytes.enqueue(view).1
            &&& is_byte(w.enqueue_rest(view), bytes.enqueue_rest(view))
            &&& is_byte(w.close_bytes().0, bytes.close().0)
            &&& w.close_bytes().1 == bytes.close().1
            &&& is_byte(w.respond_bytes(count).0, bytes.respond(count).0)
            &&& w.respond_bytes(count).1 == bytes.respond(count).1
            &&& is_byte(w.respond_with_view(view).0, bytes.respond_with_new_view(view).0)
            &&& w.respond_with_view(view).1 == bytes.respond_with_new_view(view).1
            &&& is_byte(w.errored(error), bytes.errored(error))
            &&& is_byte(w.start_fulfilled(), bytes.start_fulfilled())
            &&& is_byte(w.pull_fulfilled(), bytes.pull_fulfilled())
            &&& w.stream.slots.state is Readable ==> is_byte(
                w.read(request),
                read.pull_steps(request),
            )
            &&& w.stream.slots.state !is Errored ==> is_byte(
                w.read_into(view, min, into),
                read.pull_into(view, min, into),
            )
            &&& w.stream.slots.state is Errored ==> is_byte(
                w.read_into(view, min, into),
                ByteWorld {
                    scope: w.scope.emit(into_error_effect(into, w.stream.slots.stored_error)),
                    ..read
                },
            )
        }),
{
}

/// Bytes that are taken over are in a new buffer, and their old one is left detached and empty;
/// no other buffer changes.
pub proof fn law_buffer_taken_over(heap: Heap, buffer: usize, other: int)
    requires
        buffer < heap.len(),
        0 <= other < heap.len(),
        other != buffer,
    ensures
        ({
            let after = transferred(heap, buffer);
            let place = heap.len() as int;
            &&& after.len() == heap.len() + 1
            &&& after[place].data == heap[buffer as int].data
            &&& !after[place].detached
            &&& after[place].detachable
            &&& after[buffer as int].detached
            &&& after[buffer as int].data.len() == 0
            &&& after[other] == heap[other]
        }),
{
}

/// A buffer that is not detached shows its bytes, one that is shows none; bytes can be copied as
/// long as they are there and not too many.
pub proof fn law_buffer_shows(scope: ScopeModel, view: ArrayBufferView, count: nat)
    requires
        view.buffer < scope.heap.len(),
    ensures
        ({
            let held = scope.heap[view.buffer as int];
            &&& !held.detached ==> byte_length_of(scope.heap, view.buffer) == held.data.len()
                && view_length_of(scope.heap, view) == view.byte_length
            &&& held.detached ==> byte_length_of(scope.heap, view.buffer) == 0
                && view_length_of(scope.heap, view) == 0
            &&& can_clone(scope, view.buffer, count) <==> !held.detached && count <= scope.limit
            &&& held.detached ==> clone_error(scope, view.buffer) == Value::TypeError(
                Message::BufferDetached,
            ) && transfer_error(scope.heap, view.buffer) == Value::TypeError(
                Message::BufferDetached,
            )
            &&& !held.detached ==> clone_error(scope, view.buffer) == Value::RangeError(
                Message::BufferTooLong,
            ) && transfer_error(scope.heap, view.buffer) == Value::TypeError(
                Message::BufferNotDetachable,
            )
        }),
{
}

/// Bytes that are written over others take their place, and those around them stay.
pub proof fn law_bytes_written_over(dest: Seq<u8>, start: int, source: Seq<u8>, i: int)
    requires
        0 <= start,
        start + source.len() <= dest.len(),
        0 <= i < dest.len(),
    ensures
        spliced(dest, start, source).len() == dest.len(),
        start <= i < start + source.len() ==> spliced(dest, start, source)[i] == source[i - start],
        !(start <= i < start + source.len()) ==> spliced(dest, start, source)[i] == dest[i],
{
}

} // verus!
