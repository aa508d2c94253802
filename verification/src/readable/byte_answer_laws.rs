//! What becomes of each read and of each answer of the source of a byte stream.

use vstd::prelude::*;

use crate::buffer::{byte_length_of, can_transfer, live, ArrayBufferView, ViewKind};
use crate::number::Number;
use crate::readable::byob_request::ReadableStreamBYOBRequest;
use crate::readable::byte_attention_laws::law_bytes_pulled_as_wanted;
use crate::readable::byte_stream_controller::{
    entry_bytes, filled_view, ByteControllerModel, ByteWorld, PullIntoDescriptor,
    ReaderType,
};
use crate::readable::read_request::{
    chunk_effect, error_effect, into_chunk_effect, into_close_effect, into_error_effect,
    ReadIntoRequest, ReadRequest,
};
use crate::readable::slots::{ReaderModel, SlotsModel};
use crate::readable::value_laws::{closed_for_all, failed_for_all};
use crate::scope::{Effect, ScopeModel};
use crate::value::{Message, Value};

verus! {

/// What the end of the request of a byte stream comes to, where there is one.
pub open spec fn request_over(w: ByteWorld) -> ScopeModel {
    if w.controller.byob_request is Some {
        w.scope.emit(Effect::InvalidateByobRequest { stream: w.slots.id })
    } else {
        w.scope
    }
}

/// Why a buffer cannot be taken over.
pub open spec fn not_taken(w: ByteWorld, buffer: usize) -> Value {
    if live(w.scope.heap, buffer) {
        Value::TypeError(Message::BufferNotDetachable)
    } else {
        Value::TypeError(Message::BufferDetached)
    }
}

/// What is wrong with the answer that so many bytes were written, if anything is.
pub open spec fn count_refused(w: ByteWorld, count: u64) -> Option<Value> {
    let head = w.controller.pending[0];
    if w.slots.state is Closed && count != 0 {
        Some(Value::TypeError(Message::BytesWrittenNonZeroClosed))
    } else if w.slots.state !is Closed && count == 0 {
        Some(Value::TypeError(Message::BytesWrittenZeroReadable))
    } else if w.slots.state !is Closed && head.bytes_filled + count > head.byte_length {
        Some(Value::RangeError(Message::BytesWrittenTooLarge))
    } else if !can_transfer(w.scope.heap, head.buffer) {
        Some(not_taken(w, head.buffer))
    } else {
        None
    }
}

/// What is wrong with an answer that gives a view, if anything is: it has to begin where the
/// bytes that are there end, to be of a buffer as long as the one that was handed out, and to
/// end within the view of the read.
pub open spec fn view_refused(w: ByteWorld, view: ArrayBufferView) -> Option<Value> {
    let head = w.controller.pending[0];
    if w.slots.state is Closed && view.byte_length != 0 {
        Some(Value::TypeError(Message::ViewNonEmptyClosed))
    } else if w.slots.state !is Closed && view.byte_length == 0 {
        Some(Value::TypeError(Message::ViewEmptyReadable))
    } else if view.byte_offset != head.byte_offset + head.bytes_filled {
        Some(Value::RangeError(Message::ViewOffsetMismatch))
    } else if head.buffer_byte_length != byte_length_of(w.scope.heap, view.buffer) {
        Some(Value::RangeError(Message::ViewBufferLengthMismatch))
    } else if head.bytes_filled + view.byte_length > head.byte_length {
        Some(Value::RangeError(Message::ViewTooLong))
    } else if !can_transfer(w.scope.heap, view.buffer) {
        Some(not_taken(w, view.buffer))
    } else {
        None
    }
}

/// An answer that will not do is refused, and changes nothing.
pub proof fn law_answer_refused(w: ByteWorld, count: u64, view: ArrayBufferView)
    ensures
        count_refused(w, count) matches Some(error) ==> w.respond(count) == (
            w,
            Err::<(), Value>(error),
        ),
        view_refused(w, view) matches Some(error) ==> w.respond_with_new_view(view) == (
            w,
            Err::<(), Value>(error),
        ),
{
}

/// An answer through a request has to be a count that there can be, or a view; the request has
/// to be valid still, and the buffer not to be detached.
pub proof fn law_request_answered(
    w: ByteWorld,
    request: ReadableStreamBYOBRequest,
    count: Number,
    view: ArrayBufferView,
)
    ensures
        w.request_respond(request, count) == if !count.in_range() {
            (w, Err(Value::TypeError(Message::RespondOutOfRange)))
        } else if request.controller is None {
            (w, Err(Value::TypeError(Message::RespondInvalidated)))
        } else if !live(w.scope.heap, request.view->0.buffer) {
            (w, Err(Value::TypeError(Message::RespondDetached)))
        } else {
            w.respond(count.whole())
        },
        w.request_respond_with_new_view(request, None) == (
            w,
            Err::<(), Value>(Value::TypeError(Message::RespondNewViewNotView)),
        ),
        w.request_respond_with_new_view(request, Some(view)) == if request.controller is None {
            (w, Err(Value::TypeError(Message::RespondNewViewInvalidated)))
        } else if !live(w.scope.heap, view.buffer) {
            (w, Err(Value::TypeError(Message::RespondNewViewDetached)))
        } else {
            w.respond_with_new_view(view)
        },
{
}

/// Whether what the source has written into the view that waits first has got where it belongs.
/// `data` is what the buffer of the view holds by then, and `count` how much is new in it. As
/// long as too little is there, the view waits on with what is there. Otherwise the read that
/// waits is handed a view of the same kind and place onto the same bytes, of as many of them as
/// make whole elements; the rest waits in the queue. The views behind it wait on as they are.
pub open spec fn answer_given(w: ByteWorld, after: ByteWorld, data: Seq<u8>, count: int) -> bool {
    let head = w.controller.pending[0];
    let filled = head.bytes_filled + count;
    let rest = filled % head.element_size as int;
    let place = request_over(w).effects.len() as int;
    let queue = w.controller.queue;
    &&& after.controller.byob_request is None
    &&& request_over(w).effects.is_prefix_of(after.scope.effects)
    &&& if filled < head.minimum_fill {
        &&& after.slots == w.slots
        &&& after.controller.queue == queue
        &&& after.controller.total == w.controller.total
        &&& after.controller.pending.len() == w.controller.pending.len()
        &&& after.controller.pending.drop_first() == w.controller.pending.drop_first()
        &&& after.controller.pending[0] == (PullIntoDescriptor {
            bytes_filled: filled as usize,
            buffer: after.controller.pending[0].buffer,
            ..head
        })
        &&& live(after.scope.heap, after.controller.pending[0].buffer)
        &&& after.scope.heap[after.controller.pending[0].buffer as int].data == data
    } else {
        &&& after.controller.pending == w.controller.pending.drop_first()
        &&& exists|view: ArrayBufferView|
            {
                &&& view.kind == head.view_kind
                &&& view.byte_offset == head.byte_offset
                &&& view.byte_length == filled - rest
                &&& live(after.scope.heap, view.buffer)
                &&& after.scope.heap[view.buffer as int].data == data
                &&& place < after.scope.effects.len()
                &&& after.scope.effects[place] == #[trigger] given_to(w, view)
            }
        &&& head.reader_type is Default ==> after.slots == (SlotsModel {
            reader: ReaderModel::Default(w.slots.requests().drop_first()),
            ..w.slots
        })
        &&& head.reader_type is Byob ==> after.slots == (SlotsModel {
            reader: ReaderModel::Byob(w.slots.into_requests().drop_first()),
            ..w.slots
        })
        &&& rest == 0 ==> {
            &&& after.controller.queue == queue
            &&& after.controller.total == w.controller.total
        }
        &&& rest > 0 ==> {
            &&& after.controller.queue.len() == queue.len() + 1
            &&& after.controller.queue.drop_last() == queue
            &&& after.controller.queue.last().byte_length == rest
            &&& entry_bytes(after.scope.heap, after.controller.queue.last()) == data.subrange(
                head.byte_offset + filled - rest,
                head.byte_offset + filled,
            )
            &&& after.controller.total == w.controller.total + rest
        }
    }
}

/// How the read that waits first is handed a view.
pub open spec fn given_to(w: ByteWorld, view: ArrayBufferView) -> Effect {
    if w.controller.pending[0].reader_type is Default {
        chunk_effect(w.slots.requests()[0], Value::Bytes(view))
    } else {
        into_chunk_effect(w.slots.into_requests()[0], Value::Bytes(view))
    }
}

/// Whether a view waits to be filled, for a read that waits too, and no bytes wait behind its
/// back for another.
pub open spec fn one_waits(w: ByteWorld) -> bool {
    let head = w.controller.pending[0];
    &&& w.slots.state is Readable
    &&& w.controller.pending.len() > 0
    &&& w.controller.pending.len() > 1 ==> w.controller.total == 0
    &&& head.element_size > 0
    &&& head.byte_offset + head.byte_length <= head.buffer_byte_length
    &&& match head.reader_type {
        ReaderType::Default => w.slots.requests().len() > 0,
        ReaderType::Byob => w.slots.into_requests().len() > 0,
        ReaderType::Released => false,
    }
    &&& w.controller.total + usize::MAX <= u128::MAX
}

/// Whether an answer leaves nothing over that the next view would get.
pub open spec fn nothing_over(w: ByteWorld, count: int) -> bool {
    let head = w.controller.pending[0];
    let filled = head.bytes_filled + count;
    ||| w.controller.pending.len() == 1
    ||| filled < head.minimum_fill
    ||| filled % head.element_size as int == 0
}

/// What is left of a number after whole elements is no more than the number.
proof fn lemma_remainder(number: int, size: int)
    requires
        number >= 0,
        size > 0,
    ensures
        0 <= number % size <= number,
{
    assert(0 <= number % size <= number) by (nonlinear_arith)
        requires
            number >= 0,
            size > 0,
    ;
}

/// What an answer comes to before the source is asked for more.
#[verifier::rlimit(30)]
proof fn lemma_answer_readable(w: ByteWorld, count: usize)
    requires
        one_waits(w),
        nothing_over(w, count as int),
        w.controller.byob_request is None,
        w.scope.heap.len() + 3 <= usize::MAX,
        w.controller.pending[0].bytes_filled + count <= w.controller.pending[0].byte_length,
        live(w.scope.heap, w.controller.pending[0].buffer),
        w.scope.heap[w.controller.pending[0].buffer as int].data.len()
            == w.controller.pending[0].buffer_byte_length,
        w.controller.pending[0].byte_length <= w.scope.limit,
    ensures
        w.respond_readable(count).1 is Ok,
        answer_given(
            w,
            w.respond_readable(count).0,
            w.scope.heap[w.controller.pending[0].buffer as int].data,
            count as int,
        ),
{
    let head = w.controller.pending[0];
    let data = w.scope.heap[head.buffer as int].data;
    let filled = PullIntoDescriptor {
        bytes_filled: (head.bytes_filled + count) as usize,
        ..head
    };
    let after = w.respond_readable(count).0;
    lemma_remainder(filled.bytes_filled as int, filled.element_size as int);
    if filled.bytes_filled < filled.minimum_fill {
        assert(after.controller.pending.drop_first() =~= w.controller.pending.drop_first());
    } else {
        let remainder = filled.bytes_filled % filled.element_size;
        let rest = w.with_controller(w.controller.shifted());
        let (left, result) = if remainder > 0 {
            rest.enqueue_cloned(
                filled.buffer,
                (filled.byte_offset + filled.bytes_filled - remainder) as usize,
                remainder,
            )
        } else {
            (rest, Ok(()))
        };
        let whole = PullIntoDescriptor {
            bytes_filled: (filled.bytes_filled - remainder) as usize,
            ..filled
        };
        assert(after == left.commit(whole)) by {
            lemma_one_committed(left, whole);
        }
        let view = filled_view(whole, left.scope.heap.len() as usize);
        assert(after.scope.effects[w.scope.effects.len() as int] == given_to(w, view));
        assert(after.scope.heap[view.buffer as int].data == data);
        if remainder > 0 {
            assert(after.controller.queue.drop_last() =~= w.controller.queue);
            let last = after.controller.queue.last();
            assert(last.buffer == w.scope.heap.len());
            assert(entry_bytes(after.scope.heap, last) =~= data.subrange(
                head.byte_offset + filled.bytes_filled - remainder,
                head.byte_offset + filled.bytes_filled,
            ));
        }
    }
}

/// Where no other view waits, or no bytes do, only the one that is ready is handed out.
proof fn lemma_one_committed(w: ByteWorld, descriptor: PullIntoDescriptor)
    requires
        w.controller.pending.len() == 0 || w.controller.total == 0,
    ensures
        w.process_and_commit(seq![descriptor]) == w.commit(descriptor),
        w.process_and_commit(Seq::empty()) == w,
{
    let one = seq![descriptor];
    let none = Seq::<PullIntoDescriptor>::empty();
    assert(one + none =~= one);
    assert(none + none =~= none);
    assert(one.drop_first() =~= none);
    assert(w.commit_all(none) == w);
    assert(w.commit(descriptor).commit_all(none) == w.commit(descriptor));
    assert(w.commit_all(one) == w.commit(one[0]).commit_all(one.drop_first()));
}

/// To ask the source for more takes nothing from what an answer has given.
proof fn lemma_answer_stays(w: ByteWorld, given: ByteWorld, data: Seq<u8>, count: int)
    requires
        answer_given(w, given, data, count),
    ensures
        answer_given(w, given.call_pull(), data, count),
{
    law_bytes_pulled_as_wanted(given);
    let after = given.call_pull();
    let head = w.controller.pending[0];
    let filled = head.bytes_filled + count;
    assert(given.scope.effects.is_prefix_of(after.scope.effects));
    assert(after.scope.heap == given.scope.heap);
    if filled >= head.minimum_fill {
        let place = request_over(w).effects.len() as int;
        let rest = filled % head.element_size as int;
        let view = choose|view: ArrayBufferView|
            {
                &&& view.kind == head.view_kind
                &&& view.byte_offset == head.byte_offset
                &&& view.byte_length == filled - rest
                &&& live(given.scope.heap, view.buffer)
                &&& given.scope.heap[view.buffer as int].data == data
                &&& place < given.scope.effects.len()
                &&& given.scope.effects[place] == #[trigger] given_to(w, view)
            };
        assert(after.scope.effects[place] == given_to(w, view));
    }
}

proof fn lemma_answer(w: ByteWorld, count: usize)
    requires
        one_waits(w),
        nothing_over(w, count as int),
        w.scope.heap.len() + 3 <= usize::MAX,
        w.controller.pending[0].bytes_filled + count <= w.controller.pending[0].byte_length,
        live(w.scope.heap, w.controller.pending[0].buffer),
        w.scope.heap[w.controller.pending[0].buffer as int].data.len()
            == w.controller.pending[0].buffer_byte_length,
        w.controller.pending[0].byte_length <= w.scope.limit,
    ensures
        w.respond_internal(count).1 is Ok,
        answer_given(
            w,
            w.respond_internal(count).0,
            w.scope.heap[w.controller.pending[0].buffer as int].data,
            count as int,
        ),
{
    let valid = w.invalidated();
    let data = w.scope.heap[w.controller.pending[0].buffer as int].data;
    lemma_answer_readable(valid, count);
    let given = valid.respond_readable(count).0;
    lemma_answer_stays(valid, given, data, count as int);
    lemma_given_to(w, valid, given.call_pull(), data, count as int);
}

/// An answer with a count is about the buffer that was handed out: what that holds goes to the
/// read that waits, once enough is there.
pub proof fn law_answer_with_count(w: ByteWorld, count: u64)
    requires
        one_waits(w),
        nothing_over(w, count as int),
        w.scope.heap.len() + 4 <= usize::MAX,
        count_refused(w, count) is None,
        w.scope.heap[w.controller.pending[0].buffer as int].data.len()
            == w.controller.pending[0].buffer_byte_length,
        w.controller.pending[0].byte_length <= w.scope.limit,
    ensures
        w.respond(count).1 is Ok,
        answer_given(
            w,
            w.respond(count).0,
            w.scope.heap[w.controller.pending[0].buffer as int].data,
            count as int,
        ),
{
    let moved = w.move_head(w.controller.pending[0].buffer);
    assert(moved.controller.pending.drop_first() =~= w.controller.pending.drop_first());
    lemma_answer(moved, count as usize);
    let after = w.respond(count).0;
    let data = w.scope.heap[w.controller.pending[0].buffer as int].data;
    lemma_given_to(w, moved, after, data, count as int);
}

/// An answer with a view is about the buffer of that view, which may be another one than was
/// handed out.
pub proof fn law_answer_with_view(w: ByteWorld, view: ArrayBufferView)
    requires
        one_waits(w),
        nothing_over(w, view.byte_length as int),
        w.scope.heap.len() + 4 <= usize::MAX,
        view_refused(w, view) is None,
        w.controller.pending[0].byte_length <= w.scope.limit,
    ensures
        w.respond_with_new_view(view).1 is Ok,
        answer_given(
            w,
            w.respond_with_new_view(view).0,
            w.scope.heap[view.buffer as int].data,
            view.byte_length as int,
        ),
{
    let moved = w.move_head(view.buffer);
    assert(moved.controller.pending.drop_first() =~= w.controller.pending.drop_first());
    lemma_answer(moved, view.byte_length);
    let after = w.respond_with_new_view(view).0;
    lemma_given_to(w, moved, after, w.scope.heap[view.buffer as int].data, view.byte_length as int);
}

proof fn lemma_given_to(
    w: ByteWorld,
    moved: ByteWorld,
    after: ByteWorld,
    data: Seq<u8>,
    count: int,
)
    requires
        moved.slots == w.slots,
        request_over(moved).effects == request_over(w).effects,
        moved.controller.queue == w.controller.queue,
        moved.controller.total == w.controller.total,
        moved.controller.pending.len() == w.controller.pending.len(),
        moved.controller.pending.drop_first() == w.controller.pending.drop_first(),
        moved.controller.pending[0] == (PullIntoDescriptor {
            buffer: moved.controller.pending[0].buffer,
            ..w.controller.pending[0]
        }),
        answer_given(moved, after, data, count),
    ensures
        answer_given(w, after, data, count),
{
    let head = w.controller.pending[0];
    let filled = head.bytes_filled + count;
    if filled >= head.minimum_fill {
        let place = request_over(moved).effects.len() as int;
        let rest = filled % head.element_size as int;
        let view = choose|view: ArrayBufferView|
            {
                &&& view.kind == head.view_kind
                &&& view.byte_offset == head.byte_offset
                &&& view.byte_length == filled - rest
                &&& live(after.scope.heap, view.buffer)
                &&& after.scope.heap[view.buffer as int].data == data
                &&& place < after.scope.effects.len()
                &&& after.scope.effects[place] == #[trigger] given_to(moved, view)
            };
        assert(after.scope.effects[place] == given_to(w, view));
    }
}

/// A view whose reader has let go of it leaves what was written into it to the queue.
#[verifier::rlimit(30)]
pub proof fn law_answer_after_release(w: ByteWorld, count: u64)
    requires
        w.slots.state is Readable,
        w.controller.pending.len() == 1,
        w.controller.pending[0].reader_type is Released,
        count_refused(w, count) is None,
        w.scope.heap[w.controller.pending[0].buffer as int].data.len()
            == w.controller.pending[0].buffer_byte_length,
        w.controller.pending[0].byte_offset + w.controller.pending[0].byte_length
            <= w.controller.pending[0].buffer_byte_length,
        w.controller.pending[0].byte_length <= w.scope.limit,
        w.scope.heap.len() + 4 <= usize::MAX,
        w.controller.total + usize::MAX <= u128::MAX,
    ensures
        ({
            let (after, result) = w.respond(count);
            let head = w.controller.pending[0];
            let filled = head.bytes_filled + count;
            let data = w.scope.heap[head.buffer as int].data;
            &&& result is Ok
            &&& after.slots == w.slots
            &&& after.controller.pending.len() == 0
            &&& after.controller.queue.len() == w.controller.queue.len() + 1
            &&& after.controller.queue.drop_last() == w.controller.queue
            &&& after.controller.queue.last().byte_length == filled
            &&& entry_bytes(after.scope.heap, after.controller.queue.last()) == data.subrange(
                head.byte_offset as int,
                head.byte_offset + filled,
            )
            &&& after.controller.total == w.controller.total + filled
        }),
{
    let head = w.controller.pending[0];
    let moved = w.move_head(head.buffer).invalidated();
    let filled = PullIntoDescriptor {
        bytes_filled: (head.bytes_filled + count) as usize,
        ..moved.controller.pending[0]
    };
    let held = moved.with_controller(moved.controller.with_head(filled));
    let (left, result) = held.enqueue_detached();
    assert(held.controller.pending[0] == filled);
    assert(result is Ok);
    lemma_one_committed(left, head);
    law_bytes_pulled_as_wanted(left);
    let after = w.respond(count).0;
    assert(after == left.call_pull());
    let data = w.scope.heap[head.buffer as int].data;
    assert(left.controller.queue.drop_last() =~= w.controller.queue);
    assert(after.scope.heap == left.scope.heap);
    assert(entry_bytes(left.scope.heap, left.controller.queue.last()) =~= data.subrange(
        head.byte_offset as int,
        head.byte_offset + filled.bytes_filled,
    ));
}

/// Bytes that the source gives after a reader has let go of a view come behind those that are in
/// the view already, which wait in the queue from then on, in a buffer of their own. Where these
/// cannot be copied, the stream fails.
#[verifier::rlimit(30)]
pub proof fn law_bytes_after_release(w: ByteWorld, chunk: ArrayBufferView)
    requires
        w.slots.state is Readable,
        w.slots.reader is Unlocked,
        !w.controller.close_requested,
        w.controller.pending.len() == 1,
        w.controller.pending[0].reader_type is Released,
        w.controller.pending[0].buffer < w.scope.heap.len(),
        live(w.scope.heap, w.controller.pending[0].buffer),
        w.controller.pending[0].byte_offset + w.controller.pending[0].bytes_filled
            <= w.scope.heap[w.controller.pending[0].buffer as int].data.len(),
        can_transfer(w.scope.heap, chunk.buffer),
        chunk.buffer != w.controller.pending[0].buffer,
        chunk.byte_offset + chunk.byte_length <= w.scope.heap[chunk.buffer as int].data.len(),
        w.scope.heap.len() + 4 <= usize::MAX,
        w.controller.total + 2 * usize::MAX <= u128::MAX,
    ensures
        ({
            let (after, result) = w.enqueue(chunk);
            let head = w.controller.pending[0];
            let held = w.scope.heap[head.buffer as int].data.subrange(
                head.byte_offset as int,
                head.byte_offset + head.bytes_filled,
            );
            let given = w.scope.heap[chunk.buffer as int].data.subrange(
                chunk.byte_offset as int,
                chunk.byte_offset + chunk.byte_length,
            );
            let queue = after.controller.queue;
            let before = w.controller.queue;
            if head.bytes_filled > w.scope.limit {
                &&& result == Err::<(), Value>(Value::RangeError(Message::BufferTooLong))
                &&& after.slots.state is Errored
                &&& after.slots.stored_error == Value::RangeError(Message::BufferTooLong)
            } else {
                &&& result is Ok
                &&& after.slots == w.slots
                &&& after.controller.pending.len() == 0
                &&& after.controller.byob_request is None
                &&& after.controller.total == w.controller.total + head.bytes_filled
                    + chunk.byte_length
                &&& queue.take(before.len() as int) == before
                &&& queue.last().byte_length == chunk.byte_length
                &&& entry_bytes(after.scope.heap, queue.last()) == given
                &&& head.bytes_filled == 0 ==> queue.len() == before.len() + 1
                &&& head.bytes_filled > 0 ==> {
                    &&& queue.len() == before.len() + 2
                    &&& queue[before.len() as int].byte_length == head.bytes_filled
                    &&& entry_bytes(after.scope.heap, queue[before.len() as int]) == held
                }
            }
        }),
{
    let head = w.controller.pending[0];
    let moved = w.with_heap(crate::buffer::transferred(w.scope.heap, chunk.buffer));
    let retaken = moved.retake_head();
    let (ready, result) = retaken.enqueue_detached();
    let (after, _) = w.enqueue(chunk);
    assert(retaken.controller.pending[0] == (PullIntoDescriptor {
        buffer: moved.scope.heap.len() as usize,
        ..head
    }));
    assert(retaken.scope.heap[moved.scope.heap.len() as int].data == w.scope.heap[
        head.buffer as int].data);
    if head.bytes_filled <= w.scope.limit {
        assert(result is Ok);
        let taken = ready.take_chunk(
            w.scope.heap.len() as usize,
            chunk.byte_offset,
            chunk.byte_length,
        ).0;
        law_bytes_pulled_as_wanted(taken);
        assert(after == taken.call_pull());
        assert(after.scope.heap == taken.scope.heap);
        let queue = taken.controller.queue;
        assert(queue.take(w.controller.queue.len() as int) =~= w.controller.queue);
        assert(entry_bytes(taken.scope.heap, queue.last()) =~= w.scope.heap[
            chunk.buffer as int].data.subrange(
            chunk.byte_offset as int,
            chunk.byte_offset + chunk.byte_length,
        ));
        if head.bytes_filled > 0 {
            assert(entry_bytes(taken.scope.heap, queue[w.controller.queue.len() as int])
                =~= w.scope.heap[head.buffer as int].data.subrange(
                head.byte_offset as int,
                head.byte_offset + head.bytes_filled,
            ));
        }
    }
}

proof fn lemma_closed_views(w: ByteWorld, descriptors: Seq<PullIntoDescriptor>)
    requires
        w.slots.state is Closed,
        w.slots.into_requests().len() >= descriptors.len(),
        forall|i: int|
            0 <= i < descriptors.len() ==> (#[trigger] descriptors[i]).reader_type !is Default
                && descriptors[i].buffer < w.scope.heap.len(),
        w.scope.heap.len() + descriptors.len() <= usize::MAX,
    ensures
        ({
            let after = w.commit_all(descriptors);
            let first = w.scope.effects.len() as int;
            &&& after.controller == w.controller
            &&& after.slots.state is Closed
            &&& descriptors.len() > 0 ==> after.slots.into_requests() == w.slots.into_requests(
            ).skip(descriptors.len() as int)
            &&& after.scope.effects.len() == first + descriptors.len()
            &&& w.scope.effects.is_prefix_of(after.scope.effects)
            &&& forall|i: int|
                0 <= i < descriptors.len() ==> #[trigger] after.scope.effects[first + i]
                    == into_close_effect(
                    w.slots.into_requests()[i],
                    Value::Bytes(
                        filled_view(descriptors[i], (w.scope.heap.len() + i) as usize),
                    ),
                )
        }),
    decreases descriptors.len(),
{
    if descriptors.len() > 0 {
        let next = w.commit(descriptors[0]);
        let rest = descriptors.drop_first();
        assert forall|i: int| 0 <= i < rest.len() implies (
        #[trigger] rest[i]).reader_type !is Default && rest[i].buffer < next.scope.heap.len() by {
            assert(rest[i] == descriptors[i + 1]);
        }
        lemma_closed_views(next, rest);
        let after = w.commit_all(descriptors);
        let first = w.scope.effects.len() as int;
        assert(after.slots.into_requests() =~= w.slots.into_requests().skip(
            descriptors.len() as int,
        ));
        assert forall|i: int| 0 <= i < descriptors.len() implies
            #[trigger] after.scope.effects[first + i] == into_close_effect(
            w.slots.into_requests()[i],
            Value::Bytes(filled_view(descriptors[i], (w.scope.heap.len() + i) as usize)),
        ) by {
            if i == 0 {
                assert(after.scope.effects[first] == next.scope.effects[first]);
            } else {
                assert(after.scope.effects[first + i] == after.scope.effects[
                    next.scope.effects.len() + (i - 1)]);
                assert(rest[i - 1] == descriptors[i]);
                assert(next.slots.into_requests()[i - 1] == w.slots.into_requests()[i]);
            }
        }
    }
}

/// The answer that a stream which has closed waits for hands every view back, with the end of
/// the stream, to the read that it came with, in order.
pub proof fn law_answer_after_close(w: ByteWorld)
    requires
        w.slots.state is Closed,
        w.slots.reader is Byob,
        w.controller.pending.len() > 0,
        w.controller.pending.len() == w.slots.into_requests().len(),
        forall|i: int|
            0 <= i < w.controller.pending.len() ==> (
            #[trigger] w.controller.pending[i]).reader_type is Byob && w.controller.pending[i].buffer
                < w.scope.heap.len(),
        can_transfer(w.scope.heap, w.controller.pending[0].buffer),
        w.scope.heap.len() + w.controller.pending.len() + 1 <= usize::MAX,
    ensures
        ({
            let (after, result) = w.respond(0);
            let pending = w.controller.pending;
            let place = request_over(w).effects.len() as int;
            &&& result is Ok
            &&& after.controller.pending.len() == 0
            &&& after.slots.into_requests().len() == 0
            &&& after.scope.effects.len() == place + pending.len()
            &&& forall|i: int|
                0 <= i < pending.len() ==> #[trigger] after.scope.effects[place + i]
                    == into_close_effect(
                    w.slots.into_requests()[i],
                    Value::Bytes(
                        ArrayBufferView {
                            kind: pending[i].view_kind,
                            buffer: (w.scope.heap.len() + 1 + i) as usize,
                            byte_offset: pending[i].byte_offset,
                            byte_length: pending[i].bytes_filled,
                        },
                    ),
                )
        }),
{
    let moved = w.move_head(w.controller.pending[0].buffer).invalidated();
    let pending = moved.controller.pending;
    let count = pending.len() as int;
    assert(pending.take(count) =~= pending);
    let left = moved.with_controller(
        ByteControllerModel { pending: pending.skip(count), ..moved.controller },
    );
    lemma_closed_views(left, pending);
    assert(moved.respond_closed() == left.commit_all(pending));
}

/// A read into a view that is not taken over at once waits with what is asked of it: where the
/// bytes are to go, how many of them make an element, and how many are needed at least.
pub open spec fn waits_with(
    w: ByteWorld,
    view: ArrayBufferView,
    min: usize,
    filled: int,
) -> PullIntoDescriptor {
    PullIntoDescriptor {
        buffer: w.scope.heap.len() as usize,
        buffer_byte_length: w.scope.heap[view.buffer as int].data.len() as usize,
        byte_offset: view.byte_offset,
        byte_length: view.byte_length,
        bytes_filled: filled as usize,
        minimum_fill: (min * view.kind.size()) as usize,
        element_size: view.kind.size() as usize,
        view_kind: view.kind,
        reader_type: ReaderType::Byob,
    }
}

/// A read into a view takes the view over. It is told of the end where the stream has closed; it
/// waits where others do, or where too few bytes are there, with those that are; otherwise it is
/// handed the bytes that make whole elements. Where the stream is to close and has too few
/// bytes left for the read, both fail.
pub proof fn law_read_into_outcome(
    w: ByteWorld,
    view: ArrayBufferView,
    min: usize,
    request: ReadIntoRequest,
)
    requires
        w.scope.heap.len() + 2 <= usize::MAX,
        min * view.kind.size() <= usize::MAX,
    ensures
        ({
            let after = w.pull_into(view, min, request);
            let size = view.kind.size() as int;
            let total = w.controller.total as int;
            let most = if total <= view.byte_length {
                total
            } else {
                view.byte_length as int
            };
            let whole = most - most % size;
            let waiting = w.slots.into_requests().push(request);
            let short = Value::TypeError(Message::InsufficientBytesRequested);
            if !can_transfer(w.scope.heap, view.buffer) {
                after == w.emit(into_error_effect(request, not_taken(w, view.buffer)))
            } else if w.controller.pending.len() > 0 {
                &&& after.controller.pending == w.controller.pending.push(
                    waits_with(w, view, min, 0),
                )
                &&& after.slots.into_requests() == waiting
                &&& after.controller.queue == w.controller.queue
            } else if w.slots.state is Closed {
                &&& after.slots == w.slots
                &&& after.controller == w.controller
                &&& after.scope.effects == w.scope.effects.push(
                    into_close_effect(
                        request,
                        Value::Bytes(
                            ArrayBufferView {
                                buffer: w.scope.heap.len() as usize,
                                byte_length: 0,
                                ..view
                            },
                        ),
                    ),
                )
            } else if total == 0 {
                &&& after.controller.pending.len() == 1
                &&& after.controller.pending[0] == waits_with(w, view, min, 0)
                &&& after.slots.into_requests() == waiting
                &&& after.slots.state == w.slots.state
                &&& after.controller.queue == w.controller.queue
            } else if whole >= min * size {
                &&& after.controller.pending.len() == 0
                &&& after.controller.total == total - whole
                &&& after.scope.effects.last() == into_chunk_effect(
                    request,
                    Value::Bytes(
                        ArrayBufferView {
                            buffer: (w.scope.heap.len() + 1) as usize,
                            byte_length: whole as usize,
                            ..view
                        },
                    ),
                )
                &&& if total == whole && w.controller.close_requested {
                    after.slots.state is Closed
                } else {
                    after.slots == w.slots
                }
            } else if w.controller.close_requested {
                &&& after.scope.effects.last() == into_error_effect(request, short)
                &&& w.slots.state is Readable ==> {
                    &&& after.slots.state is Errored
                    &&& after.slots.stored_error == short
                    &&& after.controller.queue.len() == 0
                }
            } else {
                &&& after.controller.pending.len() == 1
                &&& after.controller.pending[0] == waits_with(w, view, min, most)
                &&& after.slots.into_requests() == waiting
                &&& after.controller.total == total - most
            }
        }),
{
    let size = view.kind.size() as int;
    let total = w.controller.total as int;
    let most = if total <= view.byte_length {
        total
    } else {
        view.byte_length as int
    };
    assert(size > 0);
    assert(0 <= most % size <= most) by (nonlinear_arith)
        requires
            size > 0,
            most >= 0,
    ;
}

/// A read is handed the bytes that have waited longest, as they came in; where none wait, it
/// waits, with a new buffer of zeros where the stream makes its own, unless that cannot be made.
pub proof fn law_byte_read_outcome(w: ByteWorld, request: ReadRequest)
    requires
        w.controller.total > 0 ==> w.controller.queue.len() > 0 && w.controller.queue[0].byte_length
            <= w.controller.total,
        w.scope.heap.len() < usize::MAX,
    ensures
        ({
            let after = w.pull_steps(request);
            let first = w.controller.queue[0];
            let size = w.controller.auto_allocate_chunk_size;
            if w.controller.total > 0 {
                &&& after.scope.effects.last() == chunk_effect(
                    request,
                    Value::Bytes(
                        ArrayBufferView {
                            kind: ViewKind::Uint8,
                            buffer: first.buffer,
                            byte_offset: first.byte_offset,
                            byte_length: first.byte_length,
                        },
                    ),
                )
                &&& after.controller.queue == w.controller.queue.drop_first()
                &&& after.controller.total == w.controller.total - first.byte_length
                &&& after.controller.pending == w.controller.pending
                &&& after.scope.heap == w.scope.heap
            } else if size is None {
                &&& after.slots == (SlotsModel {
                    reader: ReaderModel::Default(w.slots.requests().push(request)),
                    ..w.slots
                })
                &&& after.controller.pending == w.controller.pending
                &&& after.scope.heap == w.scope.heap
            } else if size->0 > w.scope.limit {
                after == w.emit(error_effect(request, Value::RangeError(Message::BufferTooLong)))
            } else {
                &&& after.slots == (SlotsModel {
                    reader: ReaderModel::Default(w.slots.requests().push(request)),
                    ..w.slots
                })
                &&& after.controller.pending == w.controller.pending.push(
                    PullIntoDescriptor {
                        buffer: w.scope.heap.len() as usize,
                        buffer_byte_length: size->0,
                        byte_offset: 0,
                        byte_length: size->0,
                        bytes_filled: 0,
                        minimum_fill: 1,
                        element_size: 1,
                        view_kind: ViewKind::Uint8,
                        reader_type: ReaderType::Default,
                    },
                )
                &&& after.scope.heap.len() == w.scope.heap.len() + 1
                &&& after.scope.heap.drop_last() == w.scope.heap
                &&& live(after.scope.heap, w.scope.heap.len() as usize)
                &&& after.scope.heap.last().data.len() == size->0
                &&& forall|i: int| 0 <= i < size->0 ==> after.scope.heap.last().data[i] == 0
            }
        }),
{
    let after = w.pull_steps(request);
    if w.controller.total == 0 && (w.controller.auto_allocate_chunk_size matches Some(size) && size
        <= w.scope.limit) {
        assert(after.scope.heap.drop_last() =~= w.scope.heap);
    }
}

/// A byte stream that its source closes ends at once where nothing waits to be read, and whoever
/// waited is told; otherwise what waits can still be read, and nothing more is taken. Where an
/// element is there in part only, the stream fails.
pub proof fn law_byte_stream_closed(w: ByteWorld)
    ensures
        ({
            let (after, result) = w.close();
            let head = w.controller.pending[0];
            let short = Value::TypeError(Message::InsufficientBytesPending);
            if w.slots.state !is Readable || w.controller.close_requested {
                after == w && result is Ok
            } else if w.controller.total > 0 {
                &&& result is Ok
                &&& after.slots == w.slots
                &&& after.scope == w.scope
                &&& after.controller == (ByteControllerModel {
                    close_requested: true,
                    ..w.controller
                })
            } else if w.controller.pending.len() > 0 && head.bytes_filled as int
                % head.element_size as int != 0 {
                &&& result == Err::<(), Value>(short)
                &&& after.slots.state is Errored
                &&& after.slots.stored_error == short
                &&& after.controller.pending.len() == 0
            } else {
                &&& result is Ok
                &&& closed_for_all(w.slots, w.scope.effects, after.slots, after.scope.effects)
                &&& after.controller.pending == w.controller.pending
                &&& after.slots.into_requests() == w.slots.into_requests()
            }
        }),
{
}

/// A byte stream that its source fails drops what waits to be read and the views that wait to be
/// filled, and whoever waited is told of the error. One that has ended stays as it is.
pub proof fn law_byte_stream_failed(w: ByteWorld, error: Value)
    ensures
        w.slots.state !is Readable ==> w.errored(error) == w,
        w.slots.state is Readable ==> {
            let after = w.errored(error);
            &&& failed_for_all(
                w.slots,
                request_over(w).effects,
                after.slots,
                after.scope.effects,
                error,
            )
            &&& after.controller.queue.len() == 0
            &&& after.controller.total == 0
            &&& after.controller.pending.len() == 0
            &&& after.controller.byob_request is None
            &&& after.scope.heap == w.scope.heap
        },
{
}

/// What the author may do with the controller of a byte stream.
pub proof fn law_byte_author_permitted(w: ByteWorld, chunk: ArrayBufferView)
    ensures
        w.author_close() == if w.controller.close_requested {
            (w, Err(Value::TypeError(Message::ByteCloseRequested)))
        } else if w.slots.state !is Readable {
            (w, Err(Value::TypeError(Message::ByteCloseNotReadable)))
        } else {
            w.close()
        },
        w.author_enqueue(None) == (
            w,
            Err::<(), Value>(Value::TypeError(Message::EnqueueNotView)),
        ),
        w.author_enqueue(Some(chunk)) == if !live(w.scope.heap, chunk.buffer) || chunk.byte_length
            == 0 {
            (w, Err(Value::TypeError(Message::EnqueueEmptyView)))
        } else if w.scope.heap[chunk.buffer as int].data.len() == 0 {
            (w, Err(Value::TypeError(Message::EnqueueEmptyBuffer)))
        } else if w.controller.close_requested {
            (w, Err(Value::TypeError(Message::EnqueueCloseRequested)))
        } else if w.slots.state !is Readable {
            (w, Err(Value::TypeError(Message::EnqueueNotReadable)))
        } else {
            w.enqueue(chunk)
        },
{
}

/// A chunk whose buffer cannot be taken over is refused, as is any while the buffer of the view
/// that waits first is gone; a stream that takes no more bytes stays as it is.
pub proof fn law_bytes_refused(w: ByteWorld, chunk: ArrayBufferView)
    ensures
        ({
            let (after, result) = w.enqueue(chunk);
            let pending = w.controller.pending;
            if w.controller.close_requested || w.slots.state !is Readable {
                after == w && result is Ok
            } else if !live(w.scope.heap, chunk.buffer) {
                after == w && result == Err::<(), Value>(
                    Value::TypeError(Message::EnqueueDetached),
                )
            } else if !w.scope.heap[chunk.buffer as int].detachable {
                after == w && result == Err::<(), Value>(
                    Value::TypeError(Message::BufferNotDetachable),
                )
            } else {
                &&& pending.len() > 0 && pending[0].buffer < w.scope.heap.len() && w.scope.heap[
                pending[0].buffer as int].detached ==> {
                    &&& result == Err::<(), Value>(
                        Value::TypeError(Message::PendingPullIntoDetached),
                    )
                    &&& after.slots == w.slots
                    &&& after.controller == w.controller
                }
                &&& pending.len() == 0 ==> result is Ok
            }
        }),
{
}

/// The view that waits first is what a request of the source shows: the part of it that has not
/// been filled yet. Where none waits there is no request; one that was made stays.
pub proof fn law_request_shows_view(w: ByteWorld)
    ensures
        ({
            let after = w.with_byob_request();
            let head = w.controller.pending[0];
            &&& after.slots == w.slots
            &&& after.scope == w.scope
            &&& after.controller == (ByteControllerModel {
                byob_request: after.controller.byob_request,
                ..w.controller
            })
            &&& w.controller.byob_request is Some ==> after.controller.byob_request
                == w.controller.byob_request
            &&& w.controller.byob_request is None && w.controller.pending.len() == 0
                ==> after.controller.byob_request is None
            &&& w.controller.byob_request is None && w.controller.pending.len() > 0
                ==> after.controller.byob_request == Some(
                ReadableStreamBYOBRequest {
                    controller: Some(w.slots.id),
                    view: Some(
                        ArrayBufferView {
                            kind: ViewKind::Uint8,
                            buffer: head.buffer,
                            byte_offset: (head.byte_offset + head.bytes_filled) as usize,
                            byte_length: (head.byte_length - head.bytes_filled) as usize,
                        },
                    ),
                },
            )
        }),
{
}

/// A reader that lets go of a byte stream leaves the view that waits first with the source, and
/// takes the others with it.
pub proof fn law_release_leaves_view(controller: ByteControllerModel)
    ensures
        controller.pending.len() == 0 ==> controller.released() == controller,
        controller.pending.len() > 0 ==> controller.released() == (ByteControllerModel {
            pending: seq![
                PullIntoDescriptor {
                    reader_type: ReaderType::Released,
                    ..controller.pending[0]
                },
            ],
            ..controller
        }),
{
}

/// What there is of bytes goes to the views that wait, the first of them first: into each as
/// many as it has room for. One that has what it needs by then takes whole elements only, and is
/// ready; the first that has not waits on, and no view behind it gets anything.
pub proof fn law_views_filled_in_turn(w: ByteWorld)
    requires
        w.controller.pending.len() > 0,
        w.controller.total > 0,
        w.controller.pending[0].element_size > 0,
        w.controller.pending[0].bytes_filled <= w.controller.pending[0].byte_length,
        w.controller.pending[0].bytes_filled < w.controller.pending[0].minimum_fill,
    ensures
        ({
            let (after, ready) = w.process_pull_intos();
            let head = w.controller.pending[0];
            let total = w.controller.total as int;
            let room = head.byte_length - head.bytes_filled;
            let most = head.bytes_filled + if total <= room {
                total
            } else {
                room
            };
            let whole = most - most % head.element_size as int;
            if whole >= head.minimum_fill {
                let taken = whole - head.bytes_filled;
                let rest = w.fill(head);
                let (end, others) = rest.with_controller(
                    ByteControllerModel {
                        pending: w.controller.pending.drop_first(),
                        ..rest.controller
                    },
                ).process_pull_intos();
                &&& rest.controller.total == total - taken
                &&& ready.len() == others.len() + 1
                &&& ready[0] == (PullIntoDescriptor { bytes_filled: whole as usize, ..head })
                &&& ready.drop_first() == others
                &&& after == end
            } else {
                &&& ready.len() == 0
                &&& after.slots == w.slots
                &&& after.scope.effects == w.scope.effects
                &&& after.controller.total == total - (most - head.bytes_filled)
                &&& after.controller.pending == w.controller.pending.update(
                    0,
                    PullIntoDescriptor { bytes_filled: most as usize, ..head },
                )
            }
        }),
{
    let (after, ready) = w.process_pull_intos();
    let head = w.controller.pending[0];
    let room = head.byte_length - head.bytes_filled;
    let most = head.bytes_filled + if w.controller.total <= room {
        w.controller.total as int
    } else {
        room
    };
    lemma_remainder(most, head.element_size as int);
    let rest = w.fill(head);
    let (end, others) = rest.with_controller(rest.controller.shifted()).process_pull_intos();
    if crate::readable::byte_stream_controller::fill_ready(w.controller.total, head) {
        assert(ready.drop_first() =~= others);
    }
}

} // verus!
