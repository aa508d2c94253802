//! That a readable byte stream hands out the bytes that came in, in their order.

use vstd::prelude::*;

use crate::buffer::{
    byte_length_of, can_transfer, live, spliced, transferred, ArrayBufferView, Heap, ViewKind,
};
use crate::readable::byte_flow_laws::law_byte_enqueue;
use crate::readable::byte_frame::{
    lemma_commit_within, lemma_process_within, lemma_rest_is_awaited,
};
use crate::readable::byte_memory::{
    apart, lemma_commit, lemma_commit_all, lemma_fill_shift, lemma_new_buffer_apart, lemma_prepare_head,
    lemma_process, lemma_retake_head, lemma_transfer_foreign, lemma_with_entry, same_region,
};
use crate::readable::byte_queue::{
    lemma_bytes_frame, lemma_bytes_len, lemma_bytes_push, lemma_drop, lemma_fill_count,
    lemma_sum_zero,
};
use crate::readable::byte_stream_controller::{
    descriptor_ok, drop_bytes, entry_bytes, entry_ok, fill_count, fill_ready, filled_from_queue,
    filled_view, queue_bytes, view_ok, ByteQueueEntry, ByteWorld, PullIntoDescriptor,
};
use crate::readable::read_request::{chunk_effect, into_chunk_effect, ReadIntoRequest, ReadRequest};
use crate::readable::slots::ReaderModel;
use crate::scope::Effect;
use crate::value::Value;

verus! {

/// The bytes that a view shows.
pub open spec fn view_bytes(heap: Heap, view: ArrayBufferView) -> Seq<u8> {
    heap[view.buffer as int].data.subrange(
        view.byte_offset as int,
        view.byte_offset + view.byte_length,
    )
}

impl ByteWorld {
    /// The bytes that wait in the queue.
    pub open spec fn queued_bytes(self) -> Seq<u8> {
        queue_bytes(self.scope.heap, self.controller.queue)
    }

    /// Whether nobody waits for bytes.
    pub open spec fn idle(self) -> bool {
        &&& self.controller.pending.len() == 0
        &&& self.slots.requests().len() == 0
        &&& self.slots.into_requests().len() == 0
    }
}

/// The bytes of a chunk that nobody waits for come last in the queue, whole and unchanged.
pub proof fn law_enqueue_appends(w: ByteWorld, chunk: ArrayBufferView)
    requires
        w.sound(),
        w.idle(),
        w.slots.state is Readable,
        !w.controller.close_requested,
        w.foreign(chunk.buffer),
        can_transfer(w.scope.heap, chunk.buffer),
        view_ok(w.scope.heap, chunk),
        chunk.byte_length > 0,
        w.scope.heap.len() < usize::MAX,
    ensures
        w.enqueue(chunk).1 is Ok,
        w.enqueue(chunk).0.queued_bytes() == w.queued_bytes() + view_bytes(w.scope.heap, chunk),
        w.enqueue(chunk).0.idle(),
{
    let heap = transferred(w.scope.heap, chunk.buffer);
    let buffer = w.scope.heap.len() as usize;
    let entry = ByteQueueEntry {
        buffer,
        byte_offset: chunk.byte_offset,
        byte_length: chunk.byte_length,
    };
    let queued = w.with_heap(heap).with_controller(
        w.controller.with_entry(buffer, chunk.byte_offset, chunk.byte_length),
    );
    assert(w.enqueue(chunk).0.controller.queue == w.controller.queue.push(entry)) by {
        match w.slots.reader {
            ReaderModel::Byob(_) => {
                assert(queued.process_pull_intos() == (queued, Seq::<PullIntoDescriptor>::empty()));
                assert(queued.commit_all(Seq::empty()) == queued);
            },
            _ => {},
        }
    }
    assert(w.enqueue(chunk).0.scope.heap == heap) by {
        match w.slots.reader {
            ReaderModel::Byob(_) => {
                assert(queued.process_pull_intos() == (queued, Seq::<PullIntoDescriptor>::empty()));
                assert(queued.commit_all(Seq::empty()) == queued);
            },
            _ => {},
        }
    }
    lemma_bytes_frame(w.scope.heap, heap, w.controller.queue);
    lemma_bytes_push(heap, w.controller.queue, entry);
    assert(entry_bytes(heap, entry) =~= view_bytes(w.scope.heap, chunk));
}

/// A read by a default reader takes the first bytes out of the queue: what it is handed
/// and what stays make up what there was.
pub proof fn law_read_takes_first(w: ByteWorld, request: ReadRequest)
    requires
        w.sound(),
        w.controller.total > 0,
    ensures
        ({
            let entry = w.controller.queue[0];
            let view = ArrayBufferView {
                kind: crate::buffer::ViewKind::Uint8,
                buffer: entry.buffer,
                byte_offset: entry.byte_offset,
                byte_length: entry.byte_length,
            };
            let after = w.pull_steps(request);
            &&& after.scope.effects.last() == chunk_effect(request, Value::Bytes(view))
            &&& view.byte_length > 0
            &&& live(after.scope.heap, view.buffer)
            &&& view_bytes(after.scope.heap, view) + after.queued_bytes() == w.queued_bytes()
        }),
{
    lemma_sum_zero(w.scope.heap, w.controller.queue);
}

/// What is enqueued is what is read: on a stream without bytes, the next read after an
/// enqueue is handed just the bytes of the chunk, and leaves none.
pub proof fn law_enqueue_read(w: ByteWorld, chunk: ArrayBufferView, request: ReadRequest)
    requires
        w.sound(),
        w.idle(),
        w.controller.total == 0,
        w.slots.state is Readable,
        !w.controller.close_requested,
        w.foreign(chunk.buffer),
        can_transfer(w.scope.heap, chunk.buffer),
        view_ok(w.scope.heap, chunk),
        chunk.byte_length > 0,
        chunk.byte_offset + chunk.byte_length <= usize::MAX,
        w.scope.heap.len() + 3 <= usize::MAX,
    ensures
        ({
            let after = w.enqueue(chunk).0.pull_steps(request);
            &&& after.scope.effects.last() matches effect && exists|view: ArrayBufferView|
                effect == #[trigger] chunk_effect(request, Value::Bytes(view)) && view_bytes(
                    after.scope.heap,
                    view,
                ) == view_bytes(w.scope.heap, chunk)
            &&& after.queued_bytes() == Seq::<u8>::empty()
        }),
{
    law_enqueue_appends(w, chunk);
    law_byte_enqueue(w, chunk);
    let queued = w.enqueue(chunk).0;
    lemma_sum_zero(w.scope.heap, w.controller.queue);
    lemma_bytes_len(queued.scope.heap, queued.controller.queue);
    assert(w.queued_bytes() =~= Seq::<u8>::empty());
    law_read_takes_first(queued, request);
    let entry = queued.controller.queue[0];
    let view = ArrayBufferView {
        kind: crate::buffer::ViewKind::Uint8,
        buffer: entry.buffer,
        byte_offset: entry.byte_offset,
        byte_length: entry.byte_length,
    };
    let after = queued.pull_steps(request);
    assert(queued.controller.queue.len() == 1) by {
        lemma_queue_after_enqueue(w, chunk);
    }
    assert(after.controller.queue.len() == 0);
    assert(after.queued_bytes() =~= Seq::<u8>::empty());
    assert(view_bytes(after.scope.heap, view) + after.queued_bytes() =~= view_bytes(
        after.scope.heap,
        view,
    ));
    assert(view_bytes(after.scope.heap, view) == view_bytes(w.scope.heap, chunk));
    assert(after.scope.effects.last() == chunk_effect(request, Value::Bytes(view)));
}

/// A chunk that nobody waits for is one entry of the queue.
proof fn lemma_queue_after_enqueue(w: ByteWorld, chunk: ArrayBufferView)
    requires
        w.sound(),
        w.idle(),
        w.slots.state is Readable,
        !w.controller.close_requested,
        can_transfer(w.scope.heap, chunk.buffer),
    ensures
        w.enqueue(chunk).0.controller.queue.len() == w.controller.queue.len() + 1,
{
    let buffer = w.scope.heap.len() as usize;
    let queued = w.with_heap(transferred(w.scope.heap, chunk.buffer)).with_controller(
        w.controller.with_entry(buffer, chunk.byte_offset, chunk.byte_length),
    );
    match w.slots.reader {
        ReaderModel::Byob(_) => {
            assert(queued.process_pull_intos() == (queued, Seq::<PullIntoDescriptor>::empty()));
            assert(queued.commit_all(Seq::empty()) == queued);
        },
        _ => {},
    }
}

/// Filling a descriptor moves the first bytes of the queue behind those that it already
/// holds, and leaves the others in their order.
pub proof fn law_fill_moves_first(w: ByteWorld, descriptor: PullIntoDescriptor)
    requires
        w.can_fill(descriptor),
    ensures
        ({
            let count = fill_count(w.controller.total, descriptor) as int;
            let start = descriptor.byte_offset + descriptor.bytes_filled;
            let after = w.fill(descriptor);
            let data = after.scope.heap[descriptor.buffer as int].data;
            let before = w.scope.heap[descriptor.buffer as int].data;
            &&& 0 <= count <= w.queued_bytes().len()
            &&& data.len() == before.len()
            &&& data.subrange(start, start + count) == w.queued_bytes().take(count)
            &&& forall|i: int|
                0 <= i < data.len() && !(start <= i < start + count) ==> data[i] == before[i]
            &&& after.queued_bytes() == w.queued_bytes().skip(count)
        }),
{
    let count = fill_count(w.controller.total, descriptor);
    let heap = w.scope.heap;
    let queue = w.controller.queue;
    lemma_fill_count(w.controller.total, descriptor);
    lemma_bytes_len(heap, queue);
    let gone = lemma_drop(heap, queue, count);
    let bytes = queue_bytes(heap, queue).take(count as int);
    let after = w.fill(descriptor);
    let left = drop_bytes(queue, count);
    assert forall|i: int| 0 <= i < left.len() implies after.scope.heap[(
    #[trigger] left[i]).buffer as int].data == heap[left[i].buffer as int].data by {
        assert(left[i].buffer == queue[i + gone].buffer);
    }
    lemma_bytes_frame(heap, after.scope.heap, left);
    let start = descriptor.byte_offset + descriptor.bytes_filled;
    let data = after.scope.heap[descriptor.buffer as int].data;
    assert(data == spliced(heap[descriptor.buffer as int].data, start, bytes));
    assert(data.subrange(start, start + count) =~= bytes);
}

/// A read into a view that the queue can fill is handed the first queued bytes, whole
/// elements of them, and the others stay in their order.
pub proof fn law_read_into_takes_first(
    w: ByteWorld,
    view: ArrayBufferView,
    min: usize,
    request: ReadIntoRequest,
)
    requires
        w.sound(),
        w.slots.reader is Byob,
        w.slots.state is Readable,
        w.controller.total > 0,
        w.foreign(view.buffer),
        can_transfer(w.scope.heap, view.buffer),
        view_ok(w.scope.heap, view),
        min > 0,
        min * view.kind.size() <= view.byte_length,
        min * view.kind.size() <= w.controller.total,
        w.scope.heap.len() + 1 < usize::MAX,
        byte_length_of(w.scope.heap, view.buffer) <= usize::MAX,
    ensures
        ({
            let after = w.pull_into(view, min, request);
            let room = view.byte_length as int;
            let most = if w.controller.total <= room {
                w.controller.total as int
            } else {
                room
            };
            let size = view.kind.size() as int;
            let count = most - most % size;
            let filled = ArrayBufferView {
                buffer: (w.scope.heap.len() + 1) as usize,
                byte_length: count as usize,
                ..view
            };
            &&& after.scope.effects.last() == into_chunk_effect(request, Value::Bytes(filled))
            &&& min * size <= count <= room
            &&& view_bytes(after.scope.heap, filled) == w.queued_bytes().take(count)
            &&& after.queued_bytes() == w.queued_bytes().skip(count)
        }),
{
    let descriptor = w.into_descriptor(view, min);
    let moved = w.with_heap(transferred(w.scope.heap, view.buffer));
    let total = w.controller.total;
    lemma_sum_zero(w.scope.heap, w.controller.queue);
    assert(w.controller.pending.len() == 0);
    lemma_transfer_foreign(w, view.buffer);
    lemma_new_buffer_apart(w, moved);
    let size = view.kind.size() as int;
    assert(min * size >= 1) by (nonlinear_arith)
        requires
            min > 0,
            size >= 1,
    ;
    assert((min * size) % size == 0) by (nonlinear_arith)
        requires
            size >= 1,
    ;
    assert(moved.can_fill(descriptor));
    lemma_fill_count(total, descriptor);
    let most = if total <= view.byte_length {
        total as int
    } else {
        view.byte_length as int
    };
    crate::readable::byte_queue::lemma_aligned(most, min * size, size);
    assert(fill_ready(total, descriptor));
    law_fill_moves_first(moved, descriptor);
    lemma_bytes_frame(w.scope.heap, moved.scope.heap, w.controller.queue);
    let count = fill_count(total, descriptor) as int;
    assert(count == most - most % size);
    let after = moved.fill(descriptor);
    let filled = filled_from_queue(total, descriptor);
    let handed = after.with_heap(transferred(after.scope.heap, filled.buffer));
    lemma_bytes_len(w.scope.heap, w.controller.queue);
    let gone = lemma_drop(moved.scope.heap, moved.controller.queue, count as nat);
    assert forall|i: int| 0 <= i < after.controller.queue.len() implies handed.scope.heap[(
    #[trigger] after.controller.queue[i]).buffer as int].data
        == after.scope.heap[after.controller.queue[i].buffer as int].data by {
        assert(after.controller.queue[i].buffer == moved.controller.queue[i + gone].buffer);
    }
    lemma_bytes_frame(after.scope.heap, handed.scope.heap, after.controller.queue);
    let result = ArrayBufferView {
        buffer: (w.scope.heap.len() + 1) as usize,
        byte_length: count as usize,
        ..view
    };
    let end = w.pull_into(view, min, request);
    assert(after.scope.heap.len() == w.scope.heap.len() + 1);
    assert(end.scope.heap == handed.scope.heap);
    assert(end.controller.queue == handed.controller.queue);
    assert(view_bytes(end.scope.heap, result) =~= w.queued_bytes().take(count));
}

/// A read that waits is handed the chunk that arrives: the bytes go to it whole and unchanged,
/// and not through the queue.
pub proof fn law_enqueue_handed(w: ByteWorld, chunk: ArrayBufferView)
    requires
        w.sound(),
        w.slots.state is Readable,
        !w.controller.close_requested,
        w.slots.requests().len() > 0,
        w.controller.pending.len() == 0,
        w.controller.total == 0,
        can_transfer(w.scope.heap, chunk.buffer),
        view_ok(w.scope.heap, chunk),
        w.scope.heap.len() < usize::MAX,
    ensures
        ({
            let view = ArrayBufferView {
                kind: ViewKind::Uint8,
                buffer: w.scope.heap.len() as usize,
                ..chunk
            };
            let after = w.enqueue(chunk).0;
            &&& w.enqueue(chunk).1 is Ok
            &&& after.scope.effects.len() > w.scope.effects.len()
            &&& after.scope.effects[w.scope.effects.len() as int] == chunk_effect(
                w.slots.requests()[0],
                Value::Bytes(view),
            )
            &&& live(after.scope.heap, view.buffer)
            &&& view_bytes(after.scope.heap, view) == view_bytes(w.scope.heap, chunk)
            &&& after.slots.requests() == w.slots.requests().drop_first()
            &&& after.controller.queue == w.controller.queue
            &&& after.controller.pending == w.controller.pending
        }),
{
    lemma_sum_zero(w.scope.heap, w.controller.queue);
}

/// What a read into a view that waits has got so far.
pub open spec fn held_bytes(heap: Heap, descriptor: PullIntoDescriptor) -> Seq<u8> {
    heap[descriptor.buffer as int].data.subrange(
        descriptor.byte_offset as int,
        descriptor.byte_offset + descriptor.bytes_filled,
    )
}

/// The stream at the moment when a chunk has come into its queue for a read into a view that
/// waits.
spec fn before_fill(w: ByteWorld, chunk: ArrayBufferView) -> ByteWorld {
    let moved = w.with_heap(transferred(w.scope.heap, chunk.buffer)).retake_head();
    moved.with_controller(
        moved.controller.with_entry(
            w.scope.heap.len() as usize,
            chunk.byte_offset,
            chunk.byte_length,
        ),
    )
}

/// What holds at that moment.
proof fn lemma_before_fill(w: ByteWorld, chunk: ArrayBufferView)
    requires
        w.sound(),
        w.slots.state is Readable,
        w.slots.reader is Byob,
        !w.controller.close_requested,
        w.controller.pending.len() > 0,
        w.controller.pending[0].reader_type is Byob,
        live(w.scope.heap, w.controller.pending[0].buffer),
        w.controller.pending[0].buffer != chunk.buffer,
        w.foreign(chunk.buffer),
        can_transfer(w.scope.heap, chunk.buffer),
        view_ok(w.scope.heap, chunk),
        chunk.byte_length > 0,
        chunk.byte_offset + chunk.byte_length <= usize::MAX,
        w.scope.heap.len() + 3 <= usize::MAX,
    ensures
        ({
            let queued = before_fill(w, chunk);
            let head = queued.controller.pending[0];
            let (filled, ready) = queued.process_pull_intos();
            &&& queued.memory_ok()
            &&& queued.controller.byob_request is None
            &&& queued.slots == w.slots
            &&& queued.controller.total == chunk.byte_length
            &&& queued.controller.pending.len() == w.controller.pending.len()
            &&& head == (PullIntoDescriptor {
                buffer: (w.scope.heap.len() + 1) as usize,
                ..w.controller.pending[0]
            })
            &&& forall|i: int|
                0 < i < w.controller.pending.len() ==> #[trigger] queued.controller.pending[i]
                    == w.controller.pending[i]
            &&& queued.scope.heap.len() == w.scope.heap.len() + 2
            &&& live(queued.scope.heap, head.buffer)
            &&& queued.queued_bytes() == view_bytes(w.scope.heap, chunk)
            &&& held_bytes(queued.scope.heap, head) == held_bytes(
                w.scope.heap,
                w.controller.pending[0],
            )
            &&& queued.scope.effects == w.invalidated().scope.effects
            &&& w.enqueue(chunk) == (filled.commit_all(ready).call_pull(), Ok::<(), Value>(()))
        }),
{
    let buffer = w.scope.heap.len() as usize;
    let moved = w.with_heap(transferred(w.scope.heap, chunk.buffer));
    lemma_transfer_foreign(w, chunk.buffer);
    lemma_new_buffer_apart(w, moved);
    lemma_retake_head(moved);
    lemma_prepare_head(moved, buffer);
    let retaken = moved.retake_head();
    assert(moved.prepare_head() == (retaken, Ok::<(), Value>(())));
    let entry = ByteQueueEntry {
        buffer,
        byte_offset: chunk.byte_offset,
        byte_length: chunk.byte_length,
    };
    lemma_sum_zero(retaken.scope.heap, retaken.controller.queue);
    lemma_with_entry(retaken, entry);
    lemma_bytes_push(retaken.scope.heap, retaken.controller.queue, entry);
    assert(retaken.queued_bytes() =~= Seq::<u8>::empty());
    let queued = before_fill(w, chunk);
    assert(queued.queued_bytes() =~= view_bytes(w.scope.heap, chunk));
    let head = queued.controller.pending[0];
    assert(held_bytes(queued.scope.heap, head) =~= held_bytes(
        w.scope.heap,
        w.controller.pending[0],
    ));
}

/// A read into a view that waits is handed the first bytes of the chunk that arrives, behind
/// those that it has got so far and as many whole elements as it has room for, once they are
/// as many as it asks for; until then it keeps them all and waits on.
pub proof fn law_enqueue_fills(w: ByteWorld, chunk: ArrayBufferView)
    requires
        w.sound(),
        w.slots.state is Readable,
        w.slots.reader is Byob,
        !w.controller.close_requested,
        w.controller.pending.len() > 0,
        w.controller.pending[0].reader_type is Byob,
        live(w.scope.heap, w.controller.pending[0].buffer),
        w.controller.pending[0].buffer != chunk.buffer,
        w.foreign(chunk.buffer),
        can_transfer(w.scope.heap, chunk.buffer),
        view_ok(w.scope.heap, chunk),
        chunk.byte_length > 0,
        chunk.byte_offset + chunk.byte_length <= usize::MAX,
        w.scope.heap.len() + 3 <= usize::MAX,
    ensures
        w.enqueue(chunk).1 is Ok,
        ({
            let head = w.controller.pending[0];
            let held = held_bytes(w.scope.heap, head);
            let bytes = view_bytes(w.scope.heap, chunk);
            let place = w.invalidated().scope.effects.len() as int;
            let after = w.enqueue(chunk).0;
            if fill_ready(chunk.byte_length as u128, head) {
                let count = fill_count(chunk.byte_length as u128, head) as int;
                &&& 0 < count <= bytes.len()
                &&& place < after.scope.effects.len()
                &&& exists|view: ArrayBufferView|
                    after.scope.effects[place] == #[trigger] into_chunk_effect(
                        w.slots.into_requests()[0],
                        Value::Bytes(view),
                    ) && holds_anew(w, after, view, held + bytes.take(count))
                &&& w.controller.pending.len() == 1 ==> after.queued_bytes() == bytes.skip(count)
            } else {
                let waiting = after.controller.pending[0];
                &&& after.controller.pending.len() == w.controller.pending.len()
                &&& after.slots == w.slots
                &&& waiting.bytes_filled == head.bytes_filled + chunk.byte_length
                &&& held_bytes(after.scope.heap, waiting) == held + bytes
                &&& after.controller.queue.len() == 0
            }
        }),
{
    let queued = before_fill(w, chunk);
    let total = chunk.byte_length as u128;
    let head = queued.controller.pending[0];
    let bytes = view_bytes(w.scope.heap, chunk);
    let held = held_bytes(w.scope.heap, w.controller.pending[0]);
    lemma_before_fill(w, chunk);
    assert(descriptor_ok(queued.scope.heap, head));
    assert(queued.can_fill(head)) by {
        assert forall|i: int| 0 <= i < queued.controller.queue.len() implies entry_ok(
            queued.scope.heap,
            #[trigger] queued.controller.queue[i],
        ) && queued.controller.queue[i].buffer != head.buffer by {
            assert(queued.controller.pending[0].buffer != queued.controller.queue[i].buffer);
        }
    }
    lemma_fill_count(total, head);
    law_fill_moves_first(queued, head);
    let count = fill_count(total, head) as int;
    let next = queued.fill(head);
    let filled = filled_from_queue(total, head);
    lemma_filled_holds(queued, head);
    assert(held_bytes(next.scope.heap, filled) == held + bytes.take(count));
    lemma_fill_shift(queued);
    if fill_ready(total, head) {
        lemma_first_handed(w, queued);
        lemma_process(queued);
        let (processed, ready) = queued.process_pull_intos();
        let end = processed.commit_all(ready);
        let view = filled_view(filled, processed.scope.heap.len() as usize);
        let after = w.enqueue(chunk).0;
        let place = w.invalidated().scope.effects.len() as int;
        assert(after.scope.heap == end.scope.heap);
        assert(after.scope.effects[place] == end.scope.effects[place]);
        assert(after.scope.effects[place] == into_chunk_effect(
            w.slots.into_requests()[0],
            Value::Bytes(view),
        ));
        assert(holds_anew(w, after, view, held + bytes.take(count)));
        if w.controller.pending.len() == 1 {
            assert(after.queued_bytes() == bytes.skip(count));
        }
    } else {
        assert(bytes.take(count) =~= bytes);
        let back = next.with_controller(next.controller.with_head(filled));
        assert(queued.process_pull_intos() == (back, Seq::<PullIntoDescriptor>::empty()));
        assert(back.commit_all(Seq::empty()) == back);
        lemma_sum_zero(back.scope.heap, back.controller.queue);
    }
}

/// A descriptor that was filled from the queue holds what it held, and the first bytes of the
/// queue.
proof fn lemma_filled_holds(w: ByteWorld, descriptor: PullIntoDescriptor)
    requires
        w.can_fill(descriptor),
    ensures
        held_bytes(
            w.fill(descriptor).scope.heap,
            filled_from_queue(w.controller.total, descriptor),
        ) == held_bytes(w.scope.heap, descriptor) + w.queued_bytes().take(
            fill_count(w.controller.total, descriptor) as int,
        ),
{
    let count = fill_count(w.controller.total, descriptor) as int;
    lemma_fill_count(w.controller.total, descriptor);
    law_fill_moves_first(w, descriptor);
    let start = descriptor.byte_offset + descriptor.bytes_filled;
    let data = w.fill(descriptor).scope.heap[descriptor.buffer as int].data;
    let before = w.scope.heap[descriptor.buffer as int].data;
    let filled = filled_from_queue(w.controller.total, descriptor);
    let all = held_bytes(w.fill(descriptor).scope.heap, filled);
    let parts = held_bytes(w.scope.heap, descriptor) + w.queued_bytes().take(count);
    assert(all.len() == parts.len());
    assert forall|i: int| 0 <= i < all.len() implies all[i] == parts[i] by {
        if i >= descriptor.bytes_filled {
            let k = i - descriptor.bytes_filled;
            assert(data.subrange(start, start + count)[k] == data[start + k]);
        } else {
            assert(data[descriptor.byte_offset + i] == before[descriptor.byte_offset + i]);
        }
    }
    assert(all =~= parts);
}

/// Of the descriptors that become ready the first is handed over first, with what it holds;
/// where it is the only one, the queue keeps the rest.
proof fn lemma_first_handed(w: ByteWorld, queued: ByteWorld)
    requires
        w.sound(),
        w.slots.reader is Byob,
        w.slots.state is Readable,
        queued.memory_ok(),
        queued.controller.byob_request is None,
        queued.slots == w.slots,
        queued.controller.pending.len() == w.controller.pending.len(),
        queued.controller.pending.len() > 0,
        w.controller.pending[0].reader_type is Byob,
        queued.controller.pending[0].reader_type is Byob,
        forall|i: int|
            0 < i < w.controller.pending.len() ==> #[trigger] queued.controller.pending[i]
                == w.controller.pending[i],
        queued.controller.total > 0,
        queued.can_fill(queued.controller.pending[0]),
        fill_ready(queued.controller.total, queued.controller.pending[0]),
        queued.scope.heap.len() < usize::MAX,
    ensures
        ({
            let head = queued.controller.pending[0];
            let filled = filled_from_queue(queued.controller.total, head);
            let next = queued.fill(head);
            let (processed, ready) = queued.process_pull_intos();
            let end = processed.commit_all(ready);
            let view = filled_view(filled, processed.scope.heap.len() as usize);
            let place = queued.scope.effects.len() as int;
            &&& w.slots.into_requests().len() > 0
            &&& place < end.scope.effects.len()
            &&& end.scope.effects[place] == into_chunk_effect(
                w.slots.into_requests()[0],
                Value::Bytes(view),
            )
            &&& live(end.scope.heap, view.buffer)
            &&& view_bytes(end.scope.heap, view) == held_bytes(next.scope.heap, filled)
            &&& queued.controller.pending.len() == 1 ==> end.queued_bytes() == next.queued_bytes()
        }),
{
    let pending = queued.controller.pending;
    let head = pending[0];
    let filled = filled_from_queue(queued.controller.total, head);
    let next = queued.fill(head);
    let shifted = next.with_controller(next.controller.shifted());
    let (processed, ready) = queued.process_pull_intos();
    lemma_fill_shift(queued);
    lemma_process(queued);
    lemma_process_within(shifted);
    assert(ready[0] == filled);
    assert(processed == shifted.process_pull_intos().0);
    assert(apart(shifted, head.buffer)) by {
        assert forall|i: int| 0 <= i < shifted.controller.pending.len() implies (
        #[trigger] shifted.controller.pending[i]).buffer != head.buffer by {
            assert(shifted.controller.pending[i] == pending[i + 1]);
            assert(pending[0].buffer != pending[i + 1].buffer);
        }
    }
    assert(descriptor_ok(queued.scope.heap, head));
    assert(shifted.scope.heap[head.buffer as int] == processed.scope.heap[head.buffer as int]);
    lemma_ready_awaited(w, queued);
    lemma_commit(processed, ready);
    lemma_rest_is_awaited(processed, ready);
    let first = processed.commit(ready[0]);
    let rest = ready.drop_first();
    lemma_commit_within(first, rest);
    let end = processed.commit_all(ready);
    assert(end == first.commit_all(rest));
    let view = filled_view(filled, processed.scope.heap.len() as usize);
    assert forall|i: int| 0 <= i < rest.len() implies (#[trigger] rest[i]).buffer
        != view.buffer by {
        assert(rest[i] == ready[i + 1]);
        assert(can_transfer(processed.scope.heap, ready[i + 1].buffer));
    }
    assert(first.scope.heap[view.buffer as int] == end.scope.heap[view.buffer as int]);
    lemma_commit_effects(first, rest);
    let place = queued.scope.effects.len() as int;
    assert(first.scope.effects.len() == place + 1);
    assert(first.scope.effects[place] == into_chunk_effect(
        w.slots.into_requests()[0],
        Value::Bytes(view),
    ));
    assert(end.scope.effects[place] == first.scope.effects[place]);
    assert(live(end.scope.heap, view.buffer));
    assert(view_bytes(end.scope.heap, view) =~= held_bytes(next.scope.heap, filled));
    if pending.len() == 1 {
        assert(shifted.controller.pending.len() == 0);
        assert(shifted.process_pull_intos() == (shifted, Seq::<PullIntoDescriptor>::empty()));
        assert(rest.len() == 0);
        assert(end == first);
        lemma_bytes_frame(next.scope.heap, end.scope.heap, next.controller.queue);
    }
}

/// A request waits for each descriptor of a BYOB reader that becomes ready.
proof fn lemma_ready_awaited(w: ByteWorld, queued: ByteWorld)
    requires
        w.sound(),
        w.slots.reader is Byob,
        queued.memory_ok(),
        queued.controller.byob_request is None,
        queued.slots == w.slots,
        queued.controller.pending.len() == w.controller.pending.len(),
        w.controller.pending.len() > 0,
        w.controller.pending[0].reader_type is Byob,
        queued.controller.pending[0].reader_type is Byob,
        forall|i: int|
            0 < i < w.controller.pending.len() ==> #[trigger] queued.controller.pending[i]
                == w.controller.pending[i],
    ensures
        w.slots.into_requests().len() == w.controller.pending.len(),
        queued.process_pull_intos().0.awaited(queued.process_pull_intos().1),
{
    let (processed, ready) = queued.process_pull_intos();
    let pending = queued.controller.pending;
    lemma_process(queued);
    assert forall|i: int| 0 <= i < ready.len() implies (
    #[trigger] ready[i]).reader_type is Byob by {
        assert(same_region(pending[i], ready[i]));
    }
}

/// Handing over descriptors adds to what has been noted.
proof fn lemma_commit_effects(w: ByteWorld, descriptors: Seq<PullIntoDescriptor>)
    ensures
        w.scope.effects.is_prefix_of(w.commit_all(descriptors).scope.effects),
    decreases descriptors.len(),
{
    if descriptors.len() > 0 {
        lemma_commit_effects(w.commit(descriptors[0]), descriptors.drop_first());
    }
}

/// Whether a chunk that arrives finds nobody waiting, or finds a read or a read into a view
/// that waits for bytes.
pub open spec fn ready_for_bytes(w: ByteWorld) -> bool {
    &&& w.slots.state is Readable
    &&& !w.controller.close_requested
    &&& {
        ||| w.idle()
        ||| {
            &&& w.slots.requests().len() > 0
            &&& w.controller.pending.len() == 0
            &&& w.controller.total == 0
        }
        ||| {
            &&& w.slots.reader is Byob
            &&& w.controller.pending.len() > 0
            &&& w.controller.pending[0].reader_type is Byob
            &&& live(w.scope.heap, w.controller.pending[0].buffer)
        }
    }
}

/// Whether some bytes have reached a stream. Where nobody waited, they come last in its queue.
/// A read that waited is handed them, whole, and the queue stays as it was. A read into a view
/// that waited is handed as many of them as make whole elements, behind what it had got so
/// far, once they are as many as it asks for, and until then keeps them and waits on. What is
/// handed over lies in a buffer of its own, and is the effect at `place`.
pub open spec fn got_bytes(
    before: ByteWorld,
    after: ByteWorld,
    place: int,
    bytes: Seq<u8>,
) -> bool {
    let effects = after.scope.effects;
    if before.idle() {
        after.queued_bytes() == before.queued_bytes() + bytes
    } else if before.slots.requests().len() > 0 {
        &&& place < effects.len()
        &&& exists|view: ArrayBufferView|
            effects[place] == #[trigger] chunk_effect(
                before.slots.requests()[0],
                Value::Bytes(view),
            ) && holds_anew(before, after, view, bytes)
        &&& after.slots.requests() == before.slots.requests().drop_first()
        &&& after.controller.queue == before.controller.queue
    } else {
        let head = before.controller.pending[0];
        let held = held_bytes(before.scope.heap, head);
        let total = bytes.len() as u128;
        if fill_ready(total, head) {
            let count = fill_count(total, head) as int;
            &&& 0 < count <= bytes.len()
            &&& place < effects.len()
            &&& exists|view: ArrayBufferView|
                effects[place] == #[trigger] into_chunk_effect(
                    before.slots.into_requests()[0],
                    Value::Bytes(view),
                ) && holds_anew(before, after, view, held + bytes.take(count))
            &&& before.controller.pending.len() == 1 ==> after.queued_bytes() == bytes.skip(count)
        } else {
            let waiting = after.controller.pending[0];
            &&& after.controller.pending.len() == before.controller.pending.len()
            &&& after.slots == before.slots
            &&& waiting.bytes_filled == head.bytes_filled + bytes.len()
            &&& held_bytes(after.scope.heap, waiting) == held + bytes
            &&& after.controller.queue.len() == 0
        }
    }
}

/// Whether a view shows some bytes in a buffer that was not there before.
pub open spec fn holds_anew(
    before: ByteWorld,
    after: ByteWorld,
    view: ArrayBufferView,
    bytes: Seq<u8>,
) -> bool {
    &&& before.scope.heap.len() <= view.buffer
    &&& live(after.scope.heap, view.buffer)
    &&& view_bytes(after.scope.heap, view) == bytes
}

/// The bytes of a chunk reach the stream that its source enqueues it into, whoever waits.
pub proof fn law_enqueue_reaches(w: ByteWorld, chunk: ArrayBufferView)
    requires
        w.sound(),
        ready_for_bytes(w),
        apart(w, chunk.buffer),
        can_transfer(w.scope.heap, chunk.buffer),
        view_ok(w.scope.heap, chunk),
        chunk.byte_length > 0,
        chunk.byte_offset + chunk.byte_length <= usize::MAX,
        w.scope.heap.len() + 3 <= usize::MAX,
    ensures
        w.enqueue(chunk).1 is Ok,
        got_bytes(
            w,
            w.enqueue(chunk).0,
            w.invalidated().scope.effects.len() as int,
            view_bytes(w.scope.heap, chunk),
        ),
{
    if w.idle() {
        law_enqueue_appends(w, chunk);
    } else if w.slots.requests().len() > 0 {
        law_enqueue_handed(w, chunk);
    } else {
        assert(view_bytes(w.scope.heap, chunk).len() == chunk.byte_length);
        law_enqueue_fills(w, chunk);
    }
}

/// What a chunk that reaches a stream adds to the store and to what has been noted.
pub proof fn lemma_enqueue_grows(w: ByteWorld, chunk: ArrayBufferView)
    requires
        w.sound(),
        ready_for_bytes(w),
        apart(w, chunk.buffer),
        can_transfer(w.scope.heap, chunk.buffer),
        view_ok(w.scope.heap, chunk),
        chunk.byte_length > 0,
        chunk.byte_offset + chunk.byte_length <= usize::MAX,
        w.scope.heap.len() + 3 <= usize::MAX,
    ensures
        w.scope.effects.is_prefix_of(w.enqueue(chunk).0.scope.effects),
        w.scope.heap.len() <= w.enqueue(chunk).0.scope.heap.len() <= w.scope.heap.len() + 2
            + w.controller.pending.len(),
{
    if w.idle() {
        let buffer = w.scope.heap.len() as usize;
        let queued = w.with_heap(transferred(w.scope.heap, chunk.buffer)).with_controller(
            w.controller.with_entry(buffer, chunk.byte_offset, chunk.byte_length),
        );
        match w.slots.reader {
            ReaderModel::Byob(_) => {
                assert(queued.process_pull_intos() == (queued, Seq::<PullIntoDescriptor>::empty()));
                assert(queued.commit_all(Seq::empty()) == queued);
            },
            _ => {},
        }
    } else if w.slots.requests().len() > 0 {
        lemma_sum_zero(w.scope.heap, w.controller.queue);
    } else {
        lemma_before_fill(w, chunk);
        let queued = before_fill(w, chunk);
        let (processed, ready) = queued.process_pull_intos();
        lemma_process(queued);
        lemma_ready_awaited(w, queued);
        lemma_commit_all(processed, ready);
        lemma_commit_effects(processed, ready);
        let end = processed.commit_all(ready);
        assert(w.scope.effects.is_prefix_of(queued.scope.effects));
        assert(processed.scope.effects == queued.scope.effects);
        assert(end.scope.effects.is_prefix_of(end.call_pull().scope.effects));
        assert(w.enqueue(chunk).0 == end.call_pull());
        lemma_prefix(w.scope.effects, processed.scope.effects, end.scope.effects);
        lemma_prefix(w.scope.effects, end.scope.effects, end.call_pull().scope.effects);
    }
}

proof fn lemma_prefix(first: Seq<Effect>, second: Seq<Effect>, third: Seq<Effect>)
    requires
        first.is_prefix_of(second),
        second.is_prefix_of(third),
    ensures
        first.is_prefix_of(third),
{
    assert(first =~= third.subrange(0, first.len() as int));
}

/// A chunk that was left for later is not lost: it is handed to the read that waits first,
/// comes last in the queue where none waits, or is left for later again, where the queue can
/// answer a read before it.
pub proof fn law_enqueue_rest_keeps_chunk(w: ByteWorld, chunk: ArrayBufferView)
    requires
        w.slots.reader is Default,
        chunk.kind is Uint8,
    ensures
        ({
            let after = w.enqueue_rest(chunk);
            let requests = w.slots.requests();
            if requests.len() == 0 {
                after.controller.queue == w.controller.queue.push(
                    ByteQueueEntry {
                        buffer: chunk.buffer,
                        byte_offset: chunk.byte_offset,
                        byte_length: chunk.byte_length,
                    },
                )
            } else if w.controller.total == 0 {
                after.scope.effects[w.scope.effects.len() as int] == chunk_effect(
                    requests[0],
                    Value::Bytes(chunk),
                )
            } else {
                after.scope.effects.last() == (Effect::EnqueueRest {
                    stream: w.slots.id,
                    view: chunk,
                })
            }
        }),
{
}

} // verus!
