//! That the bytes that come into a readable byte stream, by whatever way, leave it sound.

use vstd::prelude::*;

use crate::buffer::{byte_length_of, can_transfer, live, transferred, ArrayBufferView};
use crate::readable::byte_laws::{law_byte_call_pull, law_byte_errored};
use crate::readable::byte_memory::{
    apart, lemma_commit_all, lemma_fill_shift, lemma_leftover_enqueued, lemma_move_head,
    lemma_new_buffer_apart, lemma_prepare_head, lemma_process, lemma_process_handover,
    lemma_process_read_request, lemma_remainder_enqueued, lemma_retake_head, lemma_shift,
    lemma_transfer_foreign, lemma_with_entry, same_region,
};
use crate::readable::byte_queue::{lemma_fill_count, lemma_sum_zero};
use crate::readable::byte_stream_controller::{
    descriptor_ok, fill_ready, filled_from_queue, queue_sum, view_ok, ByteControllerModel,
    ByteQueueEntry, ByteWorld, PullIntoDescriptor,
};
use crate::readable::read_request::ReadIntoRequest;
use crate::readable::slots::ReaderModel;
use crate::readable::stream_world::ReadableWorld;

verus! {

/// A descriptor for a view whose buffer the stream has just taken over fits in.
proof fn lemma_into_descriptor(w: ByteWorld, view: ArrayBufferView, min: usize)
    requires
        w.memory_ok(),
        w.foreign(view.buffer),
        can_transfer(w.scope.heap, view.buffer),
        view_ok(w.scope.heap, view),
        min > 0,
        min * view.kind.size() <= view.byte_length,
        w.scope.heap.len() < usize::MAX,
        byte_length_of(w.scope.heap, view.buffer) <= usize::MAX,
    ensures
        ({
            let after = w.with_heap(transferred(w.scope.heap, view.buffer));
            let descriptor = w.into_descriptor(view, min);
            &&& after.memory_ok()
            &&& apart(after, descriptor.buffer)
            &&& descriptor_ok(after.scope.heap, descriptor)
            &&& live(after.scope.heap, descriptor.buffer)
        }),
{
    let after = w.with_heap(transferred(w.scope.heap, view.buffer));
    lemma_transfer_foreign(w, view.buffer);
    lemma_new_buffer_apart(w, after);
    let size = view.kind.size() as int;
    assert(min * size >= 1) by (nonlinear_arith)
        requires
            min > 0,
            size >= 1,
    ;
    assert((min * size) % size == 0) by (nonlinear_arith)
        requires
            size >= 1,
    ;
}

/// A descriptor that is put at the end of the list fits in, if its buffer does.
proof fn lemma_with_pending(w: ByteWorld, descriptor: PullIntoDescriptor)
    requires
        w.memory_ok(),
        descriptor_ok(w.scope.heap, descriptor),
        live(w.scope.heap, descriptor.buffer),
        apart(w, descriptor.buffer),
    ensures
        w.with_controller(w.controller.with_pending(descriptor)).memory_ok(),
{
    let pending = w.controller.pending.push(descriptor);
    assert forall|i: int| 0 <= i < pending.len() implies descriptor_ok(
        w.scope.heap,
        #[trigger] pending[i],
    ) by {
        if i < w.controller.pending.len() {
            assert(pending[i] == w.controller.pending[i]);
        }
    }
    assert forall|i: int| 0 < i < pending.len() implies live(
        w.scope.heap,
        (#[trigger] pending[i]).buffer,
    ) by {
        if i < w.controller.pending.len() {
            assert(pending[i] == w.controller.pending[i]);
        }
    }
}

/// A read into a view leaves a byte stream sound.
pub proof fn law_byte_read_into(
    w: ReadableWorld,
    view: ArrayBufferView,
    min: usize,
    request: ReadIntoRequest,
)
    requires
        w.stream.controller is Byte,
        w.as_byte().sound(),
        w.stream.slots.reader is Byob,
        w.as_byte().foreign(view.buffer),
        view_ok(w.scope.heap, view),
        min > 0,
        min * view.kind.size() <= view.byte_length,
        w.scope.heap.len() + 1 < usize::MAX,
        byte_length_of(w.scope.heap, view.buffer) <= usize::MAX,
    ensures
        w.read_into(view, min, request).stream.controller is Byte,
        w.read_into(view, min, request).as_byte().sound(),
        w.read_into(view, min, request).stream.slots.reader is Byob,
{
    let b = w.disturbed().as_byte();
    assert(b.sound());
    if w.stream.slots.state !is Errored && can_transfer(b.scope.heap, view.buffer) {
        let descriptor = b.into_descriptor(view, min);
        let moved = b.with_heap(transferred(b.scope.heap, view.buffer));
        lemma_into_descriptor(b, view, min);
        lemma_with_pending(moved, descriptor);
        lemma_sum_zero(moved.scope.heap, moved.controller.queue);
        let waiting = moved.with_controller(moved.controller.with_pending(descriptor));
        if moved.controller.pending.len() == 0 && moved.controller.total > 0
            && moved.slots.state is Readable {
            lemma_fill_shift(waiting);
            lemma_fill_count(moved.controller.total, descriptor);
            let filled = filled_from_queue(moved.controller.total, descriptor);
            let after = moved.fill(descriptor);
            let shifted = waiting.fill(descriptor).with_controller(
                waiting.fill(descriptor).controller.shifted(),
            );
            assert(shifted =~= after);
            lemma_sum_zero(after.scope.heap, after.controller.queue);
            if fill_ready(moved.controller.total, descriptor) {
                lemma_transfer_foreign(after, filled.buffer);
                let handed = after.with_heap(transferred(after.scope.heap, filled.buffer));
                assert(handed.memory_ok());
            } else {
                let headed = waiting.fill(descriptor).with_controller(
                    waiting.fill(descriptor).controller.with_head(filled),
                );
                assert(headed =~= after.with_controller(after.controller.with_pending(filled)));
            }
        }
    }
}

/// What is left after filled descriptors were handed over is sound.
proof fn lemma_process_and_commit(w: ByteWorld, first: Seq<PullIntoDescriptor>)
    requires
        w.memory_ok(),
        w.controller.byob_request is None,
        w.slots.state is Readable,
        !w.controller.close_requested,
        w.controller.pull_again ==> w.controller.pulling,
        w.controller.auto_allocate_chunk_size != Some(0usize),
        w.handover_ok(first),
        w.awaited(first + w.controller.pending),
        forall|i: int|
            0 < i < w.controller.pending.len() ==> (
            #[trigger] w.controller.pending[i]).bytes_filled == 0,
        match w.slots.reader {
            ReaderModel::Unlocked => first.len() == 0 && w.controller.pending.len() == 0,
            ReaderModel::Default(requests) => {
                &&& first.len() + w.controller.pending.len() <= requests.len()
                &&& first.len() > 0 ==> first[0].reader_type is Default
                &&& forall|i: int|
                    0 <= i < w.controller.pending.len() ==> (
                    #[trigger] w.controller.pending[i]).reader_type is Default
            },
            ReaderModel::Byob(requests) => {
                &&& first.len() + w.controller.pending.len() == requests.len()
                &&& first.len() > 0 ==> first[0].reader_type is Byob
                &&& forall|i: int|
                    0 <= i < w.controller.pending.len() ==> (
                    #[trigger] w.controller.pending[i]).reader_type is Byob
            },
        },
    ensures
        w.process_and_commit(first).sound(),
        w.process_and_commit(first).controller.byob_request is None,
{
    let (after, ready) = w.process_pull_intos();
    lemma_process(w);
    lemma_process_handover(w, first);
    lemma_commit_all(after, first + ready);
    let end = after.commit_all(first + ready);
    let pending = w.controller.pending;
    let left = after.controller.pending;
    lemma_sum_zero(end.scope.heap, end.controller.queue);
    if ready.len() > 0 {
        assert(same_region(pending[0], ready[0]));
    }
    if first.len() + ready.len() > 0 {
        assert((first + ready)[0] == if first.len() > 0 {
            first[0]
        } else {
            ready[0]
        });
    }
    assert forall|i: int| 0 <= i < left.len() implies {
        &&& (#[trigger] left[i]).reader_type == pending[i + ready.len()].reader_type
        &&& i > 0 ==> left[i].bytes_filled == 0
    } by {
        assert(same_region(pending[i + ready.len()], left[i]));
    }
}

/// A chunk that the source enqueues leaves a byte stream sound. This is left open for one
/// case: where a default reader waits with buffers of its own behind a part-filled
/// descriptor that an earlier reader left.
#[verifier::spinoff_prover]
#[verifier::rlimit(40)]
pub proof fn law_byte_enqueue(w: ByteWorld, chunk: ArrayBufferView)
    requires
        w.sound(),
        !w.leftover_before_default(),
        w.foreign(chunk.buffer),
        view_ok(w.scope.heap, chunk),
        chunk.byte_length > 0,
        chunk.byte_offset + chunk.byte_length <= usize::MAX,
        w.scope.heap.len() + 3 <= usize::MAX,
        w.controller.total + 2 * usize::MAX <= u128::MAX,
    ensures
        w.enqueue(chunk).0.sound(),
{
    if !w.controller.close_requested && w.slots.state is Readable && can_transfer(
        w.scope.heap,
        chunk.buffer,
    ) {
        let buffer = w.scope.heap.len() as usize;
        let moved = w.with_heap(transferred(w.scope.heap, chunk.buffer));
        lemma_transfer_foreign(w, chunk.buffer);
        lemma_new_buffer_apart(w, moved);
        assert(moved.sound());
        let (after, result) = moved.prepare_head();
        if moved.controller.pending.len() > 0 && live(
            moved.scope.heap,
            moved.controller.pending[0].buffer,
        ) {
            lemma_retake_head(moved);
            assert(moved.retake_head().sound());
            if result is Err {
                law_byte_errored(moved.retake_head(), result->Err_0);
            }
        }
        if result is Ok {
            lemma_prepare_head(moved, buffer);
            lemma_take_chunk(moved, chunk.byte_offset, chunk.byte_length);
            law_byte_call_pull(
                after.take_chunk(buffer, chunk.byte_offset, chunk.byte_length).0,
            );
        }
    }
}

/// What the chunk finds when the first descriptor has been made ready for it.
proof fn lemma_take_chunk(w: ByteWorld, byte_offset: usize, byte_length: usize)
    requires
        w.sound(),
        !w.leftover_before_default(),
        w.slots.state is Readable,
        !w.controller.close_requested,
        w.scope.heap.len() > 0,
        w.prepare_head().1 is Ok,
        w.prepare_head().0.scope.heap.len() <= usize::MAX,
        w.scope.heap.len() + 2 <= usize::MAX,
        apart(w, (w.scope.heap.len() - 1) as usize),
        byte_length > 0,
        byte_offset + byte_length <= usize::MAX,
        live(w.scope.heap, (w.scope.heap.len() - 1) as usize),
        byte_offset + byte_length <= w.scope.heap[w.scope.heap.len() - 1].data.len(),
        w.controller.total + 2 * usize::MAX <= u128::MAX,
    ensures
        w.prepare_head().0.take_chunk(
            (w.scope.heap.len() - 1) as usize,
            byte_offset,
            byte_length,
        ).0.sound(),
{
    let buffer = (w.scope.heap.len() - 1) as usize;
    let ready = w.prepare_head().0;
    let pending = w.controller.pending;
    let entry = ByteQueueEntry { buffer, byte_offset, byte_length };
    lemma_prepare_head(w, buffer);
    lemma_sum_zero(ready.scope.heap, ready.controller.queue);
    assert(ready.controller.total <= w.controller.total + usize::MAX) by {
        reveal_with_fuel(queue_sum, 3);
        if pending.len() > 0 {
            assert(descriptor_ok(w.scope.heap, pending[0]));
        }
    }
    match w.slots.reader {
        ReaderModel::Unlocked => {
            lemma_with_entry(ready, entry);
        },
        ReaderModel::Default(_) => {
            lemma_process_read_request(ready);
            let (served, answered) = ready.process_read_request();
            lemma_sum_zero(served.scope.heap, served.controller.queue);
            if answered {
                assert(served.controller.pending.len() == 0);
            } else if served.slots.requests().len() == 0 {
                lemma_with_entry(served, entry);
            } else {
                if served.controller.pending.len() > 0 {
                    lemma_shift(served);
                }
            }
        },
        ReaderModel::Byob(_) => {
            lemma_with_entry(ready, entry);
            let queued = ready.with_controller(
                ready.controller.with_entry(buffer, byte_offset, byte_length),
            );
            let none = Seq::<PullIntoDescriptor>::empty();
            assert(none + queued.controller.pending =~= queued.controller.pending);
            lemma_process_and_commit(queued, none);
            let (processed, filled) = queued.process_pull_intos();
            assert(none + filled =~= filled);
        },
    }
}

/// What was left for later of a chunk leaves a byte stream sound too, while the stream is
/// readable and locked to a default reader, and its descriptors are for that reader.
pub proof fn law_byte_enqueue_rest(w: ByteWorld, chunk: ArrayBufferView)
    requires
        w.sound(),
        w.slots.state is Readable,
        w.slots.reader is Default,
        w.controller.byob_request is None,
        w.controller.pending.len() > 0 ==> w.controller.pending[0].reader_type is Default,
        apart(w, chunk.buffer),
        live(w.scope.heap, chunk.buffer),
        view_ok(w.scope.heap, chunk),
        chunk.byte_length > 0,
        chunk.byte_offset + chunk.byte_length <= usize::MAX,
        w.controller.total + usize::MAX <= u128::MAX,
    ensures
        w.enqueue_rest(chunk).sound(),
{
    let (taken, later) = w.give_chunk(chunk.buffer, chunk.byte_offset, chunk.byte_length);
    let (served, answered) = w.process_read_request();
    let entry = ByteQueueEntry {
        buffer: chunk.buffer,
        byte_offset: chunk.byte_offset,
        byte_length: chunk.byte_length,
    };
    lemma_process_read_request(w);
    lemma_sum_zero(w.scope.heap, w.controller.queue);
    lemma_sum_zero(served.scope.heap, served.controller.queue);
    if answered {
        assert(w.controller.pending.len() == 0);
    } else if w.slots.requests().len() == 0 {
        lemma_with_entry(w, entry);
    } else if w.controller.pending.len() > 0 {
        lemma_shift(w);
    }
    assert(taken.sound());
    if !later {
        law_byte_call_pull(taken);
    }
}

/// The views of a closed stream are handed back.
proof fn lemma_respond_closed(w: ByteWorld)
    requires
        w.sound(),
        w.controller.byob_request is None,
        w.slots.state is Closed,
        w.controller.pending.len() > 0,
    ensures
        w.respond_closed().sound(),
{
    let current = if w.controller.pending[0].reader_type is Released {
        w.with_controller(w.controller.shifted())
    } else {
        w
    };
    if w.controller.pending[0].reader_type is Released {
        lemma_shift(w);
        let pending = w.controller.pending;
        assert forall|i: int| 0 <= i < current.controller.pending.len() implies
            #[trigger] current.controller.pending[i] == pending[i + 1] by {}
    }
    assert(current.memory_ok());
    if current.slots.reader is Byob {
        let count = current.slots.into_requests().len() as int;
        let given = current.controller.pending.take(count);
        assert(current.controller.pending.len() == count);
        assert(given =~= current.controller.pending);
        let emptied = current.with_controller(
            ByteControllerModel {
                pending: current.controller.pending.skip(count),
                ..current.controller
            },
        );
        assert forall|k: int| 0 <= k < given.len() implies can_transfer(
            emptied.scope.heap,
            (#[trigger] given[k]).buffer,
        ) && given[k].reader_type is Byob by {
            assert(descriptor_ok(current.scope.heap, current.controller.pending[k]));
        }
        assert(emptied.memory_ok());
        assert(emptied.handover_ok(given));
        lemma_commit_all(emptied, given);
    } else {
        assert forall|i: int| 0 < i < current.controller.pending.len() implies (
        #[trigger] current.controller.pending[i]).bytes_filled == 0 by {}
    }
}

/// The source wrote into the first descriptor, whose reader is gone.
proof fn lemma_respond_leftover(w: ByteWorld, filled: PullIntoDescriptor)
    requires
        w.sound(),
        w.controller.byob_request is None,
        w.slots.state is Readable,
        w.controller.pending.len() > 0,
        w.controller.pending[0].reader_type is Released,
        same_region(w.controller.pending[0], filled),
        0 < filled.bytes_filled <= filled.byte_length,
        w.scope.heap.len() + 1 <= usize::MAX,
    ensures
        ({
            let (after, result) = w.with_controller(
                w.controller.with_head(filled),
            ).enqueue_detached();
            &&& result is Err ==> after.sound()
            &&& result is Ok ==> after.process_and_commit(Seq::empty()).sound()
        }),
{
    let back = w.with_controller(w.controller.with_head(filled));
    let (after, result) = back.enqueue_detached();
    let none = Seq::<PullIntoDescriptor>::empty();
    lemma_sum_zero(w.scope.heap, w.controller.queue);
    if result is Ok {
        lemma_leftover_enqueued(w, filled);
        let pending = after.controller.pending;
        assert(pending =~= w.controller.pending.drop_first());
        assert(none + pending =~= pending);
        assert forall|i: int| 0 <= i < pending.len() implies #[trigger] pending[i]
            == w.controller.pending[i + 1] by {}
        lemma_process_and_commit(after, none);
    }
}

/// The source filled the first descriptor as far as it asks.
proof fn lemma_respond_filled(w: ByteWorld, filled: PullIntoDescriptor)
    requires
        w.sound(),
        w.controller.byob_request is None,
        w.slots.state is Readable,
        w.controller.pending.len() > 0,
        filled.reader_type !is Released,
        same_region(w.controller.pending[0], filled),
        0 < filled.bytes_filled <= filled.byte_length,
        w.scope.heap.len() + 1 <= usize::MAX,
    ensures
        ({
            let remainder = filled.bytes_filled % filled.element_size;
            let rest = w.with_controller(w.controller.shifted());
            let (after, result) = if remainder > 0 {
                rest.enqueue_cloned(
                    filled.buffer,
                    (filled.byte_offset + filled.bytes_filled - remainder) as usize,
                    remainder,
                )
            } else {
                (rest, Ok(()))
            };
            let whole = PullIntoDescriptor {
                bytes_filled: (filled.bytes_filled - remainder) as usize,
                ..filled
            };
            &&& result is Err ==> after.sound()
            &&& result is Ok ==> after.process_and_commit(seq![whole]).sound()
        }),
{
    let remainder = filled.bytes_filled % filled.element_size;
    let rest = w.with_controller(w.controller.shifted());
    assert(descriptor_ok(w.scope.heap, w.controller.pending[0]));
    assert(remainder <= filled.bytes_filled) by (nonlinear_arith)
        requires
            remainder == filled.bytes_filled % filled.element_size,
            filled.element_size > 0,
    ;
    let (after, result) = if remainder > 0 {
        rest.enqueue_cloned(
            filled.buffer,
            (filled.byte_offset + filled.bytes_filled - remainder) as usize,
            remainder,
        )
    } else {
        (rest, Ok(()))
    };
    let whole = PullIntoDescriptor {
        bytes_filled: (filled.bytes_filled - remainder) as usize,
        ..filled
    };
    lemma_sum_zero(w.scope.heap, w.controller.queue);
    if result is Ok {
        lemma_remainder_enqueued(w, filled, remainder, after);
        let pending = after.controller.pending;
        assert(pending =~= w.controller.pending.drop_first());
        assert forall|i: int| 0 <= i < pending.len() implies #[trigger] pending[i]
            == w.controller.pending[i + 1] by {}
        lemma_process_and_commit(after, seq![whole]);
    }
}

/// An answer of the source that passed the checks leaves a byte stream sound.
proof fn lemma_respond_internal(w: ByteWorld, count: usize)
    requires
        w.invalidated().sound(),
        w.controller.pending.len() > 0,
        live(w.scope.heap, w.controller.pending[0].buffer),
        w.slots.state is Readable ==> {
            &&& count > 0
            &&& w.controller.pending[0].bytes_filled + count
                <= w.controller.pending[0].byte_length
        },
        w.scope.heap.len() + 1 <= usize::MAX,
    ensures
        w.respond_internal(count).0.sound(),
{
    let now = w.invalidated();
    if now.slots.state is Closed {
        lemma_respond_closed(now);
        law_byte_call_pull(now.respond_closed());
    } else {
        let head = now.controller.pending[0];
        assert(descriptor_ok(now.scope.heap, head));
        let filled = PullIntoDescriptor {
            bytes_filled: (head.bytes_filled + count) as usize,
            ..head
        };
        if filled.reader_type is Released {
            lemma_respond_leftover(now, filled);
        } else if filled.bytes_filled < filled.minimum_fill {
            let after = now.with_controller(now.controller.with_head(filled));
            assert forall|i: int| 0 <= i < after.controller.pending.len() implies descriptor_ok(
                after.scope.heap,
                #[trigger] after.controller.pending[i],
            ) by {
                assert(descriptor_ok(now.scope.heap, now.controller.pending[i]));
            }
            assert(after.memory_ok());
            assert(after.sound());
        } else {
            lemma_respond_filled(now, filled);
        }
        law_byte_call_pull(now.respond_readable(count).0);
    }
}

/// The buffer of the first descriptor may move to another place in the store.
pub proof fn lemma_moved_head_sound(w: ByteWorld, buffer: usize)
    requires
        w.sound(),
        w.controller.pending.len() > 0,
        w.foreign(buffer) || buffer == w.controller.pending[0].buffer,
        can_transfer(w.scope.heap, buffer),
        w.scope.heap[buffer as int].data.len() == w.controller.pending[0].buffer_byte_length,
        w.scope.heap.len() <= usize::MAX,
    ensures
        w.move_head(buffer).invalidated().sound(),
        live(w.move_head(buffer).scope.heap, w.move_head(buffer).controller.pending[0].buffer),
{
    lemma_move_head(w, buffer);
    let pending = w.move_head(buffer).controller.pending;
    assert forall|i: int| 0 < i < pending.len() implies #[trigger] pending[i]
        == w.controller.pending[i] by {}
}

/// The answer of the source that it wrote some bytes leaves a byte stream sound.
pub proof fn law_byte_respond(w: ByteWorld, count: u64)
    requires
        w.sound(),
        w.controller.pending.len() > 0,
        w.scope.heap.len() + 2 <= usize::MAX,
    ensures
        w.respond(count).0.sound(),
{
    let head = w.controller.pending[0];
    assert(descriptor_ok(w.scope.heap, head));
    if can_transfer(w.scope.heap, head.buffer) {
        lemma_moved_head_sound(w, head.buffer);
        if w.slots.state is Closed || 0 < count <= head.byte_length - head.bytes_filled {
            lemma_respond_internal(w.move_head(head.buffer), count as usize);
        }
    }
}

/// The answer of the source with a view onto what it wrote leaves a byte stream sound.
pub proof fn law_byte_respond_with_new_view(w: ByteWorld, view: ArrayBufferView)
    requires
        w.sound(),
        w.controller.pending.len() > 0,
        w.foreign(view.buffer) || view.buffer == w.controller.pending[0].buffer,
        w.scope.heap.len() + 2 <= usize::MAX,
    ensures
        w.respond_with_new_view(view).0.sound(),
{
    let head = w.controller.pending[0];
    assert(descriptor_ok(w.scope.heap, head));
    if can_transfer(w.scope.heap, view.buffer) && head.buffer_byte_length == byte_length_of(
        w.scope.heap,
        view.buffer,
    ) {
        lemma_moved_head_sound(w, view.buffer);
        if w.slots.state is Closed || (0 < view.byte_length && head.bytes_filled
            + view.byte_length <= head.byte_length) {
            lemma_respond_internal(w.move_head(view.buffer), view.byte_length);
        }
    }
}

} // verus!
