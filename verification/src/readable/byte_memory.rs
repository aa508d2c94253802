//! How the operations of byte streams keep the queue and the descriptors in good order.

use vstd::prelude::*;

use crate::buffer::{can_transfer, fresh_buffer, live, transferred, Heap};
use crate::readable::byte_queue::{
    lemma_bytes_len, lemma_drop, lemma_fill_count, lemma_sum_push, lemma_sum_zero,
};
use crate::scope::can_clone;
use crate::readable::byte_stream_controller::{
    descriptor_ok, drop_bytes, entry_ok, fill_count, fill_ready, filled_from_queue, put_bytes,
    queue_bytes, queue_sum, ByteControllerModel, ByteQueueEntry, ByteWorld, PullIntoDescriptor,
};

verus! {

/// Putting bytes into a descriptor changes nothing but the bytes of its buffer.
pub proof fn lemma_put_bytes(heap: Heap, descriptor: PullIntoDescriptor, bytes: Seq<u8>)
    requires
        live(heap, descriptor.buffer),
        descriptor.byte_offset + descriptor.bytes_filled + bytes.len()
            <= heap[descriptor.buffer as int].data.len(),
    ensures
        put_bytes(heap, descriptor, bytes).len() == heap.len(),
        put_bytes(heap, descriptor, bytes)[descriptor.buffer as int].data.len()
            == heap[descriptor.buffer as int].data.len(),
        forall|i: int|
            0 <= i < heap.len() ==> {
                &&& (#[trigger] put_bytes(heap, descriptor, bytes)[i]).data.len()
                    == heap[i].data.len()
                &&& put_bytes(heap, descriptor, bytes)[i].detached == heap[i].detached
                &&& put_bytes(heap, descriptor, bytes)[i].detachable == heap[i].detachable
                &&& i != descriptor.buffer ==> put_bytes(heap, descriptor, bytes)[i] == heap[i]
            },
{
}

/// The queue and the descriptors after the first descriptor was filled from the queue
/// and taken out.
pub proof fn lemma_fill_shift(w: ByteWorld)
    requires
        w.memory_ok(),
        w.controller.pending.len() > 0,
        live(w.scope.heap, w.controller.pending[0].buffer),
    ensures
        w.can_fill(w.controller.pending[0]),
        ({
            let head = w.controller.pending[0];
            let filled = filled_from_queue(w.controller.total, head);
            let after = w.fill(head);
            let shifted = after.with_controller(after.controller.shifted());
            &&& shifted.memory_ok()
            &&& can_transfer(shifted.scope.heap, head.buffer)
            &&& forall|j: int|
                0 <= j < shifted.controller.queue.len() ==> (
                #[trigger] shifted.controller.queue[j]).buffer != head.buffer
            &&& shifted.scope.heap.len() == w.scope.heap.len()
            &&& forall|b: usize|
                can_transfer(w.scope.heap, b) ==> #[trigger] can_transfer(shifted.scope.heap, b)
            &&& forall|j: int|
                0 <= j < shifted.controller.queue.len() ==> exists|k: int|
                    0 <= k < w.controller.queue.len() && #[trigger] w.controller.queue[k].buffer
                        == (#[trigger] shifted.controller.queue[j]).buffer
            &&& !fill_ready(w.controller.total, head) ==> {
                &&& after.controller.total == 0
                &&& after.with_controller(after.controller.with_head(filled)).memory_ok()
            }
        }),
{
    let heap = w.scope.heap;
    let queue = w.controller.queue;
    let pending = w.controller.pending;
    let head = pending[0];
    assert(descriptor_ok(heap, head));
    assert forall|i: int| 0 <= i < queue.len() implies entry_ok(heap, #[trigger] queue[i])
        && queue[i].buffer != head.buffer by {
        assert(pending[0].buffer != queue[i].buffer);
    }
    let count = fill_count(w.controller.total, head);
    lemma_fill_count(w.controller.total, head);
    lemma_bytes_len(heap, queue);
    let bytes = queue_bytes(heap, queue).take(count as int);
    lemma_put_bytes(heap, head, bytes);
    let gone = lemma_drop(heap, queue, count);
    let left = drop_bytes(queue, count);
    let after = w.fill(head);
    let heap2 = after.scope.heap;
    let shifted = after.with_controller(after.controller.shifted());
    let rest = shifted.controller.pending;
    assert forall|j: int| 0 <= j < left.len() implies entry_ok(heap2, #[trigger] left[j])
        && left[j].buffer != head.buffer by {
        assert(left[j].buffer == queue[j + gone].buffer);
        assert(queue[j + gone].buffer != head.buffer);
    }
    assert forall|i: int| 0 <= i < rest.len() implies descriptor_ok(heap2, #[trigger] rest[i])
        && live(heap2, rest[i].buffer) by {
        assert(rest[i] == pending[i + 1]);
        assert(descriptor_ok(heap, pending[i + 1]));
        assert(live(heap, pending[i + 1].buffer));
    }
    assert forall|i: int, j: int| 0 <= i < j < left.len() implies (#[trigger] left[i]).buffer != (
    #[trigger] left[j]).buffer by {
        assert(left[i].buffer == queue[i + gone].buffer);
        assert(left[j].buffer == queue[j + gone].buffer);
    }
    assert forall|i: int, j: int| 0 <= i < j < rest.len() implies (#[trigger] rest[i]).buffer != (
    #[trigger] rest[j]).buffer by {
        assert(rest[i] == pending[i + 1]);
        assert(rest[j] == pending[j + 1]);
    }
    assert forall|i: int, j: int| 0 <= i < rest.len() && 0 <= j < left.len() implies (
    #[trigger] rest[i]).buffer != (#[trigger] left[j]).buffer by {
        assert(rest[i] == pending[i + 1]);
        assert(left[j].buffer == queue[j + gone].buffer);
    }
    assert forall|j: int| 0 <= j < shifted.controller.queue.len() implies exists|k: int|
        0 <= k < w.controller.queue.len() && #[trigger] w.controller.queue[k].buffer == (
        #[trigger] shifted.controller.queue[j]).buffer by {
        assert(w.controller.queue[j + gone].buffer == left[j].buffer);
    }
    assert(shifted.memory_ok());
    if !fill_ready(w.controller.total, head) {
        let filled = filled_from_queue(w.controller.total, head);
        let back = after.with_controller(after.controller.with_head(filled));
        let all = back.controller.pending;
        assert(after.controller.total == 0);
        lemma_sum_zero(heap, left);
        assert(left.len() == 0);
        assert(descriptor_ok(heap2, filled));
        assert forall|i: int| 0 <= i < all.len() implies descriptor_ok(heap2, #[trigger] all[i])
            && live(heap2, all[i].buffer) by {
            if i > 0 {
                assert(all[i] == rest[i - 1]);
            }
        }
        assert forall|i: int, j: int| 0 <= i < j < all.len() implies (#[trigger] all[i]).buffer != (
        #[trigger] all[j]).buffer by {
            assert(all[i].buffer == pending[i].buffer);
            assert(all[j].buffer == pending[j].buffer);
        }
        assert(back.memory_ok());
    }
}

/// What one descriptor keeps while it is filled.
pub open spec fn same_region(before: PullIntoDescriptor, after: PullIntoDescriptor) -> bool {
    after == (PullIntoDescriptor { bytes_filled: after.bytes_filled, ..before })
}

/// The queue and the descriptors after the pending ones were filled from the queue.
pub proof fn lemma_process(w: ByteWorld)
    requires
        w.memory_ok(),
        w.controller.byob_request is None,
    ensures
        ({
            let (after, ready) = w.process_pull_intos();
            let pending = w.controller.pending;
            let left = after.controller.pending;
            &&& after.memory_ok()
            &&& after.handover_ok(ready)
            &&& after.slots == w.slots
            &&& after.controller == (ByteControllerModel {
                queue: after.controller.queue,
                total: after.controller.total,
                pending: left,
                ..w.controller
            })
            &&& after.scope == w.scope.with_heap(after.scope.heap)
            &&& after.scope.heap.len() == w.scope.heap.len()
            &&& ready.len() + left.len() == pending.len()
            &&& left.len() == 0 || after.controller.total == 0
            &&& forall|i: int|
                0 <= i < ready.len() ==> {
                    &&& same_region(pending[i], #[trigger] ready[i])
                    &&& ready[i].minimum_fill <= ready[i].bytes_filled
                    &&& ready[i].bytes_filled <= ready[i].byte_length
                    &&& ready[i].bytes_filled as int % ready[i].element_size as int == 0
                }
            &&& forall|i: int|
                0 <= i < left.len() ==> {
                    &&& same_region(pending[i + ready.len()], #[trigger] left[i])
                    &&& i > 0 ==> left[i] == pending[i + ready.len()]
                }
            &&& forall|b: usize|
                can_transfer(w.scope.heap, b) ==> #[trigger] can_transfer(after.scope.heap, b)
            &&& forall|j: int|
                0 <= j < after.controller.queue.len() ==> exists|k: int|
                    0 <= k < w.controller.queue.len() && #[trigger] w.controller.queue[k].buffer
                        == (#[trigger] after.controller.queue[j]).buffer
            &&& ready.len() == 0 && w.controller.pending.len() == 0 ==> after == w
        }),
    decreases w.controller.pending.len(),
{
    let pending = w.controller.pending;
    if pending.len() == 0 || w.controller.total == 0 {
        assert forall|j: int| 0 <= j < w.controller.queue.len() implies exists|k: int|
            0 <= k < w.controller.queue.len() && #[trigger] w.controller.queue[k].buffer == (
            #[trigger] w.controller.queue[j]).buffer by {
            assert(w.controller.queue[j].buffer == w.controller.queue[j].buffer);
        }
    } else {
        let head = pending[0];
        assert(descriptor_ok(w.scope.heap, head));
        lemma_fill_shift(w);
        lemma_fill_count(w.controller.total, head);
        let filled = filled_from_queue(w.controller.total, head);
        let next = w.fill(head);
        let shifted = next.with_controller(next.controller.shifted());
        if fill_ready(w.controller.total, head) {
            lemma_process(shifted);
            let (after, tail) = shifted.process_pull_intos();
            let ready = seq![filled] + tail;
            let left = after.controller.pending;
            assert(ready.len() == tail.len() + 1);
            assert forall|i: int| 0 <= i < ready.len() implies {
                &&& same_region(pending[i], #[trigger] ready[i])
                &&& ready[i].minimum_fill <= ready[i].bytes_filled
                &&& ready[i].bytes_filled <= ready[i].byte_length
                &&& ready[i].bytes_filled as int % ready[i].element_size as int == 0
            } by {
                if i > 0 {
                    assert(ready[i] == tail[i - 1]);
                    assert(shifted.controller.pending[i - 1] == pending[i]);
                }
            }
            assert forall|i: int| 0 <= i < left.len() implies {
                &&& same_region(pending[i + ready.len()], #[trigger] left[i])
                &&& i > 0 ==> left[i] == pending[i + ready.len()]
            } by {
                assert(shifted.controller.pending[i + tail.len()] == pending[i + ready.len()]);
            }
            assert forall|i: int| 0 <= i < ready.len() implies can_transfer(
                after.scope.heap,
                (#[trigger] ready[i]).buffer,
            ) by {
                if i > 0 {
                    assert(ready[i] == tail[i - 1]);
                } else {
                    assert(can_transfer(shifted.scope.heap, head.buffer));
                }
            }
            assert forall|i: int, j: int| 0 <= i < j < ready.len() implies (
            #[trigger] ready[i]).buffer != (#[trigger] ready[j]).buffer by {
                assert(same_region(pending[i], ready[i]));
                assert(same_region(pending[j], ready[j]));
                assert(pending[i].buffer != pending[j].buffer);
            }
            assert forall|i: int, j: int|
                0 <= i < ready.len() && 0 <= j < after.controller.queue.len() implies (
            #[trigger] ready[i]).buffer != (#[trigger] after.controller.queue[j]).buffer by {
                if i > 0 {
                    assert(ready[i] == tail[i - 1]);
                } else {
                    let k = choose|k: int|
                        0 <= k < shifted.controller.queue.len()
                            && #[trigger] shifted.controller.queue[k].buffer
                            == after.controller.queue[j].buffer;
                    assert(shifted.controller.queue[k].buffer != head.buffer);
                }
            }
            assert forall|i: int, j: int|
                0 <= i < ready.len() && 0 <= j < left.len() implies (#[trigger] ready[i]).buffer
                != (#[trigger] left[j]).buffer by {
                assert(same_region(pending[i], ready[i]));
                assert(same_region(pending[j + ready.len()], left[j]));
            }
            assert forall|j: int| 0 <= j < after.controller.queue.len() implies exists|k: int|
                0 <= k < w.controller.queue.len() && #[trigger] w.controller.queue[k].buffer == (
                #[trigger] after.controller.queue[j]).buffer by {
                let k = choose|k: int|
                    0 <= k < shifted.controller.queue.len()
                        && #[trigger] shifted.controller.queue[k].buffer
                        == after.controller.queue[j].buffer;
                let l = choose|l: int|
                    0 <= l < w.controller.queue.len() && #[trigger] w.controller.queue[l].buffer
                        == shifted.controller.queue[k].buffer;
                assert(w.controller.queue[l].buffer == after.controller.queue[j].buffer);
            }
            assert forall|b: usize| can_transfer(w.scope.heap, b) implies #[trigger] can_transfer(
                after.scope.heap,
                b,
            ) by {
                assert(can_transfer(shifted.scope.heap, b));
            }
            assert(w.process_pull_intos() == (after, ready));
        } else {
            let back = next.with_controller(next.controller.with_head(filled));
            assert(w.process_pull_intos() == (back, Seq::<PullIntoDescriptor>::empty()));
        }
    }
}

/// Handing over the first of several filled descriptors.
pub proof fn lemma_commit(w: ByteWorld, descriptors: Seq<PullIntoDescriptor>)
    requires
        w.memory_ok(),
        w.handover_ok(descriptors),
        descriptors.len() > 0,
    ensures
        ({
            let after = w.commit(descriptors[0]);
            &&& after.memory_ok()
            &&& after.handover_ok(descriptors.drop_first())
            &&& after.controller == w.controller
            &&& after.scope.heap == transferred(w.scope.heap, descriptors[0].buffer)
        }),
{
    let heap = w.scope.heap;
    let gone = descriptors[0].buffer;
    let after = w.commit(descriptors[0]);
    let heap2 = after.scope.heap;
    let queue = w.controller.queue;
    let pending = w.controller.pending;
    assert(heap2.len() == heap.len() + 1);
    assert(can_transfer(heap, gone));
    assert forall|i: int| 0 <= i < queue.len() implies entry_ok(heap2, #[trigger] queue[i]) by {
        assert(entry_ok(heap, queue[i]));
        assert(descriptors[0].buffer != queue[i].buffer);
    }
    assert forall|i: int| 0 <= i < pending.len() implies descriptor_ok(
        heap2,
        #[trigger] pending[i],
    ) && (live(heap, pending[i].buffer) ==> live(heap2, pending[i].buffer)) by {
        assert(descriptor_ok(heap, pending[i]));
        assert(descriptors[0].buffer != pending[i].buffer);
    }
    let rest = descriptors.drop_first();
    assert forall|i: int| 0 <= i < rest.len() implies can_transfer(
        heap2,
        (#[trigger] rest[i]).buffer,
    ) by {
        assert(rest[i] == descriptors[i + 1]);
        assert(descriptors[0].buffer != descriptors[i + 1].buffer);
    }
    assert forall|i: int, j: int| 0 <= i < j < rest.len() implies (#[trigger] rest[i]).buffer != (
    #[trigger] rest[j]).buffer by {
        assert(rest[i] == descriptors[i + 1]);
        assert(rest[j] == descriptors[j + 1]);
    }
    assert forall|i: int, j: int| 0 <= i < rest.len() && 0 <= j < queue.len() implies (
    #[trigger] rest[i]).buffer != (#[trigger] queue[j]).buffer by {
        assert(rest[i] == descriptors[i + 1]);
    }
    assert forall|i: int, j: int| 0 <= i < rest.len() && 0 <= j < pending.len() implies (
    #[trigger] rest[i]).buffer != (#[trigger] pending[j]).buffer by {
        assert(rest[i] == descriptors[i + 1]);
    }
}

/// A region at the end of the queue.
pub proof fn lemma_with_entry(w: ByteWorld, entry: ByteQueueEntry)
    requires
        w.memory_ok(),
        entry_ok(w.scope.heap, entry),
        w.controller.total + entry.byte_length <= u128::MAX,
        forall|i: int|
            0 <= i < w.controller.queue.len() ==> (#[trigger] w.controller.queue[i]).buffer
                != entry.buffer,
        forall|i: int|
            0 <= i < w.controller.pending.len() ==> (#[trigger] w.controller.pending[i]).buffer
                != entry.buffer,
    ensures
        w.with_controller(
            w.controller.with_entry(entry.buffer, entry.byte_offset, entry.byte_length),
        ).memory_ok(),
{
    let after = w.with_controller(
        w.controller.with_entry(entry.buffer, entry.byte_offset, entry.byte_length),
    );
    lemma_sum_push(w.controller.queue, entry);
    let queue = after.controller.queue;
    assert forall|i: int| 0 <= i < queue.len() implies entry_ok(
        w.scope.heap,
        #[trigger] queue[i],
    ) by {
        if i < w.controller.queue.len() {
            assert(queue[i] == w.controller.queue[i]);
        }
    }
    assert forall|i: int, j: int| 0 <= i < j < queue.len() implies (#[trigger] queue[i]).buffer
        != (#[trigger] queue[j]).buffer by {
        assert(queue[i] == w.controller.queue[i]);
        if j < w.controller.queue.len() {
            assert(queue[j] == w.controller.queue[j]);
        }
    }
    assert forall|i: int, j: int|
        0 <= i < after.controller.pending.len() && 0 <= j < queue.len() implies (
    #[trigger] after.controller.pending[i]).buffer != (#[trigger] queue[j]).buffer by {
        if j < w.controller.queue.len() {
            assert(queue[j] == w.controller.queue[j]);
        }
    }
}

/// Buffers that a stream does not own may change and new ones may come.
pub proof fn lemma_heap_grows(w: ByteWorld, heap: Heap)
    requires
        w.memory_ok(),
        heap.len() >= w.scope.heap.len(),
        forall|i: int|
            0 <= i < w.controller.queue.len() ==> heap[(
            #[trigger] w.controller.queue[i]).buffer as int]
                == w.scope.heap[w.controller.queue[i].buffer as int],
        forall|i: int|
            0 <= i < w.controller.pending.len() ==> heap[(
            #[trigger] w.controller.pending[i]).buffer as int]
                == w.scope.heap[w.controller.pending[i].buffer as int],
    ensures
        w.with_heap(heap).memory_ok(),
{
    let after = w.with_heap(heap);
    assert forall|i: int| 0 <= i < w.controller.queue.len() implies entry_ok(
        heap,
        #[trigger] w.controller.queue[i],
    ) by {
        assert(entry_ok(w.scope.heap, w.controller.queue[i]));
    }
    assert forall|i: int| 0 <= i < w.controller.pending.len() implies descriptor_ok(
        heap,
        #[trigger] w.controller.pending[i],
    ) by {
        assert(descriptor_ok(w.scope.heap, w.controller.pending[i]));
    }
}

/// The list without its first descriptor.
pub proof fn lemma_shift(w: ByteWorld)
    requires
        w.memory_ok(),
        w.controller.pending.len() > 0,
        w.controller.byob_request is None,
    ensures
        w.with_controller(w.controller.shifted()).memory_ok(),
{
    let rest = w.controller.pending.drop_first();
    assert forall|i: int| 0 <= i < rest.len() implies descriptor_ok(
        w.scope.heap,
        #[trigger] rest[i],
    ) && live(w.scope.heap, rest[i].buffer) by {
        assert(rest[i] == w.controller.pending[i + 1]);
    }
    assert forall|i: int, j: int| 0 <= i < j < rest.len() implies (#[trigger] rest[i]).buffer != (
    #[trigger] rest[j]).buffer by {
        assert(rest[i] == w.controller.pending[i + 1]);
        assert(rest[j] == w.controller.pending[j + 1]);
    }
    assert forall|i: int, j: int|
        0 <= i < rest.len() && 0 <= j < w.controller.queue.len() implies (
    #[trigger] rest[i]).buffer != (#[trigger] w.controller.queue[j]).buffer by {
        assert(rest[i] == w.controller.pending[i + 1]);
    }
}

/// The first descriptor's buffer taken back from the source.
pub proof fn lemma_retake_head(w: ByteWorld)
    requires
        w.memory_ok(),
        w.controller.pending.len() > 0,
        live(w.scope.heap, w.controller.pending[0].buffer),
        w.scope.heap.len() <= usize::MAX,
    ensures
        w.retake_head().memory_ok(),
        w.retake_head().controller.byob_request is None,
        can_transfer(w.scope.heap, w.controller.pending[0].buffer),
{
    let heap = w.scope.heap;
    let pending = w.controller.pending;
    let queue = w.controller.queue;
    let head = pending[0];
    assert(descriptor_ok(heap, head));
    let after = w.retake_head();
    let heap2 = after.scope.heap;
    let all = after.controller.pending;
    assert(heap2 == transferred(heap, head.buffer));
    assert forall|i: int| 0 <= i < queue.len() implies entry_ok(heap2, #[trigger] queue[i]) by {
        assert(entry_ok(heap, queue[i]));
        assert(pending[0].buffer != queue[i].buffer);
    }
    assert forall|i: int| 0 <= i < all.len() implies descriptor_ok(heap2, #[trigger] all[i])
        && live(heap2, all[i].buffer) by {
        if i > 0 {
            assert(all[i] == pending[i]);
            assert(descriptor_ok(heap, pending[i]));
            assert(live(heap, pending[i].buffer));
            assert(pending[0].buffer != pending[i].buffer);
        }
    }
    assert forall|i: int, j: int| 0 <= i < j < all.len() implies (#[trigger] all[i]).buffer != (
    #[trigger] all[j]).buffer by {
        assert(all[j] == pending[j]);
        assert(descriptor_ok(heap, pending[j]));
        if i > 0 {
            assert(all[i] == pending[i]);
        }
    }
    assert forall|i: int, j: int| 0 <= i < all.len() && 0 <= j < queue.len() implies (
    #[trigger] all[i]).buffer != (#[trigger] queue[j]).buffer by {
        assert(entry_ok(heap, queue[j]));
        if i > 0 {
            assert(all[i] == pending[i]);
        }
    }
}

/// Filled descriptors handed over one by one.
pub proof fn lemma_commit_all(w: ByteWorld, descriptors: Seq<PullIntoDescriptor>)
    requires
        w.memory_ok(),
        w.handover_ok(descriptors),
        w.awaited(descriptors),
    ensures
        ({
            let after = w.commit_all(descriptors);
            &&& after.memory_ok()
            &&& after.controller == w.controller
            &&& after.scope.heap.len() == w.scope.heap.len() + descriptors.len()
            &&& after.slots.state == w.slots.state
            &&& after.slots.requests().len() == w.slots.requests().len() - (
                if descriptors.len() > 0 && descriptors[0].reader_type is Default {
                    descriptors.len() as int
                } else {
                    0
                })
            &&& after.slots.into_requests().len() == w.slots.into_requests().len() - (
                if descriptors.len() > 0 && descriptors[0].reader_type is Byob {
                    descriptors.len() as int
                } else {
                    0
                })
            &&& w.slots.reader is Default <==> after.slots.reader is Default
            &&& w.slots.reader is Byob <==> after.slots.reader is Byob
        }),
    decreases descriptors.len(),
{
    if descriptors.len() > 0 {
        lemma_commit(w, descriptors);
        let next = w.commit(descriptors[0]);
        let rest = descriptors.drop_first();
        assert(descriptors[0].reader_type !is Released);
        assert forall|i: int| 0 <= i < rest.len() implies (#[trigger] rest[i]).reader_type
            == descriptors[0].reader_type by {
            assert(rest[i] == descriptors[i + 1]);
        }
        lemma_commit_all(next, rest);
    }
}

/// The queue without its first entry.
pub proof fn lemma_dequeue(w: ByteWorld)
    requires
        w.memory_ok(),
        w.controller.queue.len() > 0,
    ensures
        w.with_controller(
            ByteControllerModel {
                queue: w.controller.queue.drop_first(),
                total: (w.controller.total - w.controller.queue[0].byte_length) as u128,
                ..w.controller
            },
        ).memory_ok(),
{
    let rest = w.controller.queue.drop_first();
    assert forall|i: int| 0 <= i < rest.len() implies entry_ok(w.scope.heap, #[trigger] rest[i]) by {
        assert(rest[i] == w.controller.queue[i + 1]);
    }
    assert forall|i: int, j: int| 0 <= i < j < rest.len() implies (#[trigger] rest[i]).buffer != (
    #[trigger] rest[j]).buffer by {
        assert(rest[i] == w.controller.queue[i + 1]);
        assert(rest[j] == w.controller.queue[j + 1]);
    }
    assert forall|i: int, j: int|
        0 <= i < w.controller.pending.len() && 0 <= j < rest.len() implies (
    #[trigger] w.controller.pending[i]).buffer != (#[trigger] rest[j]).buffer by {
        assert(rest[j] == w.controller.queue[j + 1]);
    }
}

/// A read request answered from the queue.
pub proof fn lemma_process_read_request(w: ByteWorld)
    requires
        w.memory_ok(),
        w.slots.requests().len() > 0 ==> w.slots.state is Readable,
    ensures
        ({
            let (after, answered) = w.process_read_request();
            &&& after.memory_ok()
            &&& after.controller.total <= w.controller.total
            &&& after.controller.auto_allocate_chunk_size
                == w.controller.auto_allocate_chunk_size
            &&& after.scope.heap == w.scope.heap
            &&& after.scope.limit == w.scope.limit
            &&& after.controller.pending == w.controller.pending
            &&& after.controller.byob_request == w.controller.byob_request
            &&& after.controller.close_requested == w.controller.close_requested
            &&& w.slots.reader is Default <==> after.slots.reader is Default
            &&& w.slots.reader is Byob <==> after.slots.reader is Byob
            &&& !w.controller.close_requested ==> after.slots.state == w.slots.state
            &&& (w.controller.pull_again ==> w.controller.pulling) ==> (
            after.controller.pull_again ==> after.controller.pulling)
            &&& answered ==> w.controller.queue.len() > 0 && after.controller.queue
                == w.controller.queue.drop_first()
            &&& !answered ==> after == w
        }),
{
    lemma_sum_zero(w.scope.heap, w.controller.queue);
    if w.slots.requests().len() > 0 && w.controller.total > 0 {
        lemma_dequeue(w.with_slots(w.slots.without_first_request()));
    }
}

/// The bytes of a buffer that is not the stream's own move.
pub proof fn lemma_transfer_foreign(w: ByteWorld, buffer: usize)
    requires
        w.memory_ok(),
        w.foreign(buffer),
        can_transfer(w.scope.heap, buffer),
    ensures
        w.with_heap(transferred(w.scope.heap, buffer)).memory_ok(),
{
    let heap = w.scope.heap;
    let heap2 = transferred(heap, buffer);
    let queue = w.controller.queue;
    let pending = w.controller.pending;
    assert forall|i: int| 0 <= i < queue.len() implies entry_ok(heap2, #[trigger] queue[i]) by {
        assert(entry_ok(heap, queue[i]));
    }
    assert forall|i: int| 0 <= i < pending.len() implies descriptor_ok(
        heap2,
        #[trigger] pending[i],
    ) by {
        assert(descriptor_ok(heap, pending[i]));
    }
}

/// A copy of a region at the end of the queue.
pub proof fn lemma_enqueue_cloned(
    w: ByteWorld,
    buffer: usize,
    byte_offset: usize,
    byte_length: usize,
)
    requires
        w.memory_ok(),
        can_clone(w.scope, buffer, byte_length as nat),
        byte_offset + byte_length <= w.scope.heap[buffer as int].data.len(),
        byte_length > 0,
        w.scope.heap.len() <= usize::MAX,
        w.controller.total + byte_length <= u128::MAX,
    ensures
        w.enqueue_cloned(buffer, byte_offset, byte_length).0.memory_ok(),
{
    let place = w.scope.heap.len() as usize;
    let data = w.scope.heap[buffer as int].data.subrange(
        byte_offset as int,
        byte_offset + byte_length,
    );
    let heap = w.scope.heap.push(fresh_buffer(data));
    assert forall|i: int| 0 <= i < w.controller.queue.len() implies heap[(
    #[trigger] w.controller.queue[i]).buffer as int]
        == w.scope.heap[w.controller.queue[i].buffer as int] && w.controller.queue[i].buffer
        != place by {
        assert(entry_ok(w.scope.heap, w.controller.queue[i]));
    }
    assert forall|i: int| 0 <= i < w.controller.pending.len() implies heap[(
    #[trigger] w.controller.pending[i]).buffer as int]
        == w.scope.heap[w.controller.pending[i].buffer as int] && w.controller.pending[i].buffer
        != place by {
        assert(descriptor_ok(w.scope.heap, w.controller.pending[i]));
    }
    lemma_heap_grows(w, heap);
    lemma_with_entry(
        w.with_heap(heap),
        ByteQueueEntry { buffer: place, byte_offset: 0, byte_length },
    );
}

/// What a released reader left, back in the queue.
pub proof fn lemma_enqueue_detached(w: ByteWorld)
    requires
        w.memory_ok(),
        w.controller.byob_request is None,
        w.controller.pending.len() > 0,
        w.controller.pending[0].bytes_filled > 0 ==> {
            &&& w.scope.heap.len() <= usize::MAX
            &&& w.controller.total + w.controller.pending[0].bytes_filled <= u128::MAX
        },
        w.enqueue_detached().1 is Ok,
    ensures
        ({
            let head = w.controller.pending[0];
            let after = w.enqueue_detached().0;
            let entry = ByteQueueEntry {
                buffer: w.scope.heap.len() as usize,
                byte_offset: 0,
                byte_length: head.bytes_filled,
            };
            &&& after.memory_ok()
            &&& after.slots == w.slots
            &&& after.scope.effects == w.scope.effects
            &&& after.scope.limit == w.scope.limit
            &&& after.controller == (ByteControllerModel {
                queue: if head.bytes_filled > 0 {
                    w.controller.queue.push(entry)
                } else {
                    w.controller.queue
                },
                total: (w.controller.total + head.bytes_filled) as u128,
                pending: w.controller.pending.drop_first(),
                ..w.controller
            })
            &&& head.bytes_filled == 0 ==> after.scope.heap == w.scope.heap
            &&& head.bytes_filled > 0 ==> after.scope.heap == w.scope.heap.push(
                fresh_buffer(
                    w.scope.heap[head.buffer as int].data.subrange(
                        head.byte_offset as int,
                        head.byte_offset + head.bytes_filled,
                    ),
                ),
            )
        }),
{
    let head = w.controller.pending[0];
    assert(descriptor_ok(w.scope.heap, head));
    if head.bytes_filled > 0 {
        lemma_enqueue_cloned(w, head.buffer, head.byte_offset, head.bytes_filled);
        lemma_shift(w.enqueue_cloned(head.buffer, head.byte_offset, head.bytes_filled).0);
    } else {
        lemma_shift(w);
    }
}

/// Whether a buffer is neither in the queue nor among the descriptors.
pub open spec fn apart(w: ByteWorld, buffer: usize) -> bool {
    &&& forall|i: int|
        0 <= i < w.controller.queue.len() ==> (#[trigger] w.controller.queue[i]).buffer != buffer
    &&& forall|i: int|
        0 <= i < w.controller.pending.len() ==> (#[trigger] w.controller.pending[i]).buffer
            != buffer
}

/// A buffer that has just come into the store is none of the stream's.
pub proof fn lemma_new_buffer_apart(before: ByteWorld, after: ByteWorld)
    requires
        before.memory_ok(),
        after.controller == before.controller,
        before.scope.heap.len() <= usize::MAX,
    ensures
        apart(after, before.scope.heap.len() as usize),
{
    assert forall|i: int| 0 <= i < after.controller.queue.len() implies (
    #[trigger] after.controller.queue[i]).buffer != before.scope.heap.len() as usize by {
        assert(entry_ok(before.scope.heap, before.controller.queue[i]));
    }
    assert forall|i: int| 0 <= i < after.controller.pending.len() implies (
    #[trigger] after.controller.pending[i]).buffer != before.scope.heap.len() as usize by {
        assert(descriptor_ok(before.scope.heap, before.controller.pending[i]));
    }
}

/// What holds once the first descriptor has been made ready for a chunk in `buffer`.
pub proof fn lemma_prepare_head(w: ByteWorld, buffer: usize)
    requires
        w.memory_ok(),
        w.controller.byob_request is Some ==> w.controller.pending.len() > 0,
        w.controller.pending.len() > 0 ==> w.controller.queue.len() == 0,
        w.prepare_head().0.scope.heap.len() <= usize::MAX,
        buffer < w.scope.heap.len(),
        apart(w, buffer),
        w.prepare_head().1 is Ok,
    ensures
        ({
            let after = w.prepare_head().0;
            &&& after.memory_ok()
            &&& after.controller.byob_request is None
            &&& after.slots == w.slots
            &&& after.scope.limit == w.scope.limit
            &&& after.controller == (ByteControllerModel {
                byob_request: None,
                queue: after.controller.queue,
                total: after.controller.total,
                pending: after.controller.pending,
                ..w.controller
            })
            &&& apart(after, buffer)
            &&& after.scope.heap.len() >= w.scope.heap.len()
            &&& after.scope.heap[buffer as int] == w.scope.heap[buffer as int]
        }),
        w.controller.pending.len() == 0 ==> w.prepare_head().0 == w,
        w.controller.pending.len() > 0 && w.controller.pending[0].reader_type !is Released ==> {
            let after = w.prepare_head().0;
            &&& after.controller.queue.len() == 0
            &&& after.controller.pending.len() == w.controller.pending.len()
            &&& forall|i: int|
                0 <= i < after.controller.pending.len() ==> {
                    &&& (#[trigger] after.controller.pending[i]).reader_type
                        == w.controller.pending[i].reader_type
                    &&& after.controller.pending[i].bytes_filled
                        == w.controller.pending[i].bytes_filled
                }
        },
        w.controller.pending.len() > 0 && w.controller.pending[0].reader_type is Released ==> {
            let after = w.prepare_head().0;
            &&& after.controller.pending.len() == w.controller.pending.len() - 1
            &&& forall|i: int|
                0 <= i < after.controller.pending.len() ==> #[trigger] after.controller.pending[i]
                    == w.controller.pending[i + 1]
            &&& after.controller.queue.len() == if w.controller.pending[0].bytes_filled > 0 {
                1int
            } else {
                0
            }
        },
{
    if w.controller.pending.len() > 0 {
        lemma_retake_head(w);
        let taken = w.retake_head();
        let head = taken.controller.pending[0];
        assert(descriptor_ok(w.scope.heap, w.controller.pending[0]));
        assert(w.controller.pending[0].buffer != buffer);
        assert(taken.scope.heap[buffer as int] == w.scope.heap[buffer as int]);
        assert(apart(taken, buffer)) by {
            assert forall|i: int| 0 <= i < taken.controller.pending.len() implies (
            #[trigger] taken.controller.pending[i]).buffer != buffer by {
                if i > 0 {
                    assert(taken.controller.pending[i] == w.controller.pending[i]);
                }
            }
        }
        if head.reader_type is Released {
            assert(queue_sum(taken.controller.queue) == 0);
            lemma_enqueue_detached(taken);
            let after = w.prepare_head().0;
            assert forall|i: int|
                0 <= i < after.controller.pending.len() implies #[trigger] after.controller.pending[i]
                == w.controller.pending[i + 1] by {
                assert(after.controller.pending[i] == taken.controller.pending[i + 1]);
            }
        }
    }
}

/// A descriptor that is filled from the queue keeps its buffer.
pub proof fn lemma_fill_keeps_live(w: ByteWorld, descriptor: PullIntoDescriptor)
    requires
        w.can_fill(descriptor),
    ensures
        can_transfer(w.fill(descriptor).scope.heap, descriptor.buffer),
        w.fill(descriptor).scope.heap.len() == w.scope.heap.len(),
{
    let count = fill_count(w.controller.total, descriptor);
    lemma_fill_count(w.controller.total, descriptor);
    lemma_bytes_len(w.scope.heap, w.controller.queue);
    lemma_put_bytes(
        w.scope.heap,
        descriptor,
        queue_bytes(w.scope.heap, w.controller.queue).take(count as int),
    );
}

/// Descriptors that wait to be handed over while others are filled from the queue.
pub proof fn lemma_process_handover(w: ByteWorld, first: Seq<PullIntoDescriptor>)
    requires
        w.memory_ok(),
        w.controller.byob_request is None,
        w.handover_ok(first),
        w.awaited(first + w.controller.pending),
    ensures
        ({
            let (after, ready) = w.process_pull_intos();
            &&& after.handover_ok(first + ready)
            &&& after.awaited(first + ready)
        }),
{
    lemma_process(w);
    let (after, ready) = w.process_pull_intos();
    let all = first + ready;
    let before = first + w.controller.pending;
    assert forall|i: int| 0 <= i < all.len() implies (#[trigger] all[i]).reader_type
        == before[i].reader_type && can_transfer(after.scope.heap, all[i].buffer) && (i
        >= first.len() ==> all[i].buffer == w.controller.pending[i - first.len()].buffer) by {
        if i < first.len() {
            assert(all[i] == first[i]);
            assert(can_transfer(w.scope.heap, first[i].buffer));
        } else {
            assert(all[i] == ready[i - first.len()]);
            assert(same_region(w.controller.pending[i - first.len()], ready[i - first.len()]));
        }
    }
    assert forall|i: int, j: int| 0 <= i < j < all.len() implies (#[trigger] all[i]).buffer != (
    #[trigger] all[j]).buffer by {
        if i < first.len() {
            assert(all[i] == first[i]);
            if j < first.len() {
                assert(all[j] == first[j]);
            } else {
                assert(first[i].buffer != w.controller.pending[j - first.len()].buffer);
            }
        } else {
            assert(w.controller.pending[i - first.len()].buffer != w.controller.pending[j
                - first.len()].buffer);
        }
    }
    assert forall|i: int, j: int|
        0 <= i < all.len() && 0 <= j < after.controller.queue.len() implies (
    #[trigger] all[i]).buffer != (#[trigger] after.controller.queue[j]).buffer by {
        let k = choose|k: int|
            0 <= k < w.controller.queue.len() && #[trigger] w.controller.queue[k].buffer
                == after.controller.queue[j].buffer;
        if i < first.len() {
            assert(all[i] == first[i]);
            assert(first[i].buffer != w.controller.queue[k].buffer);
        } else {
            assert(w.controller.pending[i - first.len()].buffer != w.controller.queue[k].buffer);
        }
    }
    assert forall|i: int, j: int|
        0 <= i < all.len() && 0 <= j < after.controller.pending.len() implies (
    #[trigger] all[i]).buffer != (#[trigger] after.controller.pending[j]).buffer by {
        assert(same_region(
            w.controller.pending[j + ready.len()],
            after.controller.pending[j],
        ));
        if i < first.len() {
            assert(all[i] == first[i]);
            assert(first[i].buffer != w.controller.pending[j + ready.len()].buffer);
        } else {
            assert(w.controller.pending[i - first.len()].buffer != w.controller.pending[j
                + ready.len()].buffer);
        }
    }
    if all.len() > 0 {
        assert(before[0].reader_type == all[0].reader_type);
        assert forall|i: int| 0 <= i < all.len() implies (#[trigger] all[i]).reader_type
            == before[0].reader_type by {
            assert(all[i].reader_type == before[i].reader_type);
        }
    }
}

/// The pending descriptors behind a first one that is no longer counted.
pub proof fn lemma_rest_awaited(w: ByteWorld)
    requires
        w.kinds_ok(),
        w.counts_ok(),
        w.allocations_awaited(),
        w.slots.state is Readable,
        w.controller.pending.len() > 0,
    ensures
        w.awaited(w.controller.pending.drop_first()),
        w.controller.pending[0].reader_type !is Released ==> w.awaited(w.controller.pending),
{
    let pending = w.controller.pending;
    let rest = pending.drop_first();
    assert forall|i: int| 0 <= i < rest.len() implies rest[i] == #[trigger] pending[i + 1] by {
    }
    assert forall|i: int| 0 <= i < rest.len() implies (#[trigger] rest[i]).reader_type == pending[i
        + 1].reader_type by {
    }
}

/// What a released reader left in a descriptor that the source has just written to.
pub proof fn lemma_leftover_enqueued(w: ByteWorld, descriptor: PullIntoDescriptor)
    requires
        w.memory_ok(),
        w.kinds_ok(),
        w.counts_ok(),
        w.allocations_awaited(),
        w.slots.state is Readable,
        w.controller.byob_request is None,
        w.controller.pending.len() > 0,
        same_region(w.controller.pending[0], descriptor),
        0 < descriptor.bytes_filled <= descriptor.byte_length,
        w.scope.heap.len() <= usize::MAX,
        w.controller.total + descriptor.bytes_filled <= u128::MAX,
        w.with_controller(w.controller.with_head(descriptor)).enqueue_detached().1 is Ok,
    ensures
        ({
            let after = w.with_controller(
                w.controller.with_head(descriptor),
            ).enqueue_detached().0;
            &&& after.memory_ok()
            &&& after.controller.byob_request is None
            &&& after.awaited(after.controller.pending)
            &&& after.slots == w.slots
        }),
{
    assert(descriptor_ok(w.scope.heap, w.controller.pending[0]));
    lemma_rest_awaited(w);
    lemma_shift(w);
    let rest = w.with_controller(w.controller.shifted());
    lemma_enqueue_cloned(
        rest,
        descriptor.buffer,
        descriptor.byte_offset,
        descriptor.bytes_filled,
    );
    let back = w.with_controller(w.controller.with_head(descriptor));
    let after = back.enqueue_detached().0;
    assert(back.controller.pending.drop_first() =~= w.controller.pending.drop_first());
    assert(after =~= rest.enqueue_cloned(
        descriptor.buffer,
        descriptor.byte_offset,
        descriptor.bytes_filled,
    ).0);
}

/// A filled descriptor that is about to be handed over, its last bytes that make no whole
/// element back in the queue.
pub proof fn lemma_remainder_enqueued(
    w: ByteWorld,
    filled: PullIntoDescriptor,
    remainder: usize,
    after: ByteWorld,
)
    requires
        w.memory_ok(),
        w.kinds_ok(),
        w.counts_ok(),
        w.allocations_awaited(),
        w.slots.state is Readable,
        w.controller.byob_request is None,
        w.controller.pending.len() > 0,
        same_region(w.controller.pending[0], filled),
        filled.reader_type !is Released,
        0 <= remainder <= filled.bytes_filled <= filled.byte_length,
        remainder > 0 ==> {
            &&& w.scope.heap.len() <= usize::MAX
            &&& w.controller.total + remainder <= u128::MAX
            &&& can_clone(w.scope, filled.buffer, remainder as nat)
            &&& after == w.with_controller(w.controller.shifted()).enqueue_cloned(
                filled.buffer,
                (filled.byte_offset + filled.bytes_filled - remainder) as usize,
                remainder,
            ).0
        },
        remainder == 0 ==> after == w.with_controller(w.controller.shifted()),
    ensures
        ({
            let whole = PullIntoDescriptor {
                bytes_filled: (filled.bytes_filled - remainder) as usize,
                ..filled
            };
            &&& after.memory_ok()
            &&& after.handover_ok(seq![whole])
            &&& after.awaited(seq![whole] + after.controller.pending)
            &&& after.slots == w.slots
            &&& after.controller.byob_request is None
        }),
{
    let head = w.controller.pending[0];
    assert(descriptor_ok(w.scope.heap, head));
    let rest = w.with_controller(w.controller.shifted());
    lemma_shift(w);
    lemma_rest_awaited(w);
    if remainder > 0 {
        lemma_enqueue_cloned(
            rest,
            filled.buffer,
            (filled.byte_offset + filled.bytes_filled - remainder) as usize,
            remainder,
        );
    }
    let whole = PullIntoDescriptor {
        bytes_filled: (filled.bytes_filled - remainder) as usize,
        ..filled
    };
    let one = seq![whole];
    assert forall|j: int| 0 <= j < after.controller.queue.len() implies whole.buffer != (
    #[trigger] after.controller.queue[j]).buffer by {
        if j < w.controller.queue.len() {
            assert(after.controller.queue[j] == w.controller.queue[j]);
            assert(w.controller.pending[0].buffer != w.controller.queue[j].buffer);
        }
    }
    assert forall|j: int| 0 <= j < after.controller.pending.len() implies whole.buffer != (
    #[trigger] after.controller.pending[j]).buffer by {
        assert(after.controller.pending[j] == w.controller.pending[j + 1]);
        assert(w.controller.pending[0].buffer != w.controller.pending[j + 1].buffer);
    }
    assert(after.handover_ok(one));
    let all = one + after.controller.pending;
    assert forall|i: int| 0 <= i < all.len() implies (#[trigger] all[i]).reader_type
        == w.controller.pending[i].reader_type by {
        if i > 0 {
            assert(all[i] == after.controller.pending[i - 1]);
        }
    }
}

/// The first descriptor given the bytes of a buffer that is not otherwise the stream's.
pub proof fn lemma_move_head(w: ByteWorld, buffer: usize)
    requires
        w.memory_ok(),
        w.controller.pending.len() > 0,
        w.foreign(buffer) || buffer == w.controller.pending[0].buffer,
        can_transfer(w.scope.heap, buffer),
        w.scope.heap[buffer as int].data.len() == w.controller.pending[0].buffer_byte_length,
        w.scope.heap.len() <= usize::MAX,
    ensures
        w.move_head(buffer).memory_ok(),
        live(w.move_head(buffer).scope.heap, w.move_head(buffer).controller.pending[0].buffer),
{
    let heap = w.scope.heap;
    let pending = w.controller.pending;
    let queue = w.controller.queue;
    let head = pending[0];
    assert(descriptor_ok(heap, head));
    let after = w.move_head(buffer);
    let heap2 = after.scope.heap;
    let all = after.controller.pending;
    assert forall|i: int| 0 <= i < queue.len() implies entry_ok(heap2, #[trigger] queue[i]) by {
        assert(entry_ok(heap, queue[i]));
        assert(pending[0].buffer != queue[i].buffer);
    }
    assert forall|i: int| 0 <= i < all.len() implies descriptor_ok(heap2, #[trigger] all[i])
        && live(heap2, all[i].buffer) by {
        if i > 0 {
            assert(all[i] == pending[i]);
            assert(descriptor_ok(heap, pending[i]));
            assert(live(heap, pending[i].buffer));
            assert(pending[0].buffer != pending[i].buffer);
        }
    }
    assert forall|i: int, j: int| 0 <= i < j < all.len() implies (#[trigger] all[i]).buffer != (
    #[trigger] all[j]).buffer by {
        assert(all[j] == pending[j]);
        assert(descriptor_ok(heap, pending[j]));
        if i > 0 {
            assert(all[i] == pending[i]);
        }
    }
    assert forall|i: int, j: int| 0 <= i < all.len() && 0 <= j < queue.len() implies (
    #[trigger] all[i]).buffer != (#[trigger] queue[j]).buffer by {
        assert(entry_ok(heap, queue[j]));
        if i > 0 {
            assert(all[i] == pending[i]);
        }
    }
}

} // verus!
