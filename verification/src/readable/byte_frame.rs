//! That a readable byte stream touches no array buffers but its own, and those that it is
//! handed: what it does leaves other streams as they are.

use vstd::prelude::*;

use crate::buffer::{can_transfer, live, transferred, ArrayBufferView};
use crate::readable::byte_memory::{
    apart, lemma_commit_all, lemma_fill_shift, lemma_heap_grows, lemma_process, same_region,
};
use crate::readable::byte_queue::{lemma_drop, lemma_fill_count, lemma_sum_zero};
use crate::readable::byte_stream_controller::{
    descriptor_ok, drop_bytes, entry_ok, fill_count, fill_ready, ByteControllerModel, ByteWorld,
    PullIntoDescriptor,
};
use crate::readable::slots::ReaderModel;
use crate::scope::ScopeModel;

verus! {

/// Whether what happened between two moments of a stream stays within its own buffers and
/// `given`, one that it was handed: all others are as they were, and what it keeps it had
/// or is new.
pub open spec fn within(before: ByteWorld, after: ByteWorld, given: Option<usize>) -> bool {
    &&& before.scope.heap.len() <= after.scope.heap.len()
    &&& before.scope.limit == after.scope.limit
    &&& forall|b: usize|
        b < before.scope.heap.len() && apart(before, b) && given != Some(b)
            ==> after.scope.heap[b as int] == #[trigger] before.scope.heap[b as int]
    &&& forall|b: usize|
        b < before.scope.heap.len() && apart(before, b) ==> #[trigger] apart(after, b)
}

/// Steps within the buffers of a stream add up.
pub proof fn lemma_within_trans(
    first: ByteWorld,
    second: ByteWorld,
    third: ByteWorld,
    given: Option<usize>,
)
    requires
        within(first, second, given),
        within(second, third, None),
    ensures
        within(first, third, given),
{
    assert forall|b: usize|
        b < first.scope.heap.len() && apart(first, b) && given != Some(b) implies
            third.scope.heap[b as int] == #[trigger] first.scope.heap[b as int] by {
        assert(apart(second, b));
        assert(second.scope.heap[b as int] == first.scope.heap[b as int]);
    }
    assert forall|b: usize| b < first.scope.heap.len() && apart(first, b) implies #[trigger] apart(
        third,
        b,
    ) by {
        assert(apart(second, b));
    }
}

/// Filling a descriptor stays within.
proof fn lemma_fill_within(w: ByteWorld, after: ByteWorld)
    requires
        w.memory_ok(),
        w.controller.pending.len() > 0,
        live(w.scope.heap, w.controller.pending[0].buffer),
        after == w.fill(w.controller.pending[0]).with_controller(
            w.fill(w.controller.pending[0]).controller.shifted(),
        ),
    ensures
        within(w, after, None),
{
    let head = w.controller.pending[0];
    let count = fill_count(w.controller.total, head);
    lemma_fill_count(w.controller.total, head);
    let gone = lemma_drop(w.scope.heap, w.controller.queue, count);
    let left = drop_bytes(w.controller.queue, count);
    assert forall|b: usize| b < w.scope.heap.len() && apart(w, b) implies #[trigger] apart(
        after,
        b,
    ) by {
        assert forall|i: int| 0 <= i < after.controller.queue.len() implies (
        #[trigger] after.controller.queue[i]).buffer != b by {
            assert(left[i].buffer == w.controller.queue[i + gone].buffer);
        }
        assert forall|i: int| 0 <= i < after.controller.pending.len() implies (
        #[trigger] after.controller.pending[i]).buffer != b by {
            assert(after.controller.pending[i] == w.controller.pending[i + 1]);
        }
    }
    assert forall|b: usize| b < w.scope.heap.len() && apart(w, b) implies
        after.scope.heap[b as int] == #[trigger] w.scope.heap[b as int] by {
        assert(w.controller.pending[0].buffer != b);
    }
}

/// Filling the pending descriptors stays within.
pub proof fn lemma_process_within(w: ByteWorld)
    requires
        w.memory_ok(),
        w.controller.byob_request is None,
    ensures
        within(w, w.process_pull_intos().0, None),
    decreases w.controller.pending.len(),
{
    if w.controller.pending.len() > 0 && w.controller.total > 0 {
        let head = w.controller.pending[0];
        lemma_fill_shift(w);
        let filled = w.fill(head);
        let shifted = filled.with_controller(filled.controller.shifted());
        lemma_fill_within(w, shifted);
        if fill_ready(w.controller.total, head) {
            lemma_process_within(shifted);
            lemma_within_trans(w, shifted, shifted.process_pull_intos().0, None);
        } else {
            let after = w.process_pull_intos().0;
            assert(after.scope.heap == shifted.scope.heap);
            assert forall|b: usize| b < w.scope.heap.len() && apart(w, b) implies #[trigger] apart(
                after,
                b,
            ) by {
                assert(apart(shifted, b));
                assert forall|i: int| 0 <= i < after.controller.pending.len() implies (
                #[trigger] after.controller.pending[i]).buffer != b by {
                    assert(w.controller.pending[i].buffer != b);
                }
            }
        }
    }
}

/// Handing over descriptors touches their buffers only.
pub proof fn lemma_commit_within(w: ByteWorld, descriptors: Seq<PullIntoDescriptor>)
    requires
        w.memory_ok(),
        w.handover_ok(descriptors),
        w.awaited(descriptors),
    ensures
        ({
            let after = w.commit_all(descriptors);
            &&& after.controller == w.controller
            &&& after.scope.limit == w.scope.limit
            &&& after.scope.heap.len() >= w.scope.heap.len()
            &&& forall|b: usize|
                b < w.scope.heap.len() && (forall|i: int|
                    0 <= i < descriptors.len() ==> (#[trigger] descriptors[i]).buffer != b)
                    ==> after.scope.heap[b as int] == #[trigger] w.scope.heap[b as int]
        }),
    decreases descriptors.len(),
{
    lemma_commit_all(w, descriptors);
    if descriptors.len() > 0 {
        crate::readable::byte_memory::lemma_commit(w, descriptors);
        let next = w.commit(descriptors[0]);
        let rest = descriptors.drop_first();
        lemma_rest_is_awaited(w, descriptors);
        lemma_commit_within(next, rest);
        assert forall|b: usize|
            b < w.scope.heap.len() && (forall|i: int|
                0 <= i < descriptors.len() ==> (#[trigger] descriptors[i]).buffer != b) implies
                w.commit_all(descriptors).scope.heap[b as int] == #[trigger] w.scope.heap[b as int] by {
            assert(descriptors[0].buffer != b);
            assert(next.scope.heap[b as int] == w.scope.heap[b as int]);
            assert forall|i: int| 0 <= i < rest.len() implies (#[trigger] rest[i]).buffer != b by {
                assert(rest[i] == descriptors[i + 1]);
            }
        }
    }
}

pub proof fn lemma_rest_is_awaited(w: ByteWorld, descriptors: Seq<PullIntoDescriptor>)
    requires
        w.awaited(descriptors),
        descriptors.len() > 0,
    ensures
        w.commit(descriptors[0]).awaited(descriptors.drop_first()),
{
    let next = w.commit(descriptors[0]);
    let rest = descriptors.drop_first();
    assert forall|i: int| 0 <= i < rest.len() implies #[trigger] rest[i] == descriptors[i + 1] by {}
    if descriptors[0].reader_type is Default {
        assert(next.slots.requests() == w.slots.requests().drop_first());
    } else {
        assert(next.slots.into_requests() == w.slots.into_requests().drop_first());
    }
}

/// Filling descriptors and handing them over stays within, for descriptors that were the
/// stream's own at the outset.
proof fn lemma_process_and_commit_within(
    start: ByteWorld,
    w: ByteWorld,
    first: Seq<PullIntoDescriptor>,
    given: Option<usize>,
)
    requires
        w.memory_ok(),
        w.controller.byob_request is None,
        w.handover_ok(first),
        w.awaited(first + w.controller.pending),
        within(start, w, given),
        forall|b: usize, i: int|
            b < start.scope.heap.len() && #[trigger] apart(start, b) && 0 <= i < first.len()
                ==> (#[trigger] first[i]).buffer != b,
    ensures
        within(start, w.process_and_commit(first), given),
{
    let (after, ready) = w.process_pull_intos();
    lemma_process(w);
    crate::readable::byte_memory::lemma_process_handover(w, first);
    lemma_process_within(w);
    lemma_within_trans(start, w, after, given);
    let all = first + ready;
    lemma_commit_within(after, all);
    let end = after.commit_all(all);
    assert forall|b: usize| b < start.scope.heap.len() && apart(start, b) implies #[trigger] apart(
        end,
        b,
    ) by {
        assert(apart(after, b));
    }
    assert forall|b: usize|
        b < start.scope.heap.len() && apart(start, b) && given != Some(b) implies
            end.scope.heap[b as int] == #[trigger] start.scope.heap[b as int] by {
        assert(apart(w, b));
        assert(apart(after, b));
        assert forall|i: int| 0 <= i < all.len() implies (#[trigger] all[i]).buffer != b by {
            if i >= first.len() {
                let k = i - first.len();
                assert(same_region(w.controller.pending[k], ready[k]));
                assert(w.controller.pending[k].buffer != b);
            }
        }
        assert(after.scope.heap[b as int] == start.scope.heap[b as int]);
    }
}

/// Taking over the buffer of the first descriptor stays within.
proof fn lemma_retake_within(start: ByteWorld, w: ByteWorld, given: Option<usize>)
    requires
        within(start, w, given),
        w.memory_ok(),
        w.controller.pending.len() > 0,
        w.scope.heap.len() <= usize::MAX,
        forall|b: usize|
            b < start.scope.heap.len() && #[trigger] apart(start, b)
                ==> w.controller.pending[0].buffer != b,
    ensures
        within(start, w.retake_head(), given),
{
    let after = w.retake_head();
    let head = w.controller.pending[0];
    assert(descriptor_ok(w.scope.heap, head));
    assert forall|b: usize| b < start.scope.heap.len() && apart(start, b) implies #[trigger] apart(
        after,
        b,
    ) by {
        assert(apart(w, b));
        assert forall|i: int| 0 <= i < after.controller.pending.len() implies (
        #[trigger] after.controller.pending[i]).buffer != b by {
            if i > 0 {
                assert(after.controller.pending[i] == w.controller.pending[i]);
            }
        }
    }
    assert forall|b: usize|
        b < start.scope.heap.len() && apart(start, b) && given != Some(b) implies
            after.scope.heap[b as int] == #[trigger] start.scope.heap[b as int] by {
        assert(apart(w, b));
        assert(head.buffer != b);
    }
}

/// Putting a copy of a region into the queue stays within, whether it succeeds or not.
proof fn lemma_cloned_within(
    start: ByteWorld,
    w: ByteWorld,
    buffer: usize,
    byte_offset: usize,
    byte_length: usize,
    given: Option<usize>,
)
    requires
        within(start, w, given),
        w.scope.heap.len() <= usize::MAX,
    ensures
        within(start, w.enqueue_cloned(buffer, byte_offset, byte_length).0, given),
{
    let after = w.enqueue_cloned(buffer, byte_offset, byte_length).0;
    assert forall|b: usize| b < start.scope.heap.len() && apart(start, b) implies #[trigger] apart(
        after,
        b,
    ) by {
        assert(apart(w, b));
    }
    assert forall|b: usize|
        b < start.scope.heap.len() && apart(start, b) && given != Some(b) implies
            after.scope.heap[b as int] == #[trigger] start.scope.heap[b as int] by {
        assert(w.scope.heap[b as int] == start.scope.heap[b as int]);
    }
}

/// Putting what a released reader left back into the queue stays within.
proof fn lemma_detached_within(start: ByteWorld, w: ByteWorld, given: Option<usize>)
    requires
        within(start, w, given),
        w.controller.pending.len() > 0,
        w.scope.heap.len() <= usize::MAX,
    ensures
        within(start, w.enqueue_detached().0, given),
{
    let head = w.controller.pending[0];
    lemma_cloned_within(start, w, head.buffer, head.byte_offset, head.bytes_filled, given);
    let (cloned, result) = if head.bytes_filled > 0 {
        w.enqueue_cloned(head.buffer, head.byte_offset, head.bytes_filled)
    } else {
        (w, Ok(()))
    };
    if result is Ok {
        let after = cloned.with_controller(cloned.controller.shifted());
        assert forall|b: usize|
            b < start.scope.heap.len() && apart(start, b) implies #[trigger] apart(after, b) by {
            assert(apart(cloned, b));
            assert forall|i: int| 0 <= i < after.controller.pending.len() implies (
            #[trigger] after.controller.pending[i]).buffer != b by {
                assert(after.controller.pending[i] == cloned.controller.pending[i + 1]);
            }
        }
    }
}

/// A chunk that is enqueued touches the buffers of the stream and that of the chunk only.
pub proof fn law_enqueue_within(w: ByteWorld, chunk: ArrayBufferView)
    requires
        w.wf(),
        w.foreign(chunk.buffer),
        w.scope.heap.len() + 3 <= usize::MAX,
        w.controller.total + 2 * usize::MAX <= u128::MAX,
        crate::readable::byte_stream_controller::view_ok(w.scope.heap, chunk),
        chunk.byte_length > 0,
        chunk.byte_offset + chunk.byte_length <= usize::MAX,
    ensures
        within(w, w.enqueue(chunk).0, Some(chunk.buffer)),
{
    let given = Some(chunk.buffer);
    if !w.controller.close_requested && w.slots.state is Readable && can_transfer(
        w.scope.heap,
        chunk.buffer,
    ) {
        let buffer = w.scope.heap.len() as usize;
        let moved = w.with_heap(transferred(w.scope.heap, chunk.buffer));
        crate::readable::byte_memory::lemma_transfer_foreign(w, chunk.buffer);
        crate::readable::byte_memory::lemma_new_buffer_apart(w, moved);
        assert(within(w, moved, given));
        let (after, result) = moved.prepare_head();
        if moved.controller.pending.len() > 0 && live(
            moved.scope.heap,
            moved.controller.pending[0].buffer,
        ) {
            let retaken = moved.retake_head();
            lemma_retake_within(w, moved, given);
            lemma_detached_within(w, retaken, given);
        }
        assert(within(w, after, given));
        if result is Ok {
            crate::readable::byte_memory::lemma_prepare_head(moved, buffer);
            lemma_take_chunk_within(w, moved, chunk.byte_offset, chunk.byte_length, given);
            let taken = after.take_chunk(buffer, chunk.byte_offset, chunk.byte_length).0;
            assert forall|b: usize|
                b < w.scope.heap.len() && apart(w, b) implies #[trigger] apart(
                taken.call_pull(),
                b,
            ) by {
                assert(apart(taken, b));
            }
        }
    }
}

/// A chunk that the stream takes up stays within.
proof fn lemma_take_chunk_within(
    start: ByteWorld,
    w: ByteWorld,
    byte_offset: usize,
    byte_length: usize,
    given: Option<usize>,
)
    requires
        w.wf(),
        w.slots.state is Readable,
        !w.controller.close_requested,
        w.prepare_head().1 is Ok,
        within(start, w.prepare_head().0, given),
        start.scope.heap.len() < w.scope.heap.len(),
        w.scope.heap.len() + 2 <= usize::MAX,
        w.prepare_head().0.scope.heap.len() <= usize::MAX,
        apart(w, (w.scope.heap.len() - 1) as usize),
        byte_length > 0,
        byte_offset + byte_length <= usize::MAX,
        live(w.scope.heap, (w.scope.heap.len() - 1) as usize),
        byte_offset + byte_length <= w.scope.heap[w.scope.heap.len() - 1].data.len(),
        w.controller.total + 2 * usize::MAX <= u128::MAX,
    ensures
        within(
            start,
            w.prepare_head().0.take_chunk(
                (w.scope.heap.len() - 1) as usize,
                byte_offset,
                byte_length,
            ).0,
            given,
        ),
{
    let buffer = (w.scope.heap.len() - 1) as usize;
    let ready = w.prepare_head().0;
    let pending = w.controller.pending;
    let after = ready.take_chunk(buffer, byte_offset, byte_length).0;
    crate::readable::byte_memory::lemma_prepare_head(w, buffer);
    lemma_sum_zero(ready.scope.heap, ready.controller.queue);
    let entry = crate::readable::byte_stream_controller::ByteQueueEntry {
        buffer,
        byte_offset,
        byte_length,
    };
    assert(ready.controller.total <= w.controller.total + usize::MAX) by {
        reveal_with_fuel(crate::readable::byte_stream_controller::queue_sum, 3);
        if pending.len() > 0 {
            assert(descriptor_ok(w.scope.heap, pending[0]));
        }
    }
    let queued = ready.with_controller(
        ready.controller.with_entry(buffer, byte_offset, byte_length),
    );
    match w.slots.reader {
        ReaderModel::Unlocked => {
            assert forall|b: usize|
                b < start.scope.heap.len() && apart(start, b) implies #[trigger] apart(
                after,
                b,
            ) by {
                assert(apart(ready, b));
            }
        },
        ReaderModel::Default(_) => {
            crate::readable::byte_memory::lemma_process_read_request(ready);
            let (served, answered) = ready.process_read_request();
            assert forall|b: usize|
                b < start.scope.heap.len() && apart(start, b) implies #[trigger] apart(
                after,
                b,
            ) by {
                assert(apart(ready, b));
                assert(apart(served, b)) by {
                    assert forall|j: int| 0 <= j < served.controller.queue.len() implies (
                    #[trigger] served.controller.queue[j]).buffer != b by {
                        if answered {
                            assert(served.controller.queue[j] == ready.controller.queue[j + 1]);
                        }
                    }
                }
                assert forall|i: int| 0 <= i < after.controller.pending.len() implies (
                #[trigger] after.controller.pending[i]).buffer != b by {
                    if !answered && served.slots.requests().len() > 0
                        && served.controller.pending.len() > 0 {
                        assert(after.controller.pending[i] == served.controller.pending[i + 1]);
                    }
                }
            }
        },
        ReaderModel::Byob(_) => {
            crate::readable::byte_memory::lemma_with_entry(ready, entry);
            let none = Seq::<PullIntoDescriptor>::empty();
            assert(within(start, queued, given)) by {
                assert forall|b: usize|
                    b < start.scope.heap.len() && apart(start, b) implies #[trigger] apart(
                    queued,
                    b,
                ) by {
                    assert(apart(ready, b));
                }
            }
            assert(none + queued.controller.pending =~= queued.controller.pending);
            lemma_process_and_commit_within(start, queued, none, given);
            let (processed, filled) = queued.process_pull_intos();
            assert(none + filled =~= filled);
        },
    }
}

/// The source being done with the views of a closed stream stays within.
proof fn lemma_respond_closed_within(start: ByteWorld, w: ByteWorld, given: Option<usize>)
    requires
        w.sound(),
        w.controller.byob_request is None,
        w.slots.state is Closed,
        w.controller.pending.len() > 0,
        within(start, w, given),
    ensures
        within(start, w.respond_closed(), given),
{
    let current = if w.controller.pending[0].reader_type is Released {
        w.with_controller(w.controller.shifted())
    } else {
        w
    };
    let pending = w.controller.pending;
    if pending[0].reader_type is Released {
        crate::readable::byte_memory::lemma_shift(w);
        assert forall|i: int| 0 <= i < current.controller.pending.len() implies
            #[trigger] current.controller.pending[i] == pending[i + 1] by {}
    }
    assert(within(start, current, given)) by {
        assert forall|b: usize|
            b < start.scope.heap.len() && apart(start, b) implies #[trigger] apart(current, b) by {
            assert(apart(w, b));
        }
    }
    if current.slots.reader is Byob {
        let count = current.slots.into_requests().len() as int;
        let given_back = current.controller.pending.take(count);
        assert(given_back =~= current.controller.pending);
        let emptied = current.with_controller(
            ByteControllerModel {
                pending: current.controller.pending.skip(count),
                ..current.controller
            },
        );
        assert forall|k: int| 0 <= k < given_back.len() implies can_transfer(
            emptied.scope.heap,
            (#[trigger] given_back[k]).buffer,
        ) && given_back[k].reader_type is Byob by {
            assert(descriptor_ok(current.scope.heap, current.controller.pending[k]));
        }
        assert(emptied.memory_ok());
        lemma_commit_within(emptied, given_back);
        let after = emptied.commit_all(given_back);
        assert forall|b: usize|
            b < start.scope.heap.len() && apart(start, b) implies #[trigger] apart(after, b) by {
            assert(apart(current, b));
        }
        assert forall|b: usize|
            b < start.scope.heap.len() && apart(start, b) && given != Some(b) implies
                after.scope.heap[b as int] == #[trigger] start.scope.heap[b as int] by {
            assert(apart(current, b));
            assert(emptied.scope.heap[b as int] == start.scope.heap[b as int]);
        }
    }
}

/// The source having written into the first descriptor, whose buffer is new since the
/// outset, stays within.
proof fn lemma_respond_readable_within(
    start: ByteWorld,
    w: ByteWorld,
    count: usize,
    given: Option<usize>,
)
    requires
        w.sound(),
        w.controller.byob_request is None,
        w.slots.state is Readable,
        w.controller.pending.len() > 0,
        count > 0,
        w.controller.pending[0].bytes_filled + count <= w.controller.pending[0].byte_length,
        w.scope.heap.len() + 1 <= usize::MAX,
        within(start, w, given),
        w.controller.pending[0].buffer >= start.scope.heap.len(),
    ensures
        within(start, w.respond_readable(count).0, given),
{
    let head = w.controller.pending[0];
    assert(descriptor_ok(w.scope.heap, head));
    lemma_sum_zero(w.scope.heap, w.controller.queue);
    let filled = PullIntoDescriptor {
        bytes_filled: (head.bytes_filled + count) as usize,
        ..head
    };
    let back = w.with_controller(w.controller.with_head(filled));
    let none = Seq::<PullIntoDescriptor>::empty();
    assert(within(start, back, given)) by {
        assert forall|b: usize|
            b < start.scope.heap.len() && apart(start, b) implies #[trigger] apart(back, b) by {
            assert(apart(w, b));
            assert forall|i: int| 0 <= i < back.controller.pending.len() implies (
            #[trigger] back.controller.pending[i]).buffer != b by {
                assert(w.controller.pending[i].buffer != b);
            }
        }
    }
    if filled.reader_type is Released {
        let (after, result) = back.enqueue_detached();
        lemma_detached_within(start, back, given);
        if result is Ok {
            crate::readable::byte_memory::lemma_leftover_enqueued(w, filled);
            assert(none + after.controller.pending =~= after.controller.pending);
            lemma_process_and_commit_within(start, after, none, given);
        }
    } else if filled.bytes_filled >= filled.minimum_fill {
        let remainder = filled.bytes_filled % filled.element_size;
        assert(remainder <= filled.bytes_filled) by (nonlinear_arith)
            requires
                remainder == filled.bytes_filled % filled.element_size,
                filled.element_size > 0,
        ;
        let rest = w.with_controller(w.controller.shifted());
        assert(within(start, rest, given)) by {
            assert forall|b: usize|
                b < start.scope.heap.len() && apart(start, b) implies #[trigger] apart(
                rest,
                b,
            ) by {
                assert(apart(w, b));
                assert forall|i: int| 0 <= i < rest.controller.pending.len() implies (
                #[trigger] rest.controller.pending[i]).buffer != b by {
                    assert(rest.controller.pending[i] == w.controller.pending[i + 1]);
                }
            }
        }
        let at = (filled.byte_offset + filled.bytes_filled - remainder) as usize;
        lemma_cloned_within(start, rest, filled.buffer, at, remainder, given);
        let (after, result) = if remainder > 0 {
            rest.enqueue_cloned(filled.buffer, at, remainder)
        } else {
            (rest, Ok(()))
        };
        let whole = PullIntoDescriptor {
            bytes_filled: (filled.bytes_filled - remainder) as usize,
            ..filled
        };
        if result is Ok {
            crate::readable::byte_memory::lemma_remainder_enqueued(w, filled, remainder, after);
            lemma_process_and_commit_within(start, after, seq![whole], given);
        }
    }
}

/// An answer of the source that passed the checks stays within.
proof fn lemma_respond_internal_within(
    start: ByteWorld,
    w: ByteWorld,
    count: usize,
    given: Option<usize>,
)
    requires
        w.invalidated().sound(),
        w.controller.pending.len() > 0,
        live(w.scope.heap, w.controller.pending[0].buffer),
        w.slots.state is Readable ==> {
            &&& count > 0
            &&& w.controller.pending[0].bytes_filled + count
                <= w.controller.pending[0].byte_length
        },
        w.scope.heap.len() + 1 <= usize::MAX,
        within(start, w, given),
        w.controller.pending[0].buffer >= start.scope.heap.len(),
    ensures
        within(start, w.respond_internal(count).0, given),
{
    let now = w.invalidated();
    assert(within(start, now, given)) by {
        assert forall|b: usize|
            b < start.scope.heap.len() && apart(start, b) implies #[trigger] apart(now, b) by {
            assert(apart(w, b));
        }
    }
    let (after, result) = if now.slots.state is Closed {
        (now.respond_closed(), Ok(()))
    } else {
        now.respond_readable(count)
    };
    if now.slots.state is Closed {
        lemma_respond_closed_within(start, now, given);
    } else {
        lemma_respond_readable_within(start, now, count, given);
    }
    assert forall|b: usize| b < start.scope.heap.len() && apart(start, b) implies #[trigger] apart(
        after.call_pull(),
        b,
    ) by {
        assert(apart(after, b));
    }
}

/// Moving the buffer of the first descriptor stays within.
proof fn lemma_move_head_within(w: ByteWorld, buffer: usize)
    requires
        w.memory_ok(),
        w.controller.pending.len() > 0,
        buffer < w.scope.heap.len(),
        w.scope.heap.len() <= usize::MAX,
    ensures
        within(w, w.move_head(buffer), Some(buffer)),
        w.move_head(buffer).controller.pending[0].buffer == w.scope.heap.len(),
{
    let after = w.move_head(buffer);
    assert forall|b: usize| b < w.scope.heap.len() && apart(w, b) implies #[trigger] apart(
        after,
        b,
    ) by {
        assert forall|i: int| 0 <= i < after.controller.pending.len() implies (
        #[trigger] after.controller.pending[i]).buffer != b by {
            if i > 0 {
                assert(after.controller.pending[i] == w.controller.pending[i]);
            }
        }
    }
}

/// An answer of the source touches the buffers of the stream only.
pub proof fn law_respond_within(w: ByteWorld, count: u64)
    requires
        w.sound(),
        w.controller.pending.len() > 0,
        w.scope.heap.len() + 2 <= usize::MAX,
    ensures
        within(w, w.respond(count).0, None),
{
    let head = w.controller.pending[0];
    assert(descriptor_ok(w.scope.heap, head));
    if can_transfer(w.scope.heap, head.buffer) && (w.slots.state is Closed || 0 < count
        <= head.byte_length - head.bytes_filled) {
        lemma_move_head_within(w, head.buffer);
        assert(within(w, w.move_head(head.buffer), None)) by {
            assert(!apart(w, head.buffer));
        }
        crate::readable::byte_flow_laws::lemma_moved_head_sound(w, head.buffer);
        lemma_respond_internal_within(w, w.move_head(head.buffer), count as usize, None);
    }
}

/// An answer of the source with a view touches the buffers of the stream and that of the
/// view only.
pub proof fn law_respond_with_new_view_within(w: ByteWorld, view: ArrayBufferView)
    requires
        w.sound(),
        w.controller.pending.len() > 0,
        w.foreign(view.buffer) || view.buffer == w.controller.pending[0].buffer,
        w.scope.heap.len() + 2 <= usize::MAX,
    ensures
        within(w, w.respond_with_new_view(view).0, Some(view.buffer)),
{
    let head = w.controller.pending[0];
    assert(descriptor_ok(w.scope.heap, head));
    if can_transfer(w.scope.heap, view.buffer) && head.buffer_byte_length
        == crate::buffer::byte_length_of(w.scope.heap, view.buffer) && (w.slots.state is Closed
        || (0 < view.byte_length && head.bytes_filled + view.byte_length <= head.byte_length)) {
        lemma_move_head_within(w, view.buffer);
        crate::readable::byte_flow_laws::lemma_moved_head_sound(w, view.buffer);
        lemma_respond_internal_within(
            w,
            w.move_head(view.buffer),
            view.byte_length,
            Some(view.buffer),
        );
    }
}

/// What a stream does within its own buffers leaves another stream sound, if the two share
/// none.
pub proof fn law_other_stream_sound(
    other: ByteWorld,
    before: ByteWorld,
    after: ByteWorld,
    given: Option<usize>,
)
    requires
        other.sound(),
        other.scope == before.scope,
        within(before, after, given),
        forall|b: usize| #[trigger] apart(before, b) || apart(other, b),
        given matches Some(b) ==> apart(other, b),
    ensures
        other.with_scope(after.scope).sound(),
{
    let heap = after.scope.heap;
    let queue = other.controller.queue;
    let pending = other.controller.pending;
    assert forall|i: int| 0 <= i < queue.len() implies heap[(#[trigger] queue[i]).buffer as int]
        == other.scope.heap[queue[i].buffer as int] by {
        let b = queue[i].buffer;
        assert(entry_ok(other.scope.heap, queue[i]));
        assert(!apart(other, b));
        assert(apart(before, b));
        assert(before.scope.heap[b as int] == other.scope.heap[b as int]);
    }
    assert forall|i: int| 0 <= i < pending.len() implies heap[(
    #[trigger] pending[i]).buffer as int] == other.scope.heap[pending[i].buffer as int] by {
        let b = pending[i].buffer;
        assert(descriptor_ok(other.scope.heap, pending[i]));
        assert(!apart(other, b));
        assert(apart(before, b));
        assert(before.scope.heap[b as int] == other.scope.heap[b as int]);
    }
    lemma_heap_grows(other, heap);
    assert(other.with_scope(after.scope).memory_ok()) by {
        assert(other.with_heap(heap).memory_ok());
    }
}

/// Two streams that share no buffers share none after one of them has done something within
/// its own, either.
pub proof fn law_streams_stay_apart(
    other: ByteWorld,
    before: ByteWorld,
    after: ByteWorld,
    given: Option<usize>,
)
    requires
        other.memory_ok(),
        other.scope == before.scope,
        within(before, after, given),
        before.scope.heap.len() <= usize::MAX,
        forall|b: usize| #[trigger] apart(before, b) || apart(other, b),
    ensures
        forall|b: usize| #[trigger] apart(after, b) || apart(other, b),
{
    assert forall|b: usize| #[trigger] apart(after, b) || apart(other, b) by {
        if !apart(other, b) {
            assert(b < other.scope.heap.len()) by {
                if exists|i: int|
                    0 <= i < other.controller.queue.len()
                        && #[trigger] other.controller.queue[i].buffer == b {
                    let i = choose|i: int|
                        0 <= i < other.controller.queue.len()
                            && #[trigger] other.controller.queue[i].buffer == b;
                    assert(entry_ok(other.scope.heap, other.controller.queue[i]));
                } else {
                    let i = choose|i: int|
                        0 <= i < other.controller.pending.len()
                            && #[trigger] other.controller.pending[i].buffer == b;
                    assert(descriptor_ok(other.scope.heap, other.controller.pending[i]));
                }
            }
            assert(apart(before, b));
        }
    }
}

impl ByteWorld {
    pub open spec fn with_scope(self, scope: ScopeModel) -> ByteWorld {
        ByteWorld { scope, ..self }
    }
}

} // verus!
