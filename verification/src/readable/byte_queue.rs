//! Facts about the queue of a byte stream.

use vstd::arithmetic::div_mod::lemma_fundamental_div_mod;
use vstd::prelude::*;

use crate::buffer::Heap;
use crate::readable::byte_stream_controller::{
    drop_bytes, entry_bytes, entry_ok, fill_count, fill_ready, most_filled, queue_bytes, queue_sum,
    ByteQueueEntry, PullIntoDescriptor,
};

verus! {

/// The sum of a queue with one more entry.
pub proof fn lemma_sum_push(queue: Seq<ByteQueueEntry>, entry: ByteQueueEntry)
    ensures
        queue_sum(queue.push(entry)) == queue_sum(queue) + entry.byte_length,
    decreases queue.len(),
{
    if queue.len() == 0 {
        assert(queue.push(entry).drop_first() =~= Seq::empty());
        assert(queue_sum(queue.push(entry).drop_first()) == 0);
    } else {
        assert(queue.push(entry).drop_first() =~= queue.drop_first().push(entry));
        lemma_sum_push(queue.drop_first(), entry);
    }
}

/// The bytes of a queue with one more entry.
pub proof fn lemma_bytes_push(heap: Heap, queue: Seq<ByteQueueEntry>, entry: ByteQueueEntry)
    ensures
        queue_bytes(heap, queue.push(entry)) == queue_bytes(heap, queue) + entry_bytes(heap, entry),
    decreases queue.len(),
{
    if queue.len() == 0 {
        assert(queue.push(entry).drop_first() =~= Seq::empty());
        assert(queue_bytes(heap, queue.push(entry).drop_first()) =~= Seq::empty());
        assert(queue_bytes(heap, queue.push(entry)) =~= entry_bytes(heap, entry));
    } else {
        assert(queue.push(entry).drop_first() =~= queue.drop_first().push(entry));
        lemma_bytes_push(heap, queue.drop_first(), entry);
        assert(queue_bytes(heap, queue.push(entry)) =~= queue_bytes(heap, queue) + entry_bytes(
            heap,
            entry,
        ));
    }
}

/// A queue holds as many bytes as its entries say.
pub proof fn lemma_bytes_len(heap: Heap, queue: Seq<ByteQueueEntry>)
    requires
        forall|i: int| 0 <= i < queue.len() ==> entry_ok(heap, #[trigger] queue[i]),
    ensures
        queue_bytes(heap, queue).len() == queue_sum(queue),
    decreases queue.len(),
{
    if queue.len() > 0 {
        assert(entry_ok(heap, queue[0]));
        assert forall|i: int| 0 <= i < queue.drop_first().len() implies entry_ok(
            heap,
            #[trigger] queue.drop_first()[i],
        ) by {
            assert(queue.drop_first()[i] == queue[i + 1]);
        }
        lemma_bytes_len(heap, queue.drop_first());
    }
}

/// The number of bytes in a queue fits the counter that is kept of it, with room for
/// one more entry.
pub proof fn lemma_sum_bound(queue: Seq<ByteQueueEntry>)
    ensures
        queue_sum(queue) <= queue.len() * usize::MAX,
    decreases queue.len(),
{
    if queue.len() > 0 {
        lemma_sum_bound(queue.drop_first());
        assert(queue.len() * usize::MAX == (queue.len() - 1) * usize::MAX + usize::MAX)
            by (nonlinear_arith);
    }
}

pub proof fn lemma_counter_bound(length: usize)
    ensures
        length * usize::MAX + usize::MAX <= u128::MAX,
{
    assert(length * usize::MAX + usize::MAX <= u128::MAX) by (nonlinear_arith)
        requires
            0 <= length <= 0xffff_ffff_ffff_ffff,
            0 <= usize::MAX <= 0xffff_ffff_ffff_ffff,
    ;
}

/// A queue with a first entry holds bytes, and one without any holds none.
pub proof fn lemma_sum_zero(heap: Heap, queue: Seq<ByteQueueEntry>)
    requires
        forall|i: int| 0 <= i < queue.len() ==> entry_ok(heap, #[trigger] queue[i]),
    ensures
        queue_sum(queue) == 0 <==> queue.len() == 0,
{
    if queue.len() > 0 {
        assert(entry_ok(heap, queue[0]));
    }
}

/// What is left of a queue after some of its bytes have been taken out: entries of
/// the same buffers in the same order.
pub proof fn lemma_drop(heap: Heap, queue: Seq<ByteQueueEntry>, count: nat) -> (gone: int)
    requires
        forall|i: int| 0 <= i < queue.len() ==> entry_ok(heap, #[trigger] queue[i]),
        count <= queue_sum(queue),
    ensures
        0 <= gone <= queue.len(),
        drop_bytes(queue, count).len() == queue.len() - gone,
        forall|i: int|
            0 <= i < drop_bytes(queue, count).len() ==> entry_ok(
                heap,
                #[trigger] drop_bytes(queue, count)[i],
            ) && drop_bytes(queue, count)[i].buffer == queue[i + gone].buffer,
        queue_sum(drop_bytes(queue, count)) == queue_sum(queue) - count,
        queue_bytes(heap, drop_bytes(queue, count)) == queue_bytes(heap, queue).skip(count as int),
    decreases queue.len(),
{
    lemma_bytes_len(heap, queue);
    if queue.len() == 0 || count == 0 {
        assert(queue_bytes(heap, queue).skip(0) =~= queue_bytes(heap, queue));
        0
    } else {
        let rest = queue.drop_first();
        assert(entry_ok(heap, queue[0]));
        assert forall|i: int| 0 <= i < rest.len() implies entry_ok(heap, #[trigger] rest[i]) by {
            assert(rest[i] == queue[i + 1]);
        }
        if queue[0].byte_length <= count {
            let left = (count - queue[0].byte_length) as nat;
            let gone = lemma_drop(heap, rest, left);
            lemma_bytes_len(heap, rest);
            assert(queue_bytes(heap, queue).skip(count as int) =~= queue_bytes(heap, rest).skip(
                left as int,
            ));
            gone + 1
        } else {
            let cut = drop_bytes(queue, count);
            assert(cut.drop_first() =~= rest);
            assert(entry_bytes(heap, cut[0]) =~= entry_bytes(heap, queue[0]).skip(count as int));
            assert(queue_bytes(heap, cut) =~= queue_bytes(heap, queue).skip(count as int));
            0
        }
    }
}

/// Taking bytes out in two goes.
pub proof fn lemma_drop_twice(queue: Seq<ByteQueueEntry>, first: nat, second: nat)
    requires
        first + second <= queue_sum(queue),
        forall|i: int| 0 <= i < queue.len() ==> (#[trigger] queue[i]).byte_length > 0,
        forall|i: int|
            0 <= i < queue.len() ==> (#[trigger] queue[i]).byte_offset + queue[i].byte_length
                <= usize::MAX,
    ensures
        drop_bytes(drop_bytes(queue, first), second) == drop_bytes(queue, first + second),
    decreases queue.len(),
{
    if queue.len() == 0 || first == 0 {
    } else {
        let rest = queue.drop_first();
        assert forall|i: int| 0 <= i < rest.len() implies (#[trigger] rest[i]).byte_length > 0
            && rest[i].byte_offset + rest[i].byte_length <= usize::MAX by {
            assert(rest[i] == queue[i + 1]);
        }
        if queue[0].byte_length <= first {
            lemma_drop_twice(rest, (first - queue[0].byte_length) as nat, second);
        } else {
            let cut = drop_bytes(queue, first);
            assert(cut.drop_first() =~= rest);
            assert(queue[0].byte_offset + queue[0].byte_length <= usize::MAX);
            if second == 0 {
            } else if cut[0].byte_length <= second {
                assert((second - cut[0].byte_length) as nat == (first + second
                    - queue[0].byte_length) as nat);
            } else {
                assert(drop_bytes(cut, second) =~= drop_bytes(queue, first + second));
            }
        }
    }
}

/// The bytes of a queue do not depend on buffers that are not in it.
pub proof fn lemma_bytes_frame(heap: Heap, other: Heap, queue: Seq<ByteQueueEntry>)
    requires
        forall|i: int|
            0 <= i < queue.len() ==> other[(#[trigger] queue[i]).buffer as int].data
                == heap[queue[i].buffer as int].data,
    ensures
        queue_bytes(other, queue) == queue_bytes(heap, queue),
    decreases queue.len(),
{
    if queue.len() > 0 {
        let rest = queue.drop_first();
        assert forall|i: int| 0 <= i < rest.len() implies other[(#[trigger] rest[i]).buffer as int].data
            == heap[rest[i].buffer as int].data by {
            assert(rest[i] == queue[i + 1]);
        }
        assert(queue[0] == queue[0]);
        lemma_bytes_frame(heap, other, rest);
    }
}

/// The largest multiple of `size` up to `most` is no less than any other.
pub proof fn lemma_aligned(most: int, least: int, size: int)
    requires
        size > 0,
        0 <= least <= most,
        least % size == 0,
    ensures
        most - most % size >= least,
        0 <= most % size <= most,
        (most - most % size) % size == 0,
{
    lemma_fundamental_div_mod(most, size);
    lemma_fundamental_div_mod(least, size);
    assert(least / size <= most / size) by (nonlinear_arith)
        requires
            size > 0,
            least <= most,
            least == size * (least / size),
            most == size * (most / size) + most % size,
            0 <= most % size < size,
    ;
    assert(size * (least / size) <= size * (most / size)) by (nonlinear_arith)
        requires
            size > 0,
            least / size <= most / size,
    ;
    assert((size * (most / size)) % size == 0) by (nonlinear_arith)
        requires
            size > 0,
    ;
    assert(most % size <= most) by (nonlinear_arith)
        requires
            size > 0,
            0 <= most,
    ;
}

/// How many bytes go to a descriptor.
pub proof fn lemma_fill_count(total: u128, descriptor: PullIntoDescriptor)
    requires
        descriptor.element_size > 0,
        descriptor.bytes_filled < descriptor.minimum_fill <= descriptor.byte_length,
        descriptor.minimum_fill as int % descriptor.element_size as int == 0,
    ensures
        fill_count(total, descriptor) <= total,
        descriptor.bytes_filled + fill_count(total, descriptor) <= descriptor.byte_length,
        0 <= most_filled(total, descriptor) as int % descriptor.element_size as int
            <= most_filled(total, descriptor),
        fill_ready(total, descriptor) ==> {
            &&& descriptor.bytes_filled + fill_count(total, descriptor) >= descriptor.minimum_fill
            &&& (descriptor.bytes_filled + fill_count(total, descriptor))
                % descriptor.element_size as int == 0
        },
        !fill_ready(total, descriptor) ==> {
            &&& fill_count(total, descriptor) == total
            &&& descriptor.bytes_filled + total < descriptor.minimum_fill
        },
{
    let most = most_filled(total, descriptor) as int;
    let size = descriptor.element_size as int;
    lemma_aligned(most, 0, size);
    if most >= descriptor.minimum_fill {
        lemma_aligned(most, descriptor.minimum_fill as int, size);
    }
}

} // verus!
