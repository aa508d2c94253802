//! The operations of readable byte streams.

use vstd::prelude::*;

use crate::buffer::{can_transfer, live, spliced, transferred, ArrayBufferView, ViewKind};
use crate::number::Number;
use crate::readable::byte_memory::{
    apart, lemma_commit, lemma_dequeue, lemma_fill_keeps_live, lemma_fill_shift,
    lemma_leftover_enqueued, lemma_new_buffer_apart, lemma_prepare_head, lemma_process,
    lemma_process_handover, lemma_process_read_request, lemma_remainder_enqueued,
    lemma_retake_head, lemma_shift, lemma_transfer_foreign, lemma_with_entry, same_region,
};
use crate::readable::byte_queue::{
    lemma_bytes_len, lemma_counter_bound, lemma_drop, lemma_drop_twice, lemma_fill_count,
    lemma_sum_bound, lemma_sum_push, lemma_sum_zero,
};
use crate::readable::byte_stream_controller::{
    byte_desired_size, byte_should_pull, descriptor_ok, drop_bytes, entry_bytes, entry_ok,
    fill_count, fill_ready, filled_from_queue, filled_view, put_bytes, queue_bytes, queue_sum,
    view_ok, ByteControllerModel, ByteQueueEntry, ByteWorld, PullIntoDescriptor,
    ReadableByteStreamController, ReaderType,
};
use crate::readable::read_request::{ReadIntoRequest, ReadRequest};
use crate::readable::readable_stream::ReadableStreamState;
use crate::readable::slots::StreamSlots;
use crate::scope::{Algorithm, Call, Effect, Scope};
use crate::value::{Message, Value};

verus! {

/// A stream and its controller in a scope.
pub open spec fn byte_world(
    stream: StreamSlots,
    controller: ReadableByteStreamController,
    scope: Scope,
) -> ByteWorld {
    ByteWorld { slots: stream@, controller: controller@, scope: scope@ }
}

pub fn readable_byte_stream_controller_get_desired_size(
    stream: &StreamSlots,
    controller: &ReadableByteStreamController,
) -> (size: Option<Number>)
    ensures
        size == byte_desired_size(stream@, controller@),
{
    match stream.state {
        ReadableStreamState::Errored => None,
        ReadableStreamState::Closed => Some(Number { bits: 0 }),
        ReadableStreamState::Readable => Some(
            controller.strategy_hwm.subtract(Number::of_count(controller.queue_total_size)),
        ),
    }
}

pub fn readable_byte_stream_controller_should_call_pull(
    stream: &StreamSlots,
    controller: &ReadableByteStreamController,
) -> (should: bool)
    ensures
        should == byte_should_pull(stream@, controller@),
{
    if stream.state != ReadableStreamState::Readable {
        return false;
    }
    if controller.close_requested {
        return false;
    }
    if !controller.started {
        return false;
    }
    if stream.has_default_reader() && stream.num_read_requests() > 0 {
        return true;
    }
    if stream.has_byob_reader() && stream.num_read_into_requests() > 0 {
        return true;
    }
    controller.strategy_hwm.subtract(
        Number::of_count(controller.queue_total_size),
    ).is_positive()
}

pub fn readable_byte_stream_controller_call_pull_if_needed(
    scope: &mut Scope,
    stream: &StreamSlots,
    controller: &mut ReadableByteStreamController,
)
    ensures
        byte_world(*stream, *final(controller), *final(scope)) == byte_world(
            *stream,
            *old(controller),
            *old(scope),
        ).call_pull(),
{
    if !readable_byte_stream_controller_should_call_pull(stream, controller) {
        return ;
    }
    if controller.pulling {
        controller.pull_again = true;
        return ;
    }
    controller.pulling = true;
    scope.emit(
        Effect::Invoke {
            call: Call::ReadablePull { stream: stream.id },
            algorithm: controller.pull_algorithm,
            receiver: controller.algorithm_receiver.clone(),
        },
    );
}

pub fn readable_byte_stream_controller_clear_algorithms(
    controller: &mut ReadableByteStreamController,
)
    ensures
        final(controller)@ == old(controller)@.cleared_algorithms(),
{
    controller.pull_algorithm = Algorithm::Undefined;
    controller.cancel_algorithm = Algorithm::Undefined;
}

pub fn readable_byte_stream_controller_invalidate_byob_request(
    scope: &mut Scope,
    stream: &StreamSlots,
    controller: &mut ReadableByteStreamController,
)
    ensures
        byte_world(*stream, *final(controller), *final(scope)) == byte_world(
            *stream,
            *old(controller),
            *old(scope),
        ).invalidated(),
{
    if controller.byob_request.is_none() {
        return ;
    }
    controller.byob_request = None;
    scope.emit(Effect::InvalidateByobRequest { stream: stream.id });
}

pub fn readable_byte_stream_controller_clear_pending_pull_intos(
    scope: &mut Scope,
    stream: &StreamSlots,
    controller: &mut ReadableByteStreamController,
)
    ensures
        byte_world(*stream, *final(controller), *final(scope)) == byte_world(
            *stream,
            *old(controller),
            *old(scope),
        ).cleared_pending(),
{
    readable_byte_stream_controller_invalidate_byob_request(scope, stream, controller);
    controller.pending_pull_intos.clear();
}

/// Empties the queue.
pub fn reset_byte_queue(controller: &mut ReadableByteStreamController)
    ensures
        final(controller)@ == old(controller)@.reset_queue(),
{
    controller.queue.clear();
    controller.queue_total_size = 0;
}

pub fn readable_byte_stream_controller_error(
    scope: &mut Scope,
    stream: &mut StreamSlots,
    controller: &mut ReadableByteStreamController,
    error: Value,
)
    ensures
        byte_world(*final(stream), *final(controller), *final(scope)) == byte_world(
            *old(stream),
            *old(controller),
            *old(scope),
        ).errored(error),
{
    if stream.state != ReadableStreamState::Readable {
        return ;
    }
    readable_byte_stream_controller_clear_pending_pull_intos(scope, stream, controller);
    reset_byte_queue(controller);
    readable_byte_stream_controller_clear_algorithms(controller);
    stream.readable_stream_error(scope, error);
}

/// Closes the stream now, past all checks.
fn close_stream(
    scope: &mut Scope,
    stream: &mut StreamSlots,
    controller: &mut ReadableByteStreamController,
)
    requires
        old(stream)@.state is Readable,
    ensures
        byte_world(*final(stream), *final(controller), *final(scope)) == byte_world(
            *old(stream),
            *old(controller),
            *old(scope),
        ).close_now(),
{
    readable_byte_stream_controller_clear_algorithms(controller);
    stream.readable_stream_close(scope);
}

pub fn readable_byte_stream_controller_close(
    scope: &mut Scope,
    stream: &mut StreamSlots,
    controller: &mut ReadableByteStreamController,
) -> (result: Result<(), Value>)
    requires
        byte_world(*old(stream), *old(controller), *old(scope)).memory_ok(),
    ensures
        (byte_world(*final(stream), *final(controller), *final(scope)), result) == byte_world(
            *old(stream),
            *old(controller),
            *old(scope),
        ).close(),
{
    if controller.close_requested || stream.state != ReadableStreamState::Readable {
        return Ok(());
    }
    if controller.queue_total_size > 0 {
        controller.close_requested = true;
        return Ok(());
    }
    if controller.pending_pull_intos.len() > 0 {
        let first: PullIntoDescriptor = controller.pending_pull_intos[0];
        assert(descriptor_ok(scope@.heap, controller@.pending[0]));
        if first.bytes_filled % first.element_size != 0 {
            let error: Value = Value::TypeError(Message::InsufficientBytesPending);
            readable_byte_stream_controller_error(scope, stream, controller, error.clone());
            return Err(error);
        }
    }
    close_stream(scope, stream, controller);
    Ok(())
}

pub fn readable_byte_stream_controller_handle_queue_drain(
    scope: &mut Scope,
    stream: &mut StreamSlots,
    controller: &mut ReadableByteStreamController,
)
    requires
        old(stream)@.state is Readable,
    ensures
        byte_world(*final(stream), *final(controller), *final(scope)) == byte_world(
            *old(stream),
            *old(controller),
            *old(scope),
        ).queue_drained(),
{
    if controller.queue_total_size == 0 && controller.close_requested {
        close_stream(scope, stream, controller);
    } else {
        readable_byte_stream_controller_call_pull_if_needed(scope, stream, controller);
    }
}

/// Puts a region at the end of the queue.
pub fn readable_byte_stream_controller_enqueue_chunk_to_queue(
    controller: &mut ReadableByteStreamController,
    buffer: usize,
    byte_offset: usize,
    byte_length: usize,
)
    requires
        old(controller)@.total == queue_sum(old(controller)@.queue),
    ensures
        final(controller)@ == old(controller)@.with_entry(buffer, byte_offset, byte_length),
        final(controller)@.total == queue_sum(final(controller)@.queue),
        old(controller)@.total + byte_length <= u128::MAX,
{
    let length: usize = controller.queue.len();
    proof {
        lemma_sum_bound(controller@.queue);
        lemma_counter_bound(length);
        lemma_sum_push(controller@.queue, ByteQueueEntry { buffer, byte_offset, byte_length });
    }
    controller.queue.push_back(ByteQueueEntry { buffer, byte_offset, byte_length });
    controller.queue_total_size = controller.queue_total_size + byte_length as u128;
}

/// Takes the first descriptor out of the list.
pub fn readable_byte_stream_controller_shift_pending_pull_into(
    controller: &mut ReadableByteStreamController,
) -> (descriptor: PullIntoDescriptor)
    requires
        old(controller)@.pending.len() > 0,
    ensures
        descriptor == old(controller)@.pending[0],
        final(controller)@ == old(controller)@.shifted(),
{
    match controller.pending_pull_intos.pop_front() {
        Some(descriptor) => {
            assert(controller@.pending =~= old(controller)@.pending.drop_first());
            descriptor
        },
        None => PullIntoDescriptor {
            buffer: 0,
            buffer_byte_length: 0,
            byte_offset: 0,
            byte_length: 0,
            bytes_filled: 0,
            minimum_fill: 0,
            element_size: 1,
            view_kind: ViewKind::Uint8,
            reader_type: ReaderType::Released,
        },
    }
}

/// Counts bytes as filled in.
pub fn readable_byte_stream_controller_fill_head_pull_into_descriptor(
    size: usize,
    descriptor: &mut PullIntoDescriptor,
)
    requires
        old(descriptor).bytes_filled + size <= old(descriptor).byte_length,
    ensures
        *final(descriptor) == (PullIntoDescriptor {
            bytes_filled: (old(descriptor).bytes_filled + size) as usize,
            ..*old(descriptor)
        }),
{
    descriptor.bytes_filled = descriptor.bytes_filled + size;
}

/// Copies queued bytes into a descriptor: whole elements where that fills it as far as
/// it asks, and all there are otherwise.
#[verifier::spinoff_prover]
#[verifier::rlimit(40)]
pub fn readable_byte_stream_controller_fill_pull_into_descriptor_from_queue(
    scope: &mut Scope,
    stream: &StreamSlots,
    controller: &mut ReadableByteStreamController,
    descriptor: &mut PullIntoDescriptor,
) -> (ready: bool)
    requires
        byte_world(*stream, *old(controller), *old(scope)).can_fill(*old(descriptor)),
    ensures
        byte_world(*stream, *final(controller), *final(scope)) == byte_world(
            *stream,
            *old(controller),
            *old(scope),
        ).fill(*old(descriptor)),
        *final(descriptor) == filled_from_queue(old(controller)@.total, *old(descriptor)),
        ready == fill_ready(old(controller)@.total, *old(descriptor)),
{
    let ghost start = byte_world(*stream, *old(controller), *old(scope));
    let ghost heap = start.scope.heap;
    let ghost queue = start.controller.queue;
    let ghost total = start.controller.total;
    let ghost first = *old(descriptor);
    proof {
        lemma_fill_count(total, first);
        lemma_bytes_len(heap, queue);
    }
    let room: usize = descriptor.byte_length - descriptor.bytes_filled;
    let max_bytes_to_copy: usize = if controller.queue_total_size <= room as u128 {
        controller.queue_total_size as usize
    } else {
        room
    };
    let max_bytes_filled: usize = descriptor.bytes_filled + max_bytes_to_copy;
    let mut remaining: usize = max_bytes_to_copy;
    let mut ready: bool = false;
    let remainder_bytes: usize = max_bytes_filled % descriptor.element_size;
    let max_aligned_bytes: usize = max_bytes_filled - remainder_bytes;
    if max_aligned_bytes >= descriptor.minimum_fill {
        remaining = max_aligned_bytes - descriptor.bytes_filled;
        ready = true;
    }
    let ghost count = remaining as nat;
    assert(count == fill_count(total, first));
    proof {
        assert(queue_bytes(heap, queue).take(0) =~= Seq::empty());
        assert(put_bytes(heap, first, Seq::empty()) =~= heap) by {
            assert(spliced(
                heap[first.buffer as int].data,
                first.byte_offset + first.bytes_filled,
                Seq::empty(),
            ) =~= heap[first.buffer as int].data);
        }
        assert(drop_bytes(queue, 0) == queue);
    }
    while remaining > 0
        invariant
            start.can_fill(first),
            start == byte_world(*stream, *old(controller), *old(scope)),
            heap == start.scope.heap,
            queue == start.controller.queue,
            total == start.controller.total,
            remaining <= count,
            count <= total,
            first.bytes_filled + count <= first.byte_length,
            queue_bytes(heap, queue).len() == queue_sum(queue),
            *descriptor == (PullIntoDescriptor {
                bytes_filled: (first.bytes_filled + (count - remaining)) as usize,
                ..first
            }),
            controller@ == (ByteControllerModel {
                queue: drop_bytes(queue, (count - remaining) as nat),
                total: (total - (count - remaining)) as u128,
                ..start.controller
            }),
            scope@ == start.scope.with_heap(
                put_bytes(heap, first, queue_bytes(heap, queue).take(count - remaining)),
            ),
        decreases remaining,
    {
        let ghost done = (count - remaining) as nat;
        let ghost bytes = queue_bytes(heap, queue);
        let ghost left = drop_bytes(queue, done);
        let ghost gone: int = 0;
        proof {
            let g = lemma_drop(heap, queue, done);
            gone = g;
            lemma_sum_zero(heap, left);
            assert(entry_ok(heap, left[0]));
            assert(left[0].buffer == queue[gone].buffer);
            assert(first.buffer != queue[gone].buffer);
        }
        let head: ByteQueueEntry = controller.queue[0];
        let bytes_to_copy: usize = if remaining <= head.byte_length {
            remaining
        } else {
            head.byte_length
        };
        let dest_start: usize = descriptor.byte_offset + descriptor.bytes_filled;
        assert(scope@.heap[head.buffer as int] == heap[head.buffer as int]);
        scope.copy_data_block_bytes(
            descriptor.buffer,
            dest_start,
            head.buffer,
            head.byte_offset,
            bytes_to_copy,
        );
        if head.byte_length == bytes_to_copy {
            let _ = controller.queue.pop_front();
            assert(controller@.queue =~= left.drop_first());
        } else {
            let _ = controller.queue.pop_front();
            controller.queue.push_front(
                ByteQueueEntry {
                    buffer: head.buffer,
                    byte_offset: head.byte_offset + bytes_to_copy,
                    byte_length: head.byte_length - bytes_to_copy,
                },
            );
            assert(controller@.queue =~= left.update(
                0,
                ByteQueueEntry {
                    byte_offset: (head.byte_offset + bytes_to_copy) as usize,
                    byte_length: (head.byte_length - bytes_to_copy) as usize,
                    ..head
                },
            ));
        }
        controller.queue_total_size = controller.queue_total_size - bytes_to_copy as u128;
        readable_byte_stream_controller_fill_head_pull_into_descriptor(bytes_to_copy, descriptor);
        remaining = remaining - bytes_to_copy;
        proof {
            let step = bytes_to_copy as nat;
            assert forall|i: int| 0 <= i < queue.len() implies (#[trigger] queue[i]).byte_length > 0
                && queue[i].byte_offset + queue[i].byte_length <= usize::MAX by {
                assert(entry_ok(heap, queue[i]));
            }
            lemma_drop_twice(queue, done, step);
            assert(drop_bytes(left, step) == controller@.queue) by {
                if head.byte_length == bytes_to_copy {
                    assert(drop_bytes(left.drop_first(), 0) == left.drop_first());
                }
            }
            // The bytes that were copied are the next ones of the queue.
            let copied_bytes = heap[head.buffer as int].data.subrange(
                head.byte_offset as int,
                head.byte_offset + step,
            );
            assert(copied_bytes =~= bytes.subrange(done as int, (done + step) as int)) by {
                assert(queue_bytes(heap, left) == bytes.skip(done as int));
                assert(copied_bytes =~= entry_bytes(heap, head).take(step as int));
                assert(entry_bytes(heap, head) =~= queue_bytes(heap, left).take(
                    head.byte_length as int,
                ));
            }
            assert(bytes.take((done + step) as int) =~= bytes.take(done as int) + copied_bytes);
            let place = first.buffer as int;
            let at = first.byte_offset + first.bytes_filled;
            assert(spliced(
                spliced(heap[place].data, at, bytes.take(done as int)),
                at + done,
                copied_bytes,
            ) =~= spliced(heap[place].data, at, bytes.take((done + step) as int)));
            assert(scope@.heap =~= put_bytes(heap, first, bytes.take((done + step) as int)));
        }
    }
    ready
}

/// Fills the pending descriptors from the queue, in order, as far as it lasts, and takes
/// out those that are ready to be handed over.
pub fn readable_byte_stream_controller_process_pull_into_descriptors_using_queue(
    scope: &mut Scope,
    stream: &StreamSlots,
    controller: &mut ReadableByteStreamController,
) -> (filled_pull_intos: Vec<PullIntoDescriptor>)
    requires
        byte_world(*stream, *old(controller), *old(scope)).memory_ok(),
        old(controller)@.byob_request is None,
    ensures
        (byte_world(*stream, *final(controller), *final(scope)), filled_pull_intos@) == byte_world(
            *stream,
            *old(controller),
            *old(scope),
        ).process_pull_intos(),
{
    let ghost start = byte_world(*stream, *old(controller), *old(scope));
    let mut filled_pull_intos: Vec<PullIntoDescriptor> = Vec::new();
    while controller.pending_pull_intos.len() > 0
        invariant
            start == byte_world(*stream, *old(controller), *old(scope)),
            byte_world(*stream, *controller, *scope).memory_ok(),
            controller@.byob_request is None,
            ({
                let (rest, ready) = byte_world(*stream, *controller, *scope).process_pull_intos();
                start.process_pull_intos() == (rest, filled_pull_intos@ + ready)
            }),
        decreases controller@.pending.len(),
    {
        let ghost now = byte_world(*stream, *controller, *scope);
        if controller.queue_total_size == 0 {
            assert(filled_pull_intos@ + Seq::<PullIntoDescriptor>::empty() =~= filled_pull_intos@);
            return filled_pull_intos;
        }
        proof {
            lemma_fill_shift(now);
        }
        let mut descriptor: PullIntoDescriptor =
            readable_byte_stream_controller_shift_pending_pull_into(controller);
        let ghost before = filled_pull_intos@;
        if readable_byte_stream_controller_fill_pull_into_descriptor_from_queue(
            scope,
            stream,
            controller,
            &mut descriptor,
        ) {
            filled_pull_intos.push(descriptor);
            proof {
                let next = now.fill(now.controller.pending[0]);
                let shifted = next.with_controller(next.controller.shifted());
                assert(byte_world(*stream, *controller, *scope) =~= shifted);
                let (rest, ready) = shifted.process_pull_intos();
                assert(before + (seq![descriptor] + ready) =~= filled_pull_intos@ + ready);
            }
        } else {
            controller.pending_pull_intos.push_front(descriptor);
            proof {
                let next = now.fill(now.controller.pending[0]);
                let back = next.with_controller(next.controller.with_head(descriptor));
                assert(controller@.pending =~= back.controller.pending);
                assert(byte_world(*stream, *controller, *scope) =~= back);
                assert(filled_pull_intos@ + Seq::<PullIntoDescriptor>::empty()
                    =~= filled_pull_intos@);
            }
            return filled_pull_intos;
        }
    }
    assert(filled_pull_intos@ + Seq::<PullIntoDescriptor>::empty() =~= filled_pull_intos@);
    filled_pull_intos
}

/// Makes a view of the filled part of a descriptor, in a buffer that only its receiver
/// has.
pub fn readable_byte_stream_controller_convert_pull_into_descriptor(
    scope: &mut Scope,
    descriptor: &PullIntoDescriptor,
) -> (view: ArrayBufferView)
    requires
        can_transfer(old(scope)@.heap, descriptor.buffer),
    ensures
        view == filled_view(*descriptor, old(scope)@.heap.len() as usize),
        final(scope)@ == old(scope)@.with_heap(
            transferred(old(scope)@.heap, descriptor.buffer),
        ),
        old(scope)@.heap.len() <= usize::MAX,
{
    let buffer: usize = match scope.transfer(descriptor.buffer) {
        Ok(buffer) => buffer,
        Err(_) => 0,
    };
    ArrayBufferView {
        kind: descriptor.view_kind,
        buffer,
        byte_offset: descriptor.byte_offset,
        byte_length: descriptor.bytes_filled,
    }
}

/// Hands a filled descriptor to the request that waits for it.
pub fn readable_byte_stream_controller_commit_pull_into_descriptor(
    scope: &mut Scope,
    stream: &mut StreamSlots,
    controller: &ReadableByteStreamController,
    descriptor: &PullIntoDescriptor,
)
    requires
        can_transfer(old(scope)@.heap, descriptor.buffer),
        descriptor.reader_type !is Released,
        descriptor.reader_type is Default ==> old(stream)@.requests().len() > 0,
        descriptor.reader_type is Byob ==> old(stream)@.into_requests().len() > 0,
    ensures
        byte_world(*final(stream), *controller, *final(scope)) == byte_world(
            *old(stream),
            *controller,
            *old(scope),
        ).commit(*descriptor),
{
    let done: bool = stream.state == ReadableStreamState::Closed;
    let view: ArrayBufferView = readable_byte_stream_controller_convert_pull_into_descriptor(
        scope,
        descriptor,
    );
    if descriptor.reader_type == ReaderType::Default {
        stream.readable_stream_fulfill_read_request(scope, Value::Bytes(view), done);
    } else {
        stream.readable_stream_fulfill_read_into_request(scope, Value::Bytes(view), done);
    }
}

/// Hands over filled descriptors in order.
fn commit_pull_into_descriptors(
    scope: &mut Scope,
    stream: &mut StreamSlots,
    controller: &ReadableByteStreamController,
    descriptors: &Vec<PullIntoDescriptor>,
)
    requires
        byte_world(*old(stream), *controller, *old(scope)).memory_ok(),
        byte_world(*old(stream), *controller, *old(scope)).handover_ok(descriptors@),
        byte_world(*old(stream), *controller, *old(scope)).awaited(descriptors@),
    ensures
        byte_world(*final(stream), *controller, *final(scope)) == byte_world(
            *old(stream),
            *controller,
            *old(scope),
        ).commit_all(descriptors@),
{
    let ghost start = byte_world(*stream, *controller, *scope);
    let mut i: usize = 0;
    assert(descriptors@.skip(0) =~= descriptors@);
    while i < descriptors.len()
        invariant
            i <= descriptors.len(),
            byte_world(*stream, *controller, *scope).memory_ok(),
            byte_world(*stream, *controller, *scope).handover_ok(descriptors@.skip(i as int)),
            byte_world(*stream, *controller, *scope).awaited(descriptors@.skip(i as int)),
            byte_world(*stream, *controller, *scope).commit_all(descriptors@.skip(i as int))
                == start.commit_all(descriptors@),
        decreases descriptors.len() - i,
    {
        let descriptor: PullIntoDescriptor = descriptors[i];
        let ghost now = byte_world(*stream, *controller, *scope);
        let ghost left = descriptors@.skip(i as int);
        proof {
            assert(left[0] == descriptor);
            lemma_commit(now, left);
        }
        readable_byte_stream_controller_commit_pull_into_descriptor(
            scope,
            stream,
            controller,
            &descriptor,
        );
        i = i + 1;
        proof {
            let rest = descriptors@.skip(i as int);
            assert(left.drop_first() =~= rest);
            assert forall|k: int| 0 <= k < rest.len() implies (#[trigger] rest[k]).reader_type
                == left[0].reader_type by {
                assert(rest[k] == left[k + 1]);
            }
        }
    }
    assert(descriptors@.skip(i as int) =~= Seq::empty());
}

/// Puts a copy of a region at the end of the queue; where no copy can be made, the
/// stream fails.
pub fn readable_byte_stream_controller_enqueue_cloned_chunk_to_queue(
    scope: &mut Scope,
    stream: &mut StreamSlots,
    controller: &mut ReadableByteStreamController,
    buffer: usize,
    byte_offset: usize,
    byte_length: usize,
) -> (result: Result<(), Value>)
    requires
        old(controller)@.total == queue_sum(old(controller)@.queue),
        live(old(scope)@.heap, buffer) ==> byte_offset + byte_length <= old(
            scope,
        )@.heap[buffer as int].data.len(),
    ensures
        (byte_world(*final(stream), *final(controller), *final(scope)), result) == byte_world(
            *old(stream),
            *old(controller),
            *old(scope),
        ).enqueue_cloned(buffer, byte_offset, byte_length),
        result is Ok ==> {
            &&& final(controller)@.total == queue_sum(final(controller)@.queue)
            &&& old(controller)@.total + byte_length <= u128::MAX
            &&& old(scope)@.heap.len() <= usize::MAX
        },
{
    match scope.clone_region(buffer, byte_offset, byte_length) {
        Ok(cloned) => {
            readable_byte_stream_controller_enqueue_chunk_to_queue(
                controller,
                cloned,
                0,
                byte_length,
            );
            Ok(())
        },
        Err(error) => {
            readable_byte_stream_controller_error(scope, stream, controller, error.clone());
            Err(error)
        },
    }
}

/// Puts what a released reader left in the first descriptor back into the queue, and
/// drops the descriptor.
pub fn readable_byte_stream_controller_enqueue_detached_pull_into_to_queue(
    scope: &mut Scope,
    stream: &mut StreamSlots,
    controller: &mut ReadableByteStreamController,
) -> (result: Result<(), Value>)
    requires
        old(controller)@.total == queue_sum(old(controller)@.queue),
        old(controller)@.pending.len() > 0,
        ({
            let head = old(controller)@.pending[0];
            live(old(scope)@.heap, head.buffer) ==> head.byte_offset + head.bytes_filled <= old(
                scope,
            )@.heap[head.buffer as int].data.len()
        }),
    ensures
        (byte_world(*final(stream), *final(controller), *final(scope)), result) == byte_world(
            *old(stream),
            *old(controller),
            *old(scope),
        ).enqueue_detached(),
        result is Ok && old(controller)@.pending[0].bytes_filled > 0 ==> {
            &&& old(scope)@.heap.len() <= usize::MAX
            &&& old(controller)@.total + old(controller)@.pending[0].bytes_filled <= u128::MAX
        },
{
    let head: PullIntoDescriptor = controller.pending_pull_intos[0];
    if head.bytes_filled > 0 {
        match readable_byte_stream_controller_enqueue_cloned_chunk_to_queue(
            scope,
            stream,
            controller,
            head.buffer,
            head.byte_offset,
            head.bytes_filled,
        ) {
            Ok(()) => {},
            Err(error) => {
                return Err(error);
            },
        }
    }
    let _ = readable_byte_stream_controller_shift_pending_pull_into(controller);
    Ok(())
}

/// Answers a read request with the first entry of the queue.
pub fn readable_byte_stream_controller_fill_read_request_from_queue(
    scope: &mut Scope,
    stream: &mut StreamSlots,
    controller: &mut ReadableByteStreamController,
    request: ReadRequest,
)
    requires
        old(stream)@.state is Readable,
        old(controller)@.queue.len() > 0,
        old(controller)@.total == queue_sum(old(controller)@.queue),
    ensures
        byte_world(*final(stream), *final(controller), *final(scope)) == byte_world(
            *old(stream),
            *old(controller),
            *old(scope),
        ).fill_read_request(request),
{
    match controller.queue.pop_front() {
        Some(entry) => {
            assert(controller@.queue =~= old(controller)@.queue.drop_first());
            controller.queue_total_size = controller.queue_total_size - entry.byte_length as u128;
            readable_byte_stream_controller_handle_queue_drain(scope, stream, controller);
            let view: ArrayBufferView = ArrayBufferView {
                kind: ViewKind::Uint8,
                buffer: entry.buffer,
                byte_offset: entry.byte_offset,
                byte_length: entry.byte_length,
            };
            request.chunk_steps(scope, Value::Bytes(view));
        },
        None => {},
    }
}

/// Answers the first of the read requests that wait from the queue, and tells whether there
/// was one and the queue had bytes for it.
pub fn readable_byte_stream_controller_process_read_requests_using_queue(
    scope: &mut Scope,
    stream: &mut StreamSlots,
    controller: &mut ReadableByteStreamController,
) -> (answered: bool)
    requires
        byte_world(*old(stream), *old(controller), *old(scope)).memory_ok(),
        old(stream)@.requests().len() > 0 ==> old(stream)@.state is Readable,
    ensures
        (byte_world(*final(stream), *final(controller), *final(scope)), answered) == byte_world(
            *old(stream),
            *old(controller),
            *old(scope),
        ).process_read_request(),
{
    if stream.num_read_requests() == 0 || controller.queue_total_size == 0 {
        return false;
    }
    let ghost now = byte_world(*stream, *controller, *scope);
    proof {
        lemma_sum_zero(scope@.heap, controller@.queue);
        lemma_dequeue(now.with_slots(now.slots.without_first_request()));
    }
    let request: ReadRequest = stream.pop_read_request();
    readable_byte_stream_controller_fill_read_request_from_queue(
        scope,
        stream,
        controller,
        request,
    );
    true
}

/// Makes the first descriptor, if there is one, ready for a chunk that does not come by
/// way of it.
fn prepare_first_pull_into(
    scope: &mut Scope,
    stream: &mut StreamSlots,
    controller: &mut ReadableByteStreamController,
) -> (result: Result<(), Value>)
    requires
        byte_world(*old(stream), *old(controller), *old(scope)).memory_ok(),
    ensures
        (byte_world(*final(stream), *final(controller), *final(scope)), result) == byte_world(
            *old(stream),
            *old(controller),
            *old(scope),
        ).prepare_head(),
        final(scope)@.heap.len() <= usize::MAX,
{
    let ghost start = byte_world(*stream, *controller, *scope);
    let places: usize = scope.buffers.len();
    if controller.pending_pull_intos.len() == 0 {
        return Ok(());
    }
    let first_buffer: usize = controller.pending_pull_intos[0].buffer;
    if scope.is_detached(first_buffer) {
        return Err(Value::TypeError(Message::PendingPullIntoDetached));
    }
    proof {
        lemma_retake_head(start);
    }
    readable_byte_stream_controller_invalidate_byob_request(scope, stream, controller);
    let transferred_buffer: usize = match scope.transfer(first_buffer) {
        Ok(buffer) => buffer,
        Err(error) => {
            return Err(error);
        },
    };
    let mut head: PullIntoDescriptor = readable_byte_stream_controller_shift_pending_pull_into(
        controller,
    );
    head.buffer = transferred_buffer;
    controller.pending_pull_intos.push_front(head);
    proof {
        assert(controller@.pending =~= start.retake_head().controller.pending);
        assert(byte_world(*stream, *controller, *scope) =~= start.retake_head());
    }
    if head.reader_type == ReaderType::Released {
        assert(descriptor_ok(scope@.heap, controller@.pending[0]));
        let result: Result<(), Value> =
            readable_byte_stream_controller_enqueue_detached_pull_into_to_queue(
            scope,
            stream,
            controller,
        );
        let _: usize = scope.buffers.len();
        return result;
    }
    let _: usize = scope.buffers.len();
    Ok(())
}

/// Hands a chunk in a buffer of the stream's own to a waiting reader, or puts it into
/// the queue, and asks the source for more. A read request that the queue can answer comes
/// first; the rest is then left for later.
fn take_chunk_and_pull(
    scope: &mut Scope,
    stream: &mut StreamSlots,
    controller: &mut ReadableByteStreamController,
    buffer: usize,
    byte_offset: usize,
    byte_length: usize,
)
    requires
        byte_world(*old(stream), *old(controller), *old(scope)).memory_ok(),
        apart(byte_world(*old(stream), *old(controller), *old(scope)), buffer),
        entry_ok(old(scope)@.heap, (ByteQueueEntry { buffer, byte_offset, byte_length })),
        old(controller)@.byob_request is None,
        old(stream)@.requests().len() > 0 ==> old(stream)@.state is Readable,
        old(stream)@.reader is Byob ==> {
            &&& old(controller)@.pending.len() <= old(stream)@.into_requests().len()
            &&& forall|i: int|
                0 <= i < old(controller)@.pending.len() ==> (
                #[trigger] old(controller)@.pending[i]).reader_type is Byob
        },
    ensures
        byte_world(*final(stream), *final(controller), *final(scope)) == byte_world(
            *old(stream),
            *old(controller),
            *old(scope),
        ).take_chunk_and_pull(buffer, byte_offset, byte_length),
{
    let ghost start = byte_world(*stream, *controller, *scope);
    let ghost entry = ByteQueueEntry { buffer, byte_offset, byte_length };
    if stream.has_default_reader() {
        let view: ArrayBufferView = ArrayBufferView {
            kind: ViewKind::Uint8,
            buffer,
            byte_offset,
            byte_length,
        };
        proof {
            lemma_process_read_request(start);
        }
        if readable_byte_stream_controller_process_read_requests_using_queue(
            scope,
            stream,
            controller,
        ) {
            scope.emit(Effect::EnqueueRest { stream: stream.id, view });
            return ;
        }
        if stream.num_read_requests() == 0 {
            readable_byte_stream_controller_enqueue_chunk_to_queue(
                controller,
                buffer,
                byte_offset,
                byte_length,
            );
        } else {
            if controller.pending_pull_intos.len() > 0 {
                let _ = readable_byte_stream_controller_shift_pending_pull_into(controller);
            }
            stream.readable_stream_fulfill_read_request(scope, Value::Bytes(view), false);
        }
    } else if stream.has_byob_reader() {
        readable_byte_stream_controller_enqueue_chunk_to_queue(
            controller,
            buffer,
            byte_offset,
            byte_length,
        );
        let ghost queued = byte_world(*stream, *controller, *scope);
        proof {
            lemma_with_entry(start, entry);
            lemma_process(queued);
            let (after, filled) = queued.process_pull_intos();
            assert forall|i: int| 0 <= i < filled.len() implies (
            #[trigger] filled[i]).reader_type is Byob by {
                assert(same_region(queued.controller.pending[i], filled[i]));
            }
        }
        let filled_pull_intos: Vec<PullIntoDescriptor> =
            readable_byte_stream_controller_process_pull_into_descriptors_using_queue(
            scope,
            stream,
            controller,
        );
        commit_pull_into_descriptors(scope, stream, controller, &filled_pull_intos);
    } else {
        readable_byte_stream_controller_enqueue_chunk_to_queue(
            controller,
            buffer,
            byte_offset,
            byte_length,
        );
    }
    readable_byte_stream_controller_call_pull_if_needed(scope, stream, controller);
}

/// Goes on with a chunk that the source enqueued, after what the source did when a read
/// request was answered before it.
pub fn readable_byte_stream_controller_enqueue_rest(
    scope: &mut Scope,
    stream: &mut StreamSlots,
    controller: &mut ReadableByteStreamController,
    chunk: ArrayBufferView,
)
    requires
        byte_world(*old(stream), *old(controller), *old(scope)).wf(),
        apart(byte_world(*old(stream), *old(controller), *old(scope)), chunk.buffer),
        live(old(scope)@.heap, chunk.buffer),
        view_ok(old(scope)@.heap, chunk),
        chunk.byte_length > 0,
        old(stream)@.reader is Default,
        old(controller)@.byob_request is None,
    ensures
        byte_world(*final(stream), *final(controller), *final(scope)) == byte_world(
            *old(stream),
            *old(controller),
            *old(scope),
        ).enqueue_rest(chunk),
{
    let _: usize = scope.byte_length(chunk.buffer);
    take_chunk_and_pull(
        scope,
        stream,
        controller,
        chunk.buffer,
        chunk.byte_offset,
        chunk.byte_length,
    );
}

/// Takes a chunk from the underlying byte source: it goes to a waiting reader, or into
/// the queue. Where bytes that an earlier reader left come to a waiting read first, the chunk
/// follows by [`readable_byte_stream_controller_enqueue_rest`].
pub fn readable_byte_stream_controller_enqueue(
    scope: &mut Scope,
    stream: &mut StreamSlots,
    controller: &mut ReadableByteStreamController,
    chunk: ArrayBufferView,
) -> (result: Result<(), Value>)
    requires
        byte_world(*old(stream), *old(controller), *old(scope)).wf(),
        byte_world(*old(stream), *old(controller), *old(scope)).foreign(chunk.buffer),
        view_ok(old(scope)@.heap, chunk),
        chunk.byte_length > 0,
    ensures
        (byte_world(*final(stream), *final(controller), *final(scope)), result) == byte_world(
            *old(stream),
            *old(controller),
            *old(scope),
        ).enqueue(chunk),
{
    let ghost start = byte_world(*stream, *controller, *scope);
    if controller.close_requested || stream.state != ReadableStreamState::Readable {
        return Ok(());
    }
    if scope.is_detached(chunk.buffer) {
        return Err(Value::TypeError(Message::EnqueueDetached));
    }
    let buffer: usize = match scope.transfer(chunk.buffer) {
        Ok(buffer) => buffer,
        Err(error) => {
            return Err(error);
        },
    };
    let length: usize = scope.byte_length(buffer);
    let ghost moved = byte_world(*stream, *controller, *scope);
    proof {
        lemma_transfer_foreign(start, chunk.buffer);
        lemma_new_buffer_apart(start, moved);
    }
    match prepare_first_pull_into(scope, stream, controller) {
        Ok(()) => {},
        Err(error) => {
            return Err(error);
        },
    }
    proof {
        lemma_prepare_head(moved, buffer);
    }
    take_chunk_and_pull(
        scope,
        stream,
        controller,
        buffer,
        chunk.byte_offset,
        chunk.byte_length,
    );
    Ok(())
}

/// Reads into a view: the queue is drained into it where that is enough, and otherwise
/// the view waits for the source to fill it.
pub fn readable_byte_stream_controller_pull_into(
    scope: &mut Scope,
    stream: &mut StreamSlots,
    controller: &mut ReadableByteStreamController,
    view: ArrayBufferView,
    min: usize,
    request: ReadIntoRequest,
)
    requires
        byte_world(*old(stream), *old(controller), *old(scope)).memory_ok(),
        byte_world(*old(stream), *old(controller), *old(scope)).foreign(view.buffer),
        view_ok(old(scope)@.heap, view),
        old(stream)@.reader is Byob,
        old(stream)@.state !is Errored,
        min > 0,
        min * view.kind.size() <= view.byte_length,
    ensures
        byte_world(*final(stream), *final(controller), *final(scope)) == byte_world(
            *old(stream),
            *old(controller),
            *old(scope),
        ).pull_into(view, min, request),
{
    let ghost start = byte_world(*stream, *controller, *scope);
    let element_size: usize = view.kind.element_size();
    assert(min * element_size <= view.byte_length);
    let minimum_fill: usize = min * element_size;
    let buffer_byte_length: usize = scope.byte_length(view.buffer);
    let buffer: usize = match scope.transfer(view.buffer) {
        Ok(buffer) => buffer,
        Err(error) => {
            request.error_steps(scope, error);
            return ;
        },
    };
    let mut descriptor: PullIntoDescriptor = PullIntoDescriptor {
        buffer,
        buffer_byte_length,
        byte_offset: view.byte_offset,
        byte_length: view.byte_length,
        bytes_filled: 0,
        minimum_fill,
        element_size,
        view_kind: view.kind,
        reader_type: ReaderType::Byob,
    };
    let ghost moved = byte_world(*stream, *controller, *scope);
    let ghost first = descriptor;
    proof {
        lemma_transfer_foreign(start, view.buffer);
        lemma_new_buffer_apart(start, moved);
        assert(minimum_fill as int % element_size as int == 0 && minimum_fill > 0)
            by (nonlinear_arith)
            requires
                minimum_fill == min * element_size,
                element_size > 0,
                min > 0,
        ;
        assert(first == start.into_descriptor(view, min));
        assert(descriptor_ok(moved.scope.heap, first));
    }
    if controller.pending_pull_intos.len() > 0 {
        controller.pending_pull_intos.push_back(descriptor);
        stream.add_read_into_request(request);
        return ;
    }
    if stream.state == ReadableStreamState::Closed {
        let empty_view: ArrayBufferView = ArrayBufferView {
            kind: view.kind,
            buffer: descriptor.buffer,
            byte_offset: descriptor.byte_offset,
            byte_length: 0,
        };
        request.close_steps(scope, Value::Bytes(empty_view));
        return ;
    }
    if controller.queue_total_size > 0 {
        if readable_byte_stream_controller_fill_pull_into_descriptor_from_queue(
            scope,
            stream,
            controller,
            &mut descriptor,
        ) {
            proof {
                lemma_fill_keeps_live(moved, first);
            }
            let filled_view: ArrayBufferView =
                readable_byte_stream_controller_convert_pull_into_descriptor(scope, &descriptor);
            readable_byte_stream_controller_handle_queue_drain(scope, stream, controller);
            request.chunk_steps(scope, Value::Bytes(filled_view));
            return ;
        }
        if controller.close_requested {
            let error: Value = Value::TypeError(Message::InsufficientBytesRequested);
            readable_byte_stream_controller_error(scope, stream, controller, error.clone());
            request.error_steps(scope, error);
            return ;
        }
    }
    controller.pending_pull_intos.push_back(descriptor);
    stream.add_read_into_request(request);
    readable_byte_stream_controller_call_pull_if_needed(scope, stream, controller);
}

/// Hands back the views of a closed stream.
pub fn readable_byte_stream_controller_respond_in_closed_state(
    scope: &mut Scope,
    stream: &mut StreamSlots,
    controller: &mut ReadableByteStreamController,
)
    requires
        byte_world(*old(stream), *old(controller), *old(scope)).memory_ok(),
        byte_world(*old(stream), *old(controller), *old(scope)).kinds_ok(),
        byte_world(*old(stream), *old(controller), *old(scope)).counts_ok(),
        old(controller)@.byob_request is None,
        old(controller)@.pending.len() > 0,
    ensures
        byte_world(*final(stream), *final(controller), *final(scope)) == byte_world(
            *old(stream),
            *old(controller),
            *old(scope),
        ).respond_closed(),
{
    let ghost start = byte_world(*stream, *controller, *scope);
    if controller.pending_pull_intos[0].reader_type == ReaderType::Released {
        proof {
            lemma_shift(start);
        }
        let _ = readable_byte_stream_controller_shift_pending_pull_into(controller);
    }
    if stream.has_byob_reader() {
        let ghost current = byte_world(*stream, *controller, *scope);
        let count: usize = stream.num_read_into_requests();
        let mut descriptors: Vec<PullIntoDescriptor> = Vec::new();
        assert(current.controller.pending.len() == count);
        assert(current.controller.pending.skip(0) =~= current.controller.pending);
        let mut i: usize = 0;
        while i < count
            invariant
                i <= count,
                count == current.controller.pending.len(),
                descriptors@ == current.controller.pending.take(i as int),
                controller@ == (ByteControllerModel {
                    pending: current.controller.pending.skip(i as int),
                    ..current.controller
                }),
            decreases count - i,
        {
            let descriptor: PullIntoDescriptor =
                readable_byte_stream_controller_shift_pending_pull_into(controller);
            descriptors.push(descriptor);
            i = i + 1;
            proof {
                assert(controller@.pending =~= current.controller.pending.skip(i as int));
                assert(descriptors@ =~= current.controller.pending.take(i as int));
            }
        }
        proof {
            let given = current.controller.pending.take(count as int);
            let emptied = byte_world(*stream, *controller, *scope);
            assert(given =~= current.controller.pending);
            assert forall|k: int| 0 <= k < given.len() implies can_transfer(
                emptied.scope.heap,
                (#[trigger] given[k]).buffer,
            ) && given[k].reader_type is Byob by {
                assert(descriptor_ok(current.scope.heap, current.controller.pending[k]));
            }
            assert(emptied.memory_ok());
            assert(emptied.handover_ok(given));
        }
        commit_pull_into_descriptors(scope, stream, controller, &descriptors);
    }
}

/// Fills waiting descriptors from the queue and hands over those that are ready, after
/// the given ones.
fn process_and_commit(
    scope: &mut Scope,
    stream: &mut StreamSlots,
    controller: &mut ReadableByteStreamController,
    first: Vec<PullIntoDescriptor>,
)
    requires
        byte_world(*old(stream), *old(controller), *old(scope)).memory_ok(),
        byte_world(*old(stream), *old(controller), *old(scope)).handover_ok(first@),
        byte_world(*old(stream), *old(controller), *old(scope)).awaited(
            first@ + old(controller)@.pending,
        ),
        old(controller)@.byob_request is None,
    ensures
        byte_world(*final(stream), *final(controller), *final(scope)) == byte_world(
            *old(stream),
            *old(controller),
            *old(scope),
        ).process_and_commit(first@),
{
    let ghost start = byte_world(*stream, *controller, *scope);
    proof {
        lemma_process(start);
        lemma_process_handover(start, first@);
    }
    let mut filled_pull_intos: Vec<PullIntoDescriptor> =
        readable_byte_stream_controller_process_pull_into_descriptors_using_queue(
        scope,
        stream,
        controller,
    );
    let mut all: Vec<PullIntoDescriptor> = first;
    all.append(&mut filled_pull_intos);
    commit_pull_into_descriptors(scope, stream, controller, &all);
}

/// Counts the bytes that the source wrote into the first descriptor, and hands over what
/// is filled by then.
pub fn readable_byte_stream_controller_respond_in_readable_state(
    scope: &mut Scope,
    stream: &mut StreamSlots,
    controller: &mut ReadableByteStreamController,
    bytes_written: usize,
) -> (result: Result<(), Value>)
    requires
        byte_world(*old(stream), *old(controller), *old(scope)).memory_ok(),
        byte_world(*old(stream), *old(controller), *old(scope)).kinds_ok(),
        byte_world(*old(stream), *old(controller), *old(scope)).counts_ok(),
        byte_world(*old(stream), *old(controller), *old(scope)).allocations_awaited(),
        old(stream)@.state is Readable,
        old(controller)@.byob_request is None,
        old(controller)@.pending.len() > 0,
        bytes_written > 0,
        old(controller)@.pending[0].bytes_filled + bytes_written <= old(
            controller,
        )@.pending[0].byte_length,
    ensures
        (byte_world(*final(stream), *final(controller), *final(scope)), result) == byte_world(
            *old(stream),
            *old(controller),
            *old(scope),
        ).respond_readable(bytes_written),
{
    let ghost start = byte_world(*stream, *controller, *scope);
    let ghost head = start.controller.pending[0];
    let places: usize = scope.buffers.len();
    proof {
        assert(descriptor_ok(start.scope.heap, head));
        lemma_shift(start);
    }
    let mut descriptor: PullIntoDescriptor =
        readable_byte_stream_controller_shift_pending_pull_into(controller);
    readable_byte_stream_controller_fill_head_pull_into_descriptor(bytes_written, &mut descriptor);
    if descriptor.reader_type == ReaderType::Released {
        controller.pending_pull_intos.push_front(descriptor);
        let ghost back = byte_world(*stream, *controller, *scope);
        assert(back.controller.pending =~= start.controller.with_head(descriptor).pending);
        assert(back =~= start.with_controller(start.controller.with_head(descriptor)));
        let ghost queue_length = controller.queue.len();
        match readable_byte_stream_controller_enqueue_detached_pull_into_to_queue(
            scope,
            stream,
            controller,
        ) {
            Ok(()) => {},
            Err(error) => {
                return Err(error);
            },
        }
        proof {
            lemma_leftover_enqueued(start, descriptor);
            assert(start.controller.pending.drop_first() =~= back.controller.pending.drop_first());
            let rest = byte_world(*stream, *controller, *scope);
            assert(rest == back.enqueue_detached().0);
            assert(Seq::<PullIntoDescriptor>::empty() + rest.controller.pending
                =~= rest.controller.pending);
        }
        process_and_commit(scope, stream, controller, Vec::new());
        return Ok(());
    }
    if descriptor.bytes_filled < descriptor.minimum_fill {
        controller.pending_pull_intos.push_front(descriptor);
        assert(controller@.pending =~= start.controller.with_head(descriptor).pending);
        return Ok(());
    }
    let remainder_size: usize = descriptor.bytes_filled % descriptor.element_size;
    let ghost filled = descriptor;
    let ghost rest = byte_world(*stream, *controller, *scope);
    if remainder_size > 0 {
        assert(remainder_size <= descriptor.bytes_filled) by (nonlinear_arith)
            requires
                remainder_size == descriptor.bytes_filled % descriptor.element_size,
                descriptor.element_size > 0,
        ;
        let end: usize = descriptor.byte_offset + descriptor.bytes_filled;
        match readable_byte_stream_controller_enqueue_cloned_chunk_to_queue(
            scope,
            stream,
            controller,
            descriptor.buffer,
            end - remainder_size,
            remainder_size,
        ) {
            Ok(()) => {},
            Err(error) => {
                return Err(error);
            },
        }
    }
    descriptor.bytes_filled = descriptor.bytes_filled - remainder_size;
    let mut first: Vec<PullIntoDescriptor> = Vec::new();
    first.push(descriptor);
    proof {
        lemma_remainder_enqueued(
            start,
            filled,
            remainder_size,
            byte_world(*stream, *controller, *scope),
        );
        assert(first@ =~= seq![descriptor]);
    }
    process_and_commit(scope, stream, controller, first);
    Ok(())
}

} // verus!
