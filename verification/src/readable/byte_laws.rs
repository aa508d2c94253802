//! What holds of readable byte streams whatever is done with them.

use vstd::prelude::*;

use crate::buffer::{fresh_buffer, live};
use crate::readable::byte_memory::lemma_dequeue;
use crate::readable::byte_queue::lemma_sum_zero;
use crate::readable::byte_stream_controller::{descriptor_ok, ByteControllerModel, ByteWorld};
use crate::readable::read_request::ReadRequest;
use crate::readable::stream_world::ReadableWorld;
use crate::scope::PromiseRef;
use crate::value::Value;

verus! {

impl ByteWorld {
    /// What holds of a readable byte stream between two operations, with a request for
    /// each buffer that was allocated for a default reader.
    pub open spec fn sound(self) -> bool {
        self.wf() && self.allocations_awaited()
    }
}

/// A pull, asked for or not, leaves a byte stream sound.
pub proof fn law_byte_call_pull(w: ByteWorld)
    requires
        w.wf(),
    ensures
        w.call_pull().wf(),
        w.allocations_awaited() ==> w.call_pull().allocations_awaited(),
{
}

/// The end of a start or of a pull leaves a byte stream sound.
pub proof fn law_byte_source_fulfilled(w: ByteWorld)
    requires
        w.sound(),
    ensures
        w.start_fulfilled().sound(),
        w.pull_fulfilled().sound(),
{
}

/// A failure leaves a byte stream sound, and without bytes and descriptors.
pub proof fn law_byte_errored(w: ByteWorld, error: Value)
    requires
        w.sound(),
    ensures
        w.errored(error).sound(),
        w.slots.state is Readable ==> {
            &&& w.errored(error).slots.state is Errored
            &&& w.errored(error).slots.stored_error == error
            &&& w.errored(error).controller.queue.len() == 0
            &&& w.errored(error).controller.pending.len() == 0
        },
{
}

/// A close leaves a byte stream sound.
pub proof fn law_byte_close(w: ByteWorld)
    requires
        w.sound(),
    ensures
        w.close().0.sound(),
{
    lemma_sum_zero(w.scope.heap, w.controller.queue);
    law_byte_errored(w, w.close().1->Err_0);
}

/// Asking for the BYOB request leaves a byte stream sound.
pub proof fn law_byte_byob_request(w: ByteWorld)
    requires
        w.sound(),
    ensures
        w.with_byob_request().sound(),
        w.with_byob_request().with_byob_request() == w.with_byob_request(),
{
}

/// A cancelation leaves a byte stream sound; it closes one that was readable.
pub proof fn law_byte_cancel(w: ReadableWorld, reason: Value, result: PromiseRef)
    requires
        w.stream.controller is Byte,
        w.as_byte().sound(),
    ensures
        w.cancel(reason, result).stream.controller is Byte,
        w.cancel(reason, result).as_byte().sound(),
        w.cancel(reason, result).stream.slots.state !is Readable,
{
}

/// The release of the reader leaves a byte stream sound.
pub proof fn law_byte_release(w: ReadableWorld)
    requires
        w.stream.controller is Byte,
        w.as_byte().sound(),
    ensures
        w.release().stream.controller is Byte,
        w.release().as_byte().sound(),
{
    let b = w.as_byte();
    let after = w.release().as_byte();
    assert(after.scope.heap == b.scope.heap);
    assert(after.controller == b.controller.released());
    if b.controller.pending.len() > 0 {
        assert(descriptor_ok(b.scope.heap, b.controller.pending[0]));
        assert(after.controller.pending.len() == 1);
    }
    assert(after.memory_ok());
}

/// A new reader leaves a byte stream sound.
pub proof fn law_byte_lock(w: ReadableWorld)
    requires
        w.stream.controller is Byte,
        w.as_byte().sound(),
    ensures
        w.acquire_default_reader().0.as_byte().sound(),
        w.acquire_byob_reader().0.as_byte().sound(),
{
}

/// A read by a default reader leaves a byte stream sound.
pub proof fn law_byte_read(w: ReadableWorld, request: ReadRequest)
    requires
        w.stream.controller is Byte,
        w.as_byte().sound(),
        w.stream.slots.reader is Default,
        w.scope.heap.len() < usize::MAX,
    ensures
        w.read(request).stream.controller is Byte,
        w.read(request).as_byte().sound(),
        w.read(request).stream.slots.reader is Default,
{
    let b = w.disturbed().as_byte();
    assert(b.sound());
    if w.stream.slots.state is Readable {
        lemma_sum_zero(b.scope.heap, b.controller.queue);
        if b.controller.total > 0 {
            lemma_dequeue(b);
            let entry = b.controller.queue[0];
            let left = b.with_controller(
                ByteControllerModel {
                    queue: b.controller.queue.drop_first(),
                    total: (b.controller.total - entry.byte_length) as u128,
                    ..b.controller
                },
            );
            assert(left.memory_ok());
            lemma_sum_zero(left.scope.heap, left.controller.queue);
            assert(b.controller.pending.len() == 0);
        } else {
            match b.controller.auto_allocate_chunk_size {
                None => {},
                Some(size) => {
                    if size <= b.scope.limit {
                        lemma_auto_allocated(b, size);
                    }
                },
            }
        }
    }
}

/// The descriptor of a buffer that is allocated for a default reader fits in.
proof fn lemma_auto_allocated(w: ByteWorld, size: usize)
    requires
        w.memory_ok(),
        w.controller.queue.len() == 0,
        w.scope.heap.len() < usize::MAX,
        size > 0,
    ensures
        w.with_heap(
            w.scope.heap.push(fresh_buffer(Seq::new(size as nat, |i: int| 0u8))),
        ).with_controller(w.controller.with_pending(w.auto_descriptor(size))).memory_ok(),
{
    let heap = w.scope.heap.push(fresh_buffer(Seq::new(size as nat, |i: int| 0u8)));
    let after = w.with_heap(heap).with_controller(
        w.controller.with_pending(w.auto_descriptor(size)),
    );
    let pending = after.controller.pending;
    assert forall|i: int| 0 <= i < pending.len() implies descriptor_ok(
        heap,
        #[trigger] pending[i],
    ) by {
        if i < w.controller.pending.len() {
            assert(pending[i] == w.controller.pending[i]);
            assert(descriptor_ok(w.scope.heap, w.controller.pending[i]));
        }
    }
    assert forall|i: int| 0 < i < pending.len() implies live(
        heap,
        (#[trigger] pending[i]).buffer,
    ) by {
        if i < w.controller.pending.len() {
            assert(pending[i] == w.controller.pending[i]);
        }
    }
    assert forall|i: int, j: int| 0 <= i < j < pending.len() implies (
    #[trigger] pending[i]).buffer != (#[trigger] pending[j]).buffer by {
        assert(pending[i] == w.controller.pending[i]);
        assert(descriptor_ok(w.scope.heap, w.controller.pending[i]));
    }
}

} // verus!
