//! The controller of a readable byte stream, and what its operations come to.

use std::collections::VecDeque;

use vstd::prelude::*;

use crate::buffer::{
    byte_length_of, can_transfer, fresh_buffer, live, spliced, transferred, ArrayBufferView,
    BufferModel, Heap, ViewKind,
};
use crate::number::Number;
use crate::readable::byob_request::ReadableStreamBYOBRequest;
use crate::readable::read_request::{
    chunk_effect, close_effect, error_effect, into_chunk_effect, into_close_effect,
    into_error_effect, ReadIntoRequest, ReadRequest,
};
use crate::readable::readable_stream::ReadableStreamState;
use crate::readable::slots::{ReaderModel, SlotsModel};
use crate::scope::{
    can_clone, clone_error, transfer_error, Algorithm, Call, Effect, PromiseRef, ScopeModel,
};
use crate::value::{Message, Value};

verus! {

/// A region of an array buffer that waits in the queue of a byte stream.
#[derive(Clone, Copy, Debug, PartialEq, Eq, Structural)]
pub struct ByteQueueEntry {
    pub buffer: usize,
    pub byte_offset: usize,
    pub byte_length: usize,
}

/// The kind of reader to which a filled pull-into descriptor goes.
#[derive(Clone, Copy, Debug, PartialEq, Eq, Structural)]
pub enum ReaderType {
    Default,
    Byob,
    /// The reader has been released: what is filled in stays with the stream.
    Released,
}

/// A region that an underlying byte source is asked to fill.
#[derive(Clone, Copy, Debug, PartialEq, Eq, Structural)]
pub struct PullIntoDescriptor {
    pub buffer: usize,
    pub buffer_byte_length: usize,
    /// Where the region begins in the buffer.
    pub byte_offset: usize,
    pub byte_length: usize,
    /// How much of the region has been filled so far.
    pub bytes_filled: usize,
    /// How much of the region has to be filled before it is handed over.
    pub minimum_fill: usize,
    pub element_size: usize,
    /// The kind of the view to make of the region.
    pub view_kind: ViewKind,
    pub reader_type: ReaderType,
}

/// The controller of a readable byte stream.
pub struct ReadableByteStreamController {
    /// The size of the buffers to allocate for default readers, if any are.
    pub auto_allocate_chunk_size: Option<usize>,
    pub byob_request: Option<ReadableStreamBYOBRequest>,
    pub cancel_algorithm: Algorithm,
    /// Whether the source has closed the stream while chunks were still queued.
    pub close_requested: bool,
    /// Whether another pull was asked for while one was under way.
    pub pull_again: bool,
    pub pull_algorithm: Algorithm,
    /// The `this` of the algorithms.
    pub algorithm_receiver: Value,
    pub pulling: bool,
    pub pending_pull_intos: VecDeque<PullIntoDescriptor>,
    pub queue: VecDeque<ByteQueueEntry>,
    /// The number of bytes in the queue.
    pub queue_total_size: u128,
    /// Whether the source has finished starting.
    pub started: bool,
    pub strategy_hwm: Number,
}

/// What there is to know of the controller of a readable byte stream.
#[verifier::ext_equal]
pub struct ByteControllerModel {
    pub auto_allocate_chunk_size: Option<usize>,
    pub byob_request: Option<ReadableStreamBYOBRequest>,
    pub cancel_algorithm: Algorithm,
    pub close_requested: bool,
    pub pull_again: bool,
    pub pull_algorithm: Algorithm,
    pub receiver: Value,
    pub pulling: bool,
    pub pending: Seq<PullIntoDescriptor>,
    pub queue: Seq<ByteQueueEntry>,
    pub total: u128,
    pub started: bool,
    pub hwm: Number,
}

impl View for ReadableByteStreamController {
    type V = ByteControllerModel;

    open spec fn view(&self) -> ByteControllerModel {
        ByteControllerModel {
            auto_allocate_chunk_size: self.auto_allocate_chunk_size,
            byob_request: self.byob_request,
            cancel_algorithm: self.cancel_algorithm,
            close_requested: self.close_requested,
            pull_again: self.pull_again,
            pull_algorithm: self.pull_algorithm,
            receiver: self.algorithm_receiver,
            pulling: self.pulling,
            pending: self.pending_pull_intos@,
            queue: self.queue@,
            total: self.queue_total_size,
            started: self.started,
            hwm: self.strategy_hwm,
        }
    }
}

impl ByteControllerModel {
    /// The room below the high-water mark.
    pub open spec fn desired_size(self) -> Number {
        self.hwm.minus(Number::counted(self.total as nat))
    }
}

/// The room below the high-water mark; there is none to speak of once the stream has
/// failed.
pub open spec fn byte_desired_size(
    slots: SlotsModel,
    controller: ByteControllerModel,
) -> Option<Number> {
    match slots.state {
        ReadableStreamState::Errored => None,
        ReadableStreamState::Closed => Some(Number { bits: 0 }),
        ReadableStreamState::Readable => Some(controller.desired_size()),
    }
}

/// Whether the source is to be asked for more.
pub open spec fn byte_should_pull(slots: SlotsModel, controller: ByteControllerModel) -> bool {
    &&& slots.state is Readable
    &&& !controller.close_requested
    &&& controller.started
    &&& {
        ||| slots.requests().len() > 0
        ||| slots.into_requests().len() > 0
        ||| controller.desired_size().positive()
    }
}

/// A readable byte stream together with the scope in which it is used.
#[verifier::ext_equal]
pub struct ByteWorld {
    pub slots: SlotsModel,
    pub controller: ByteControllerModel,
    pub scope: ScopeModel,
}

/// The number of bytes that a queue holds.
pub open spec fn queue_sum(queue: Seq<ByteQueueEntry>) -> nat
    decreases queue.len(),
{
    if queue.len() == 0 {
        0
    } else {
        queue[0].byte_length as nat + queue_sum(queue.drop_first())
    }
}

/// The bytes of one entry of a queue.
pub open spec fn entry_bytes(heap: Heap, entry: ByteQueueEntry) -> Seq<u8> {
    heap[entry.buffer as int].data.subrange(
        entry.byte_offset as int,
        entry.byte_offset + entry.byte_length,
    )
}

/// The bytes of a queue, in the order in which they are read.
pub open spec fn queue_bytes(heap: Heap, queue: Seq<ByteQueueEntry>) -> Seq<u8>
    decreases queue.len(),
{
    if queue.len() == 0 {
        Seq::empty()
    } else {
        entry_bytes(heap, queue[0]) + queue_bytes(heap, queue.drop_first())
    }
}

/// A queue after its first `count` bytes have been taken out.
pub open spec fn drop_bytes(queue: Seq<ByteQueueEntry>, count: nat) -> Seq<ByteQueueEntry>
    decreases queue.len(),
{
    if queue.len() == 0 || count == 0 {
        queue
    } else if queue[0].byte_length <= count {
        drop_bytes(queue.drop_first(), (count - queue[0].byte_length) as nat)
    } else {
        queue.update(
            0,
            ByteQueueEntry {
                byte_offset: (queue[0].byte_offset + count) as usize,
                byte_length: (queue[0].byte_length - count) as usize,
                ..queue[0]
            },
        )
    }
}

/// Whether an entry of a queue lies in a buffer that has its bytes.
pub open spec fn entry_ok(heap: Heap, entry: ByteQueueEntry) -> bool {
    &&& live(heap, entry.buffer)
    &&& entry.byte_length > 0
    &&& entry.byte_offset + entry.byte_length <= heap[entry.buffer as int].data.len()
    &&& entry.byte_offset + entry.byte_length <= usize::MAX
}

/// Whether a descriptor lies in its buffer and is in want of bytes.
pub open spec fn descriptor_ok(heap: Heap, descriptor: PullIntoDescriptor) -> bool {
    &&& descriptor.buffer < heap.len()
    &&& descriptor.element_size == descriptor.view_kind.size()
    &&& descriptor.byte_offset + descriptor.byte_length <= descriptor.buffer_byte_length
    &&& descriptor.bytes_filled < descriptor.minimum_fill <= descriptor.byte_length
    &&& descriptor.minimum_fill as int % descriptor.element_size as int == 0
    &&& live(heap, descriptor.buffer) ==> {
        &&& heap[descriptor.buffer as int].data.len() == descriptor.buffer_byte_length
        &&& heap[descriptor.buffer as int].detachable
    }
}

/// How far a descriptor would be filled if all queued bytes that fit were copied.
pub open spec fn most_filled(total: u128, descriptor: PullIntoDescriptor) -> nat {
    let room = descriptor.byte_length - descriptor.bytes_filled;
    (descriptor.bytes_filled + if total <= room {
        total as int
    } else {
        room
    }) as nat
}

/// The whole elements among those bytes.
pub open spec fn most_aligned(total: u128, descriptor: PullIntoDescriptor) -> nat {
    let most = most_filled(total, descriptor);
    (most - most as int % descriptor.element_size as int) as nat
}

/// Whether the queued bytes fill a descriptor as far as it asks.
pub open spec fn fill_ready(total: u128, descriptor: PullIntoDescriptor) -> bool {
    most_aligned(total, descriptor) >= descriptor.minimum_fill
}

/// How many queued bytes go to a descriptor: whole elements where that fills it as
/// far as it asks, and otherwise all there are.
pub open spec fn fill_count(total: u128, descriptor: PullIntoDescriptor) -> nat {
    let target = if fill_ready(total, descriptor) {
        most_aligned(total, descriptor)
    } else {
        most_filled(total, descriptor)
    };
    (target - descriptor.bytes_filled) as nat
}

/// The descriptor after it has been filled from the queue.
pub open spec fn filled_from_queue(
    total: u128,
    descriptor: PullIntoDescriptor,
) -> PullIntoDescriptor {
    PullIntoDescriptor {
        bytes_filled: (descriptor.bytes_filled + fill_count(total, descriptor)) as usize,
        ..descriptor
    }
}

/// The store after `bytes` were put behind those that a descriptor already holds.
pub open spec fn put_bytes(heap: Heap, descriptor: PullIntoDescriptor, bytes: Seq<u8>) -> Heap {
    let place = descriptor.buffer as int;
    heap.update(
        place,
        BufferModel {
            data: spliced(
                heap[place].data,
                descriptor.byte_offset + descriptor.bytes_filled,
                bytes,
            ),
            ..heap[place]
        },
    )
}

/// The view that is made of the filled part of a descriptor whose buffer has moved
/// to `buffer`.
pub open spec fn filled_view(descriptor: PullIntoDescriptor, buffer: usize) -> ArrayBufferView {
    ArrayBufferView {
        kind: descriptor.view_kind,
        buffer,
        byte_offset: descriptor.byte_offset,
        byte_length: descriptor.bytes_filled,
    }
}

/// The request by which a source is asked to fill the rest of a descriptor.
pub open spec fn request_for(
    stream: u64,
    descriptor: PullIntoDescriptor,
) -> ReadableStreamBYOBRequest {
    ReadableStreamBYOBRequest {
        controller: Some(stream),
        view: Some(
            ArrayBufferView {
                kind: ViewKind::Uint8,
                buffer: descriptor.buffer,
                byte_offset: (descriptor.byte_offset + descriptor.bytes_filled) as usize,
                byte_length: (descriptor.byte_length - descriptor.bytes_filled) as usize,
            },
        ),
    }
}

/// A view of single bytes.
pub open spec fn byte_view(buffer: usize, byte_offset: usize, byte_length: usize) -> Value {
    Value::Bytes(ArrayBufferView { kind: ViewKind::Uint8, buffer, byte_offset, byte_length })
}

/// Whether a view lies in its buffer and holds whole elements.
pub open spec fn view_ok(heap: Heap, view: ArrayBufferView) -> bool {
    &&& live(heap, view.buffer) ==> view.byte_offset + view.byte_length
        <= heap[view.buffer as int].data.len()
    &&& view.byte_length as int % view.kind.size() as int == 0
}

impl ByteControllerModel {
    pub open spec fn cleared_algorithms(self) -> ByteControllerModel {
        ByteControllerModel {
            pull_algorithm: Algorithm::Undefined,
            cancel_algorithm: Algorithm::Undefined,
            ..self
        }
    }

    pub open spec fn reset_queue(self) -> ByteControllerModel {
        ByteControllerModel { queue: Seq::empty(), total: 0, ..self }
    }

    /// The controller with one more entry in its queue.
    pub open spec fn with_entry(
        self,
        buffer: usize,
        byte_offset: usize,
        byte_length: usize,
    ) -> ByteControllerModel {
        ByteControllerModel {
            queue: self.queue.push(ByteQueueEntry { buffer, byte_offset, byte_length }),
            total: (self.total + byte_length) as u128,
            ..self
        }
    }

    /// The controller without its first pull-into descriptor.
    pub open spec fn shifted(self) -> ByteControllerModel {
        ByteControllerModel { pending: self.pending.drop_first(), ..self }
    }

    /// The controller with another first pull-into descriptor.
    pub open spec fn with_head(self, head: PullIntoDescriptor) -> ByteControllerModel {
        ByteControllerModel { pending: self.pending.update(0, head), ..self }
    }

    pub open spec fn with_pending(self, descriptor: PullIntoDescriptor) -> ByteControllerModel {
        ByteControllerModel { pending: self.pending.push(descriptor), ..self }
    }

    /// The number of descriptors that are still wanted by a reader.
    pub open spec fn wanted(self) -> nat {
        if self.pending.len() > 0 && self.pending[0].reader_type is Released {
            (self.pending.len() - 1) as nat
        } else {
            self.pending.len()
        }
    }
}

impl ByteWorld {
    /// What the queue and the descriptors owe to the store: they lie in buffers of
    /// their own that have their bytes. Only the first descriptor may be without, while
    /// its buffer is in the hands of the source.
    pub open spec fn memory_ok(self) -> bool {
        let heap = self.scope.heap;
        let queue = self.controller.queue;
        let pending = self.controller.pending;
        &&& self.controller.total == queue_sum(queue)
        &&& forall|i: int| 0 <= i < queue.len() ==> entry_ok(heap, #[trigger] queue[i])
        &&& forall|i: int| 0 <= i < pending.len() ==> descriptor_ok(heap, #[trigger] pending[i])
        &&& forall|i: int| 0 < i < pending.len() ==> live(heap, (#[trigger] pending[i]).buffer)
        &&& self.controller.byob_request is None && pending.len() > 0 ==> live(
            heap,
            pending[0].buffer,
        )
        &&& forall|i: int, j: int|
            0 <= i < j < queue.len() ==> (#[trigger] queue[i]).buffer != (
            #[trigger] queue[j]).buffer
        &&& forall|i: int, j: int|
            0 <= i < j < pending.len() ==> (#[trigger] pending[i]).buffer != (
            #[trigger] pending[j]).buffer
        &&& forall|i: int, j: int|
            0 <= i < pending.len() && 0 <= j < queue.len() ==> (#[trigger] pending[i]).buffer != (
            #[trigger] queue[j]).buffer
    }

    /// Whether the pending descriptors are for the present reader, but for a first one
    /// that an earlier reader may have left behind.
    pub open spec fn kinds_ok(self) -> bool {
        let pending = self.controller.pending;
        match self.slots.reader {
            ReaderModel::Unlocked => {
                &&& pending.len() <= 1
                &&& pending.len() == 1 ==> pending[0].reader_type is Released
            },
            ReaderModel::Default(_) => {
                &&& pending.len() > 0 ==> pending[0].reader_type !is Byob
                &&& forall|i: int|
                    0 < i < pending.len() ==> (#[trigger] pending[i]).reader_type is Default
            },
            ReaderModel::Byob(_) => {
                &&& pending.len() > 0 ==> pending[0].reader_type !is Default
                &&& forall|i: int|
                    0 < i < pending.len() ==> (#[trigger] pending[i]).reader_type is Byob
            },
        }
    }

    /// Whether a request waits for each descriptor of a BYOB reader, and none of a default
    /// reader once the stream has ended.
    pub open spec fn counts_ok(self) -> bool {
        match self.slots.reader {
            ReaderModel::Unlocked => true,
            ReaderModel::Default(requests) => self.slots.state !is Readable ==> requests.len()
                == 0,
            ReaderModel::Byob(requests) => self.controller.wanted() == requests.len(),
        }
    }

    /// Whether a request waits for each descriptor that was allocated for a default reader.
    pub open spec fn allocations_awaited(self) -> bool {
        self.slots.reader is Default && self.slots.state is Readable ==> self.controller.wanted()
            <= self.slots.requests().len()
    }

    /// What holds of a readable byte stream between two operations.
    pub open spec fn wf(self) -> bool {
        let pending = self.controller.pending;
        &&& self.memory_ok()
        &&& self.kinds_ok()
        &&& self.counts_ok()
        &&& self.slots.state !is Readable ==> self.controller.queue.len() == 0
        &&& self.slots.state is Errored ==> pending.len() == 0
        &&& pending.len() > 0 ==> self.controller.queue.len() == 0
        &&& self.slots.state is Readable && self.controller.close_requested
            ==> self.controller.queue.len() > 0
        &&& forall|i: int| 0 < i < pending.len() ==> (#[trigger] pending[i]).bytes_filled == 0
        &&& self.slots.state is Closed && pending.len() > 0 ==> pending[0].bytes_filled as int
            % pending[0].element_size as int == 0
        &&& self.controller.byob_request matches Some(request) ==> pending.len() > 0 && request
            == request_for(self.slots.id, pending[0])
        &&& self.controller.pull_again ==> self.controller.pulling
        &&& self.controller.auto_allocate_chunk_size != Some(0usize)
    }

    /// Whether a buffer is none that the stream keeps for itself. The first descriptor's
    /// is in the hands of the source while there is a BYOB request for it.
    pub open spec fn foreign(self, buffer: usize) -> bool {
        &&& forall|i: int|
            0 <= i < self.controller.queue.len() ==> (#[trigger] self.controller.queue[i]).buffer
                != buffer
        &&& forall|i: int|
            0 < i < self.controller.pending.len() ==> (
            #[trigger] self.controller.pending[i]).buffer != buffer
        &&& self.controller.byob_request is None && self.controller.pending.len() > 0
            ==> self.controller.pending[0].buffer != buffer
    }

    /// Whether a part-filled descriptor of an earlier reader stands before descriptors
    /// that were allocated for a default reader.
    pub open spec fn leftover_before_default(self) -> bool {
        &&& self.slots.reader is Default
        &&& self.controller.pending.len() > 1
        &&& self.controller.pending[0].reader_type is Released
        &&& self.controller.pending[0].bytes_filled > 0
    }

    /// Whether filled descriptors that have left the list can be handed over: each lies
    /// in a buffer of its own.
    pub open spec fn handover_ok(self, descriptors: Seq<PullIntoDescriptor>) -> bool {
        let heap = self.scope.heap;
        &&& forall|i: int|
            0 <= i < descriptors.len() ==> can_transfer(heap, (#[trigger] descriptors[i]).buffer)
        &&& forall|i: int, j: int|
            0 <= i < j < descriptors.len() ==> (#[trigger] descriptors[i]).buffer != (
            #[trigger] descriptors[j]).buffer
        &&& forall|i: int, j: int|
            0 <= i < descriptors.len() && 0 <= j < self.controller.queue.len() ==> (
            #[trigger] descriptors[i]).buffer != (#[trigger] self.controller.queue[j]).buffer
        &&& forall|i: int, j: int|
            0 <= i < descriptors.len() && 0 <= j < self.controller.pending.len() ==> (
            #[trigger] descriptors[i]).buffer != (#[trigger] self.controller.pending[j]).buffer
    }

    /// Whether a request waits for each of these descriptors.
    pub open spec fn awaited(self, descriptors: Seq<PullIntoDescriptor>) -> bool {
        ||| descriptors.len() == 0
        ||| {
            &&& descriptors.len() <= self.slots.requests().len()
            &&& forall|i: int|
                0 <= i < descriptors.len() ==> (#[trigger] descriptors[i]).reader_type is Default
        }
        ||| {
            &&& descriptors.len() <= self.slots.into_requests().len()
            &&& forall|i: int|
                0 <= i < descriptors.len() ==> (#[trigger] descriptors[i]).reader_type is Byob
        }
    }

    /// Whether a descriptor that is not among the pending ones can be filled.
    pub open spec fn can_fill(self, descriptor: PullIntoDescriptor) -> bool {
        &&& self.controller.total == queue_sum(self.controller.queue)
        &&& descriptor_ok(self.scope.heap, descriptor)
        &&& live(self.scope.heap, descriptor.buffer)
        &&& forall|i: int|
            0 <= i < self.controller.queue.len() ==> entry_ok(
                self.scope.heap,
                #[trigger] self.controller.queue[i],
            ) && self.controller.queue[i].buffer != descriptor.buffer
    }

    pub open spec fn with_slots(self, slots: SlotsModel) -> ByteWorld {
        ByteWorld { slots, ..self }
    }

    pub open spec fn with_controller(self, controller: ByteControllerModel) -> ByteWorld {
        ByteWorld { controller, ..self }
    }

    pub open spec fn with_heap(self, heap: Heap) -> ByteWorld {
        ByteWorld { scope: self.scope.with_heap(heap), ..self }
    }

    pub open spec fn emit(self, effect: Effect) -> ByteWorld {
        ByteWorld { scope: self.scope.emit(effect), ..self }
    }

    pub open spec fn emit_all(self, effects: Seq<Effect>) -> ByteWorld {
        ByteWorld { scope: self.scope.emit_all(effects), ..self }
    }

    /// Asks the source for more, where it should be; one call at a time.
    pub open spec fn call_pull(self) -> ByteWorld {
        if !byte_should_pull(self.slots, self.controller) {
            self
        } else if self.controller.pulling {
            self.with_controller(ByteControllerModel { pull_again: true, ..self.controller })
        } else {
            self.with_controller(ByteControllerModel { pulling: true, ..self.controller }).emit(
                Effect::Invoke {
                    call: Call::ReadablePull { stream: self.slots.id },
                    algorithm: self.controller.pull_algorithm,
                    receiver: self.controller.receiver,
                },
            )
        }
    }

    /// The stream closed for good.
    pub open spec fn close_now(self) -> ByteWorld {
        ByteWorld {
            slots: self.slots.closed(),
            controller: self.controller.cleared_algorithms(),
            scope: self.scope.emit_all(self.slots.on_close()),
        }
    }

    /// The BYOB request, if there is one, loses its view.
    pub open spec fn invalidated(self) -> ByteWorld {
        if self.controller.byob_request is Some {
            self.with_controller(ByteControllerModel { byob_request: None, ..self.controller }).emit(
                Effect::InvalidateByobRequest { stream: self.slots.id },
            )
        } else {
            self
        }
    }

    pub open spec fn cleared_pending(self) -> ByteWorld {
        let w = self.invalidated();
        w.with_controller(ByteControllerModel { pending: Seq::empty(), ..w.controller })
    }

    /// The stream failed with `error`, unless it is past that.
    pub open spec fn errored(self, error: Value) -> ByteWorld {
        if self.slots.state !is Readable {
            self
        } else {
            let w = self.cleared_pending();
            ByteWorld {
                slots: w.slots.errored(error),
                controller: w.controller.reset_queue().cleared_algorithms(),
                scope: w.scope.emit_all(w.slots.on_error(error)),
            }
        }
    }

    /// Closes the stream, at once or once its queue has been read; a half-filled
    /// element fails it.
    pub open spec fn close(self) -> (ByteWorld, Result<(), Value>) {
        if self.controller.close_requested || self.slots.state !is Readable {
            (self, Ok(()))
        } else if self.controller.total > 0 {
            (
                self.with_controller(
                    ByteControllerModel { close_requested: true, ..self.controller },
                ),
                Ok(()),
            )
        } else if self.controller.pending.len() > 0
            && self.controller.pending[0].bytes_filled as int
            % self.controller.pending[0].element_size as int != 0 {
            let error = Value::TypeError(Message::InsufficientBytesPending);
            (self.errored(error), Err(error))
        } else {
            (self.close_now(), Ok(()))
        }
    }

    /// After bytes have left the queue: the stream closes if they were the last ones
    /// before a requested close, and asks for more otherwise.
    pub open spec fn queue_drained(self) -> ByteWorld {
        if self.controller.total == 0 && self.controller.close_requested {
            self.close_now()
        } else {
            self.call_pull()
        }
    }

    /// A read request answered with the first entry of the queue.
    pub open spec fn fill_read_request(self, request: ReadRequest) -> ByteWorld {
        let entry = self.controller.queue[0];
        self.with_controller(
            ByteControllerModel {
                queue: self.controller.queue.drop_first(),
                total: (self.controller.total - entry.byte_length) as u128,
                ..self.controller
            },
        ).queue_drained().emit(
            chunk_effect(
                request,
                byte_view(entry.buffer, entry.byte_offset, entry.byte_length),
            ),
        )
    }

    /// A descriptor filled from the queue: the queue and the store after that.
    pub open spec fn fill(self, descriptor: PullIntoDescriptor) -> ByteWorld {
        let count = fill_count(self.controller.total, descriptor);
        self.with_controller(
            ByteControllerModel {
                queue: drop_bytes(self.controller.queue, count),
                total: (self.controller.total - count) as u128,
                ..self.controller
            },
        ).with_heap(
            put_bytes(
                self.scope.heap,
                descriptor,
                queue_bytes(self.scope.heap, self.controller.queue).take(count as int),
            ),
        )
    }

    /// The pending descriptors filled from the queue, in order, as far as it lasts:
    /// the world after that, and the descriptors that are ready to be handed over.
    pub open spec fn process_pull_intos(self) -> (ByteWorld, Seq<PullIntoDescriptor>)
        decreases self.controller.pending.len(),
    {
        if self.controller.pending.len() == 0 || self.controller.total == 0 {
            (self, Seq::empty())
        } else {
            let head = self.controller.pending[0];
            let filled = filled_from_queue(self.controller.total, head);
            let w = self.fill(head);
            if fill_ready(self.controller.total, head) {
                let (rest, ready) = w.with_controller(w.controller.shifted()).process_pull_intos();
                (rest, seq![filled] + ready)
            } else {
                (w.with_controller(w.controller.with_head(filled)), Seq::empty())
            }
        }
    }

    /// A filled descriptor handed to the reader that waits for it.
    pub open spec fn commit(self, descriptor: PullIntoDescriptor) -> ByteWorld {
        let chunk = Value::Bytes(filled_view(descriptor, self.scope.heap.len() as usize));
        let done = self.slots.state is Closed;
        let w = self.with_heap(transferred(self.scope.heap, descriptor.buffer));
        if descriptor.reader_type is Default {
            let request = self.slots.requests()[0];
            w.with_slots(self.slots.without_first_request()).emit(
                if done {
                    close_effect(request)
                } else {
                    chunk_effect(request, chunk)
                },
            )
        } else {
            let request = self.slots.into_requests()[0];
            w.with_slots(self.slots.without_first_into_request()).emit(
                if done {
                    into_close_effect(request, chunk)
                } else {
                    into_chunk_effect(request, chunk)
                },
            )
        }
    }

    /// Filled descriptors handed over in order.
    pub open spec fn commit_all(self, descriptors: Seq<PullIntoDescriptor>) -> ByteWorld
        decreases descriptors.len(),
    {
        if descriptors.len() == 0 {
            self
        } else {
            self.commit(descriptors[0]).commit_all(descriptors.drop_first())
        }
    }

    /// A copy of a region put at the end of the queue; where no copy can be made, the
    /// stream fails.
    pub open spec fn enqueue_cloned(
        self,
        buffer: usize,
        byte_offset: usize,
        byte_length: usize,
    ) -> (ByteWorld, Result<(), Value>) {
        if can_clone(self.scope, buffer, byte_length as nat) {
            let data = self.scope.heap[buffer as int].data.subrange(
                byte_offset as int,
                byte_offset + byte_length,
            );
            let place = self.scope.heap.len() as usize;
            (
                self.with_heap(self.scope.heap.push(fresh_buffer(data))).with_controller(
                    self.controller.with_entry(place, 0, byte_length),
                ),
                Ok(()),
            )
        } else {
            let error = clone_error(self.scope, buffer);
            (self.errored(error), Err(error))
        }
    }

    /// What a released reader left in the first descriptor put back into the queue.
    pub open spec fn enqueue_detached(self) -> (ByteWorld, Result<(), Value>) {
        let head = self.controller.pending[0];
        let (w, result) = if head.bytes_filled > 0 {
            self.enqueue_cloned(head.buffer, head.byte_offset, head.bytes_filled)
        } else {
            (self, Ok(()))
        };
        if result is Err {
            (w, result)
        } else {
            (w.with_controller(w.controller.shifted()), Ok(()))
        }
    }

    /// The first of the read requests that wait answered from the queue, and whether there
    /// was one and the queue had bytes for it.
    pub open spec fn process_read_request(self) -> (ByteWorld, bool) {
        if self.slots.requests().len() == 0 || self.controller.total == 0 {
            (self, false)
        } else {
            (
                self.with_slots(self.slots.without_first_request()).fill_read_request(
                    self.slots.requests()[0],
                ),
                true,
            )
        }
    }

    /// A chunk for a default reader. A read request that the queue can answer comes first, and
    /// what its source does on that account comes before the rest, which is then left for
    /// later; the second part of the result tells whether it is.
    pub open spec fn give_chunk(
        self,
        buffer: usize,
        byte_offset: usize,
        byte_length: usize,
    ) -> (ByteWorld, bool) {
        let (w, answered) = self.process_read_request();
        let view = ArrayBufferView { kind: ViewKind::Uint8, buffer, byte_offset, byte_length };
        if answered {
            (w.emit(Effect::EnqueueRest { stream: w.slots.id, view }), true)
        } else if w.slots.requests().len() == 0 {
            (w.with_controller(w.controller.with_entry(buffer, byte_offset, byte_length)), false)
        } else {
            let controller = if w.controller.pending.len() > 0 {
                w.controller.shifted()
            } else {
                w.controller
            };
            (
                w.with_controller(controller).with_slots(w.slots.without_first_request()).emit(
                    chunk_effect(w.slots.requests()[0], Value::Bytes(view)),
                ),
                false,
            )
        }
    }

    /// A chunk that arrives with its bytes in `buffer`, which is the stream's own by now:
    /// it goes to the first reader that waits, or into the queue. The second part of the
    /// result tells whether that is left for later.
    pub open spec fn take_chunk(
        self,
        buffer: usize,
        byte_offset: usize,
        byte_length: usize,
    ) -> (ByteWorld, bool) {
        match self.slots.reader {
            ReaderModel::Default(_) => self.give_chunk(buffer, byte_offset, byte_length),
            ReaderModel::Byob(_) => {
                let (w, ready) = self.with_controller(
                    self.controller.with_entry(buffer, byte_offset, byte_length),
                ).process_pull_intos();
                (w.commit_all(ready), false)
            },
            ReaderModel::Unlocked => (
                self.with_controller(
                    self.controller.with_entry(buffer, byte_offset, byte_length),
                ),
                false,
            ),
        }
    }

    /// A chunk taken, and the source asked for more, unless that is left for later.
    pub open spec fn take_chunk_and_pull(
        self,
        buffer: usize,
        byte_offset: usize,
        byte_length: usize,
    ) -> ByteWorld {
        let (w, later) = self.take_chunk(buffer, byte_offset, byte_length);
        if later {
            w
        } else {
            w.call_pull()
        }
    }

    /// What was left for later of a chunk that the source enqueued: the next read request
    /// that the queue can answer, or the chunk itself.
    pub open spec fn enqueue_rest(self, chunk: ArrayBufferView) -> ByteWorld {
        self.take_chunk_and_pull(chunk.buffer, chunk.byte_offset, chunk.byte_length)
    }

    /// The first descriptor's buffer moved out of the reach of the source.
    pub open spec fn retake_head(self) -> ByteWorld {
        let w = self.invalidated();
        let head = w.controller.pending[0];
        w.with_heap(transferred(w.scope.heap, head.buffer)).with_controller(
            w.controller.with_head(
                PullIntoDescriptor { buffer: w.scope.heap.len() as usize, ..head },
            ),
        )
    }

    /// The first descriptor, if there is one, made ready for a chunk that does not come by
    /// way of it: its buffer is taken back, and where its reader is gone, so is it.
    pub open spec fn prepare_head(self) -> (ByteWorld, Result<(), Value>) {
        if self.controller.pending.len() == 0 {
            (self, Ok(()))
        } else if !live(self.scope.heap, self.controller.pending[0].buffer) {
            (self, Err(Value::TypeError(Message::PendingPullIntoDetached)))
        } else if self.controller.pending[0].reader_type is Released {
            self.retake_head().enqueue_detached()
        } else {
            (self.retake_head(), Ok(()))
        }
    }

    /// A chunk enqueued by the source.
    pub open spec fn enqueue(self, chunk: ArrayBufferView) -> (ByteWorld, Result<(), Value>) {
        if self.controller.close_requested || self.slots.state !is Readable {
            (self, Ok(()))
        } else if !live(self.scope.heap, chunk.buffer) {
            (self, Err(Value::TypeError(Message::EnqueueDetached)))
        } else if !can_transfer(self.scope.heap, chunk.buffer) {
            (self, Err(transfer_error(self.scope.heap, chunk.buffer)))
        } else {
            let buffer = self.scope.heap.len() as usize;
            let w = self.with_heap(transferred(self.scope.heap, chunk.buffer));
            let (after, result) = w.prepare_head();
            if result is Err {
                (after, result)
            } else {
                (
                    after.take_chunk_and_pull(buffer, chunk.byte_offset, chunk.byte_length),
                    Ok(()),
                )
            }
        }
    }

    /// The descriptor for a read into `view`, whose buffer has moved to `buffer`.
    pub open spec fn into_descriptor(
        self,
        view: ArrayBufferView,
        min: usize,
    ) -> PullIntoDescriptor {
        PullIntoDescriptor {
            buffer: self.scope.heap.len() as usize,
            buffer_byte_length: self.scope.heap[view.buffer as int].data.len() as usize,
            byte_offset: view.byte_offset,
            byte_length: view.byte_length,
            bytes_filled: 0,
            minimum_fill: (min * view.kind.size()) as usize,
            element_size: view.kind.size() as usize,
            view_kind: view.kind,
            reader_type: ReaderType::Byob,
        }
    }

    /// A descriptor at the end of the list, and a read-into request that waits for it.
    pub open spec fn wait_into(
        self,
        descriptor: PullIntoDescriptor,
        request: ReadIntoRequest,
    ) -> ByteWorld {
        self.with_controller(self.controller.with_pending(descriptor)).with_slots(
            self.slots.with_into_request(request),
        )
    }

    /// A read into a view, answered from the queue where that is enough.
    pub open spec fn pull_into(
        self,
        view: ArrayBufferView,
        min: usize,
        request: ReadIntoRequest,
    ) -> ByteWorld {
        if !can_transfer(self.scope.heap, view.buffer) {
            self.emit(into_error_effect(request, transfer_error(self.scope.heap, view.buffer)))
        } else {
            let descriptor = self.into_descriptor(view, min);
            let w = self.with_heap(transferred(self.scope.heap, view.buffer));
            if w.controller.pending.len() > 0 {
                w.wait_into(descriptor, request)
            } else if w.slots.state is Closed {
                w.emit(into_close_effect(request, Value::Bytes(filled_view(
                    descriptor,
                    descriptor.buffer,
                ))))
            } else if w.controller.total == 0 {
                w.wait_into(descriptor, request).call_pull()
            } else {
                let filled = filled_from_queue(w.controller.total, descriptor);
                let after = w.fill(descriptor);
                if fill_ready(w.controller.total, descriptor) {
                    after.with_heap(
                        transferred(after.scope.heap, filled.buffer),
                    ).queue_drained().emit(
                        into_chunk_effect(
                            request,
                            Value::Bytes(filled_view(filled, after.scope.heap.len() as usize)),
                        ),
                    )
                } else if w.controller.close_requested {
                    let error = Value::TypeError(Message::InsufficientBytesRequested);
                    after.errored(error).emit(into_error_effect(request, error))
                } else {
                    after.wait_into(filled, request).call_pull()
                }
            }
        }
    }

    /// The first descriptor, with its buffer moved from `buffer`.
    pub open spec fn move_head(self, buffer: usize) -> ByteWorld {
        let head = self.controller.pending[0];
        self.with_heap(transferred(self.scope.heap, buffer)).with_controller(
            self.controller.with_head(
                PullIntoDescriptor { buffer: self.scope.heap.len() as usize, ..head },
            ),
        )
    }

    /// An answer of the source that it wrote `count` bytes into the first descriptor.
    pub open spec fn respond(self, count: u64) -> (ByteWorld, Result<(), Value>) {
        let head = self.controller.pending[0];
        if self.slots.state is Closed && count != 0 {
            (self, Err(Value::TypeError(Message::BytesWrittenNonZeroClosed)))
        } else if self.slots.state !is Closed && count == 0 {
            (self, Err(Value::TypeError(Message::BytesWrittenZeroReadable)))
        } else if self.slots.state !is Closed && count > head.byte_length - head.bytes_filled {
            (self, Err(Value::RangeError(Message::BytesWrittenTooLarge)))
        } else if !can_transfer(self.scope.heap, head.buffer) {
            (self, Err(transfer_error(self.scope.heap, head.buffer)))
        } else {
            self.move_head(head.buffer).respond_internal(count as usize)
        }
    }

    /// An answer of the source with a view onto the bytes it wrote.
    pub open spec fn respond_with_new_view(
        self,
        view: ArrayBufferView,
    ) -> (ByteWorld, Result<(), Value>) {
        let head = self.controller.pending[0];
        if self.slots.state is Closed && view.byte_length != 0 {
            (self, Err(Value::TypeError(Message::ViewNonEmptyClosed)))
        } else if self.slots.state !is Closed && view.byte_length == 0 {
            (self, Err(Value::TypeError(Message::ViewEmptyReadable)))
        } else if head.byte_offset + head.bytes_filled != view.byte_offset {
            (self, Err(Value::RangeError(Message::ViewOffsetMismatch)))
        } else if head.buffer_byte_length != byte_length_of(self.scope.heap, view.buffer) {
            (self, Err(Value::RangeError(Message::ViewBufferLengthMismatch)))
        } else if head.bytes_filled + view.byte_length > head.byte_length {
            (self, Err(Value::RangeError(Message::ViewTooLong)))
        } else if !can_transfer(self.scope.heap, view.buffer) {
            (self, Err(transfer_error(self.scope.heap, view.buffer)))
        } else {
            self.move_head(view.buffer).respond_internal(view.byte_length)
        }
    }

    /// An answer of the source that passed the checks.
    pub open spec fn respond_internal(self, count: usize) -> (ByteWorld, Result<(), Value>) {
        let w = self.invalidated();
        let (after, result) = if w.slots.state is Closed {
            (w.respond_closed(), Ok(()))
        } else {
            w.respond_readable(count)
        };
        if result is Err {
            (after, result)
        } else {
            (after.call_pull(), Ok(()))
        }
    }

    /// The source is done with the views of a closed stream: they are handed back.
    pub open spec fn respond_closed(self) -> ByteWorld {
        let w = if self.controller.pending[0].reader_type is Released {
            self.with_controller(self.controller.shifted())
        } else {
            self
        };
        let count = w.slots.into_requests().len() as int;
        if w.slots.reader is Byob {
            w.with_controller(
                ByteControllerModel {
                    pending: w.controller.pending.skip(count),
                    ..w.controller
                },
            ).commit_all(w.controller.pending.take(count))
        } else {
            w
        }
    }

    /// Descriptors filled from the queue and handed over, after the given ones.
    pub open spec fn process_and_commit(self, first: Seq<PullIntoDescriptor>) -> ByteWorld {
        let (w, ready) = self.process_pull_intos();
        w.commit_all(first + ready)
    }

    /// The source wrote `count` bytes into the first descriptor of a stream that is not
    /// closed.
    pub open spec fn respond_readable(self, count: usize) -> (ByteWorld, Result<(), Value>) {
        let head = self.controller.pending[0];
        let filled = PullIntoDescriptor {
            bytes_filled: (head.bytes_filled + count) as usize,
            ..head
        };
        let rest = self.with_controller(self.controller.shifted());
        let remainder = filled.bytes_filled % filled.element_size;
        if filled.reader_type is Released {
            let (w, result) = self.with_controller(
                self.controller.with_head(filled),
            ).enqueue_detached();
            if result is Err {
                (w, result)
            } else {
                (w.process_and_commit(Seq::empty()), Ok(()))
            }
        } else if filled.bytes_filled < filled.minimum_fill {
            (self.with_controller(self.controller.with_head(filled)), Ok(()))
        } else {
            let (w, result) = if remainder > 0 {
                rest.enqueue_cloned(
                    filled.buffer,
                    (filled.byte_offset + filled.bytes_filled - remainder) as usize,
                    remainder,
                )
            } else {
                (rest, Ok(()))
            };
            let whole = PullIntoDescriptor {
                bytes_filled: (filled.bytes_filled - remainder) as usize,
                ..filled
            };
            if result is Err {
                (w, result)
            } else {
                (w.process_and_commit(seq![whole]), Ok(()))
            }
        }
    }

    /// The descriptor of a buffer that is allocated for a default reader.
    pub open spec fn auto_descriptor(self, size: usize) -> PullIntoDescriptor {
        PullIntoDescriptor {
            buffer: self.scope.heap.len() as usize,
            buffer_byte_length: size,
            byte_offset: 0,
            byte_length: size,
            bytes_filled: 0,
            minimum_fill: 1,
            element_size: 1,
            view_kind: ViewKind::Uint8,
            reader_type: ReaderType::Default,
        }
    }

    /// A read by a default reader.
    pub open spec fn pull_steps(self, request: ReadRequest) -> ByteWorld {
        if self.controller.total > 0 {
            self.fill_read_request(request)
        } else {
            match self.controller.auto_allocate_chunk_size {
                None => self.with_slots(self.slots.with_request(request)).call_pull(),
                Some(size) => if size > self.scope.limit {
                    self.emit(error_effect(request, Value::RangeError(Message::BufferTooLong)))
                } else {
                    let zeros = Seq::new(size as nat, |i: int| 0u8);
                    self.with_heap(self.scope.heap.push(fresh_buffer(zeros))).with_controller(
                        self.controller.with_pending(self.auto_descriptor(size)),
                    ).with_slots(self.slots.with_request(request)).call_pull()
                },
            }
        }
    }

    /// What the controller does when its stream is canceled.
    pub open spec fn cancel_steps(self, reason: Value, result: PromiseRef) -> ByteWorld {
        let w = self.cleared_pending();
        w.with_controller(w.controller.reset_queue().cleared_algorithms()).emit(
            Effect::Invoke {
                call: Call::ReadableCancel { stream: self.slots.id, reason, result },
                algorithm: self.controller.cancel_algorithm,
                receiver: self.controller.receiver,
            },
        )
    }

    /// The BYOB request for the first descriptor, made if it is asked for.
    pub open spec fn with_byob_request(self) -> ByteWorld {
        if self.controller.byob_request is None && self.controller.pending.len() > 0 {
            self.with_controller(
                ByteControllerModel {
                    byob_request: Some(request_for(self.slots.id, self.controller.pending[0])),
                    ..self.controller
                },
            )
        } else {
            self
        }
    }

    /// The source has started.
    pub open spec fn start_fulfilled(self) -> ByteWorld {
        self.with_controller(ByteControllerModel { started: true, ..self.controller }).call_pull()
    }

    /// A pull has come to its end; another one follows if it was asked for meanwhile.
    pub open spec fn pull_fulfilled(self) -> ByteWorld {
        if self.controller.pull_again {
            self.with_controller(
                ByteControllerModel { pulling: false, pull_again: false, ..self.controller },
            ).call_pull()
        } else {
            self.with_controller(ByteControllerModel { pulling: false, ..self.controller })
        }
    }
}

impl ByteControllerModel {
    /// What the controller does when the reader of its stream is released: the first
    /// descriptor stays, for no reader.
    pub open spec fn released(self) -> ByteControllerModel {
        if self.pending.len() > 0 {
            ByteControllerModel {
                pending: seq![
                    PullIntoDescriptor { reader_type: ReaderType::Released, ..self.pending[0] },
                ],
                ..self
            }
        } else {
            self
        }
    }
}

} // verus!
