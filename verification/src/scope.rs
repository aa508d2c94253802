//! What the streams ask of the runtime that embeds them.
//!
//! The operations on streams run no code but their own. What else has to happen
//! (settling a promise, calling an algorithm of the author, queueing a
//! microtask) is noted in a [`Scope`] as an [`Effect`]. The runtime carries the
//! effects out in the order in which they were noted, and hands back what comes
//! of them by calling the operation that the effect names. It carries out the
//! effects of one operation before it starts the next, unless an algorithm that
//! it calls on that account starts one itself.

use vstd::prelude::*;

use crate::buffer::{
    byte_length_of, can_transfer, copied, fresh_buffer, heap_of, live, spliced, transferred,
    view_length_of, ArrayBuffer, ArrayBufferView, Heap,
};
use crate::readable::read_request::{ReadIntoRequest, ReadRequest};
use crate::value::{Message, Value};

verus! {

/// One of the two branches of a tee.
#[derive(Clone, Copy, Debug, PartialEq, Eq, Structural)]
pub enum Branch {
    One,
    Two,
}

/// An algorithm that a controller keeps.
#[derive(Clone, Copy, Debug, PartialEq, Eq, Structural)]
pub enum Algorithm {
    /// No algorithm: calling it gives `undefined`.
    Undefined,
    /// The algorithm that returns one.
    One,
    /// A function of the author, by its handle.
    Callback(u64),
    /// The pull algorithm of both branches of a tee.
    TeePull(u64),
    /// The cancel algorithm of a branch of a tee.
    TeeCancel(u64, Branch),
    /// The pull algorithm of a branch of a tee of a byte stream.
    ByteTeePull(u64, Branch),
    /// The cancel algorithm of a branch of a tee of a byte stream.
    ByteTeeCancel(u64, Branch),
    /// The pull algorithm of a stream that is made from an iterable.
    FromPull(u64),
    /// The cancel algorithm of a stream that is made from an iterable.
    FromCancel(u64),
    /// The start algorithm of both sides of a transform stream.
    TransformStart(u64),
    /// The write algorithm of the writable side of a transform stream.
    SinkWrite(u64),
    /// The close algorithm of the writable side of a transform stream.
    SinkClose(u64),
    /// The abort algorithm of the writable side of a transform stream.
    SinkAbort(u64),
    /// The pull algorithm of the readable side of a transform stream.
    SourcePull(u64),
    /// The cancel algorithm of the readable side of a transform stream.
    SourceCancel(u64),
    /// The transform algorithm that hands each chunk on unchanged, by
    /// `transform_stream_default_controller_enqueue`.
    Identity(u64),
}

/// A promise that a stream settles.
///
/// Most are slots of a stream, named by the stream's identifier: a slot holds
/// one promise at a time, and [`Effect::NewPromise`] puts a new one in it.
#[derive(Clone, Copy, Debug, PartialEq, Eq, Structural)]
pub enum PromiseRef {
    /// The promise that the caller of an operation was given, by its handle.
    Request(u64),
    /// The `closed` promise of the reader of a stream.
    ReaderClosed(u64),
    /// The `closed` promise of the writer of a stream.
    WriterClosed(u64),
    /// The `ready` promise of the writer of a stream.
    WriterReady(u64),
    /// The promise for the next change of a transform stream's backpressure.
    BackpressureChange(u64),
    /// The promise for the end of a transform stream.
    Finish(u64),
    /// The promise for the start of a transform stream.
    TransformStart(u64),
    /// The promise for the cancelation of both branches of a tee.
    TeeCancel(u64),
    /// The promise for the end of a pipe.
    Pipe(u64),
    /// The promise for what a pipe does to its destination when it ends.
    PipeAction(u64),
    /// The promise for the cancelation of the source of a pipe.
    PipeCancel(u64),
}

/// A call of an algorithm, with its arguments.
///
/// The variant tells which operation takes the outcome.
#[derive(Debug, PartialEq, Eq)]
pub enum Call {
    /// `start(controller)`; `start_promise_fulfilled` or `start_promise_rejected`
    /// takes the outcome. What it throws at once, the constructor throws.
    ReadableStart { stream: u64 },
    /// `pull(controller)`; `pull_promise_fulfilled` or `pull_promise_rejected`
    /// takes the outcome.
    ReadablePull { stream: u64 },
    /// `cancel(reason)`; once it fulfills, `result` is resolved with `undefined`,
    /// and where it rejects, so does `result`.
    ReadableCancel { stream: u64, reason: Value, result: PromiseRef },
    /// `start(controller)`; `ws_start_promise_fulfilled` or `ws_start_promise_rejected`
    /// takes the outcome. What it throws at once, the constructor throws.
    WritableStart { stream: u64 },
    /// `write(chunk, controller)`; `ws_write_promise_fulfilled` or
    /// `ws_write_promise_rejected` takes the outcome.
    WritableWrite { stream: u64, chunk: Value },
    /// `close()`; `ws_close_promise_fulfilled` or `ws_close_promise_rejected` takes the
    /// outcome.
    WritableClose { stream: u64 },
    /// `abort(reason)`; `ws_abort_promise_fulfilled` or `ws_abort_promise_rejected` takes
    /// the outcome, with the promise of the abort.
    WritableAbort { stream: u64, reason: Value, promise: PromiseRef },
    /// `start(controller)`; the promise for the start of the transform stream is resolved
    /// with what it returns. What it throws at once, the constructor throws.
    TransformStart { transform: u64 },
    /// `transform(chunk, controller)`; once it fulfills, the promise `outcome` is resolved
    /// with `undefined`, and where it rejects, `ts_perform_transform_rejected` takes the
    /// reason.
    Transform { transform: u64, chunk: Value, outcome: u64 },
    /// `flush(controller)`; `ts_sink_close_fulfilled` or `ts_sink_close_rejected` takes the
    /// outcome.
    TransformFlush { transform: u64 },
    /// `cancel(reason)`; `ts_sink_abort_fulfilled` or `ts_sink_abort_rejected` takes the
    /// outcome.
    TransformAbort { transform: u64, reason: Value },
    /// `cancel(reason)`; `ts_source_cancel_fulfilled` or `ts_source_cancel_rejected` takes
    /// the outcome.
    TransformCancel { transform: u64, reason: Value },
}

/// What a read comes to.
#[derive(Debug, PartialEq, Eq)]
pub enum ReadOutcome {
    Chunk(Value),
    Close(Value),
    Error(Value),
}

/// An operation that the runtime is to run in a microtask of its own.
#[derive(Clone, Copy, Debug, PartialEq, Eq, Structural)]
pub enum Microtask {
    /// `tee_chunk_microtask`.
    TeeChunk { tee: u64 },
    /// `byte_tee_default_microtask`.
    ByteTeeDefault { tee: u64 },
    /// `byte_tee_byob_microtask`.
    ByteTeeByob { tee: u64 },
    /// `pipe_deferred_write`.
    PipeWrite { pipe: u64 },
    /// `pipe_shutdown_proceed_deferred`.
    PipeShutdown { pipe: u64 },
    /// `read_next`.
    ReadNext { consumer: u64 },
}

/// An operation that the runtime is to run when a promise settles in a certain way.
#[derive(Clone, Copy, Debug, PartialEq, Eq, Structural)]
pub enum Reaction {
    /// `tee_closed_rejected`, with the reason.
    TeeClosedRejected { tee: u64 },
    /// `byte_tee_forward_rejected`, with the reader whose promise it was and the reason.
    ByteTeeForward { tee: u64, reader: u64 },
    /// `pipe_fwd_error`, with the reason.
    PipeForwardError { pipe: u64 },
    /// `pipe_bwd_error`, with the reason.
    PipeBackwardError { pipe: u64 },
    /// `pipe_fwd_close`.
    PipeForwardClose { pipe: u64 },
    /// `pipe_ready_fulfilled`.
    PipeReady { pipe: u64 },
    /// `pipe_write_settled`.
    PipeWritten { pipe: u64 },
    /// `pipe_action_fulfilled` or `pipe_action_rejected`.
    PipeAction { pipe: u64 },
    /// `next_fulfilled` or `next_rejected`, with the promise of the caller of `next`.
    IteratorNext { iterator: u64, promise: u64 },
}

/// Something that the runtime is to do.
#[derive(Debug, PartialEq, Eq)]
pub enum Effect {
    /// Put a new pending promise in a slot.
    NewPromise(PromiseRef),
    Resolve(PromiseRef, Value),
    Reject(PromiseRef, Value),
    /// Resolve the first promise with the second, so that it settles as that one does.
    Adopt(PromiseRef, PromiseRef),
    /// Count a rejection of the promise as handled.
    MarkHandled(PromiseRef),
    /// Run an operation in a microtask.
    Queue(Microtask),
    /// Run an operation when the promise is rejected.
    OnRejected(PromiseRef, Reaction),
    /// Run an operation when the promise is fulfilled; a rejection counts as handled.
    OnFulfilled(PromiseRef, Reaction),
    /// Run an operation when the promise is settled, either way.
    OnSettled(PromiseRef, Reaction),
    /// Run an operation when both promises are fulfilled, or when one is rejected. One that
    /// is missing counts as fulfilled.
    OnBothSettled(Option<PromiseRef>, Option<PromiseRef>, Reaction),
    /// Once the second promise is fulfilled, resolve the first with the value; where it is
    /// rejected, so is the first.
    ResolveAfter(PromiseRef, PromiseRef, Value),
    /// Run `run_next_steps` when the call of an iterator that is under way has settled.
    NextAfter { ongoing: PromiseRef, iterator: u64, promise: u64 },
    /// Run `run_return_steps` when the call of an iterator that is under way has settled.
    ReturnAfter { ongoing: PromiseRef, iterator: u64, value: Value, promise: u64 },
    /// Run `enqueue_rest` of a byte stream, once the effects so far have been carried out.
    EnqueueRest { stream: u64, view: ArrayBufferView },
    /// Release the reader of a stream, by `readable_stream_reader_generic_release`, once the
    /// effects so far have been carried out.
    ReleaseReader { stream: u64 },
    /// Run `tee_chunk_done`, once the effects so far have been carried out.
    TeeChunkDone { tee: u64 },
    /// Run `byte_tee_chunk_done`, once the effects so far have been carried out.
    ByteTeeChunkDone { tee: u64 },
    /// Call an algorithm with `receiver` as its `this`.
    Invoke { call: Call, algorithm: Algorithm, receiver: Value },
    /// Take its view away from the BYOB request of a stream.
    InvalidateByobRequest { stream: u64 },
    /// Signal abort on the abort controller of a writable stream.
    SignalAbort { stream: u64, reason: Value },
    /// Run `pipe_abort_signaled`, once the effects so far have been carried out.
    PipeAbortSignaled { pipe: u64 },
    /// Run `pipe_cancel_source`, once the effects so far have been carried out; `aborted` is
    /// the promise for the abort of the destination.
    PipeCancelSource { pipe: u64, aborted: PromiseRef },
    /// Have `pipe_abort_algorithm` run when a signal is aborted.
    AddAbortAlgorithm { signal: u64, pipe: u64 },
    /// Have it run no longer.
    RemoveAbortAlgorithm { signal: u64, pipe: u64 },
    /// Record a native source behind the readable side of a transform stream, by
    /// `set_native_source`.
    PassNativeSource { transform: u64, source: u64 },
    /// Let go of the algorithms of a writable stream, by
    /// `writable_stream_default_controller_clear_algorithms`.
    ClearAlgorithms { stream: u64 },
    /// Let go of the algorithms of a transform stream, by
    /// `transform_stream_default_controller_clear_algorithms`.
    ClearTransform { transform: u64 },
    /// Run `ts_sink_write_after_backpressure` when a promise is fulfilled.
    WriteAfter { change: PromiseRef, transform: u64, chunk: Value, promise: u64 },
    /// Run the steps of a read request whose consumer is part of this library.
    ReadSteps(ReadRequest, ReadOutcome),
    /// Run the steps of a read-into request whose consumer is part of this library.
    ReadIntoSteps(ReadIntoRequest, ReadOutcome),
}

/// The effects noted so far, and the store of array buffers.
pub struct Scope {
    pub effects: Vec<Effect>,
    pub buffers: Vec<ArrayBuffer>,
    /// The length of the longest buffer that can be allocated.
    pub allocation_limit: usize,
}

/// What there is to know of a scope.
#[verifier::ext_equal]
pub struct ScopeModel {
    pub effects: Seq<Effect>,
    pub heap: Heap,
    pub limit: usize,
}

impl View for Scope {
    type V = ScopeModel;

    open spec fn view(&self) -> ScopeModel {
        ScopeModel {
            effects: self.effects@,
            heap: heap_of(self.buffers@),
            limit: self.allocation_limit,
        }
    }
}

impl ScopeModel {
    /// The scope after one more effect.
    pub open spec fn emit(self, effect: Effect) -> ScopeModel {
        ScopeModel { effects: self.effects.push(effect), ..self }
    }

    /// The scope after some more effects.
    pub open spec fn emit_all(self, effects: Seq<Effect>) -> ScopeModel {
        ScopeModel { effects: self.effects + effects, ..self }
    }

    /// The scope with another store.
    pub open spec fn with_heap(self, heap: Heap) -> ScopeModel {
        ScopeModel { heap, ..self }
    }
}

/// Whether taking over the bytes of a buffer succeeds, and why not.
pub open spec fn transfer_error(heap: Heap, buffer: usize) -> Value {
    if !live(heap, buffer) {
        Value::TypeError(Message::BufferDetached)
    } else {
        Value::TypeError(Message::BufferNotDetachable)
    }
}

/// Whether a copy of a region of a buffer can be made.
pub open spec fn can_clone(scope: ScopeModel, buffer: usize, count: nat) -> bool {
    live(scope.heap, buffer) && count <= scope.limit
}

pub open spec fn clone_error(scope: ScopeModel, buffer: usize) -> Value {
    if !live(scope.heap, buffer) {
        Value::TypeError(Message::BufferDetached)
    } else {
        Value::RangeError(Message::BufferTooLong)
    }
}

impl Scope {
    /// A scope without effects and buffers.
    pub fn new(allocation_limit: usize) -> (scope: Scope)
        ensures
            scope@ == (ScopeModel {
                effects: Seq::empty(),
                heap: Seq::empty(),
                limit: allocation_limit,
            }),
    {
        Scope { effects: Vec::new(), buffers: Vec::new(), allocation_limit }
    }

    /// Notes an effect.
    pub fn emit(&mut self, effect: Effect)
        ensures
            final(self)@ == old(self)@.emit(effect),
    {
        self.effects.push(effect);
    }

    pub fn is_detached(&self, buffer: usize) -> (detached: bool)
        ensures
            detached == !live(self@.heap, buffer),
    {
        if buffer < self.buffers.len() {
            self.buffers[buffer].detached
        } else {
            true
        }
    }

    /// The length of a buffer, which is nothing once it is detached.
    pub fn byte_length(&self, buffer: usize) -> (length: usize)
        ensures
            length == byte_length_of(self@.heap, buffer),
    {
        if self.is_detached(buffer) {
            0
        } else {
            self.buffers[buffer].data.len()
        }
    }

    /// Moves the bytes of a buffer to a new one and detaches it.
    pub fn transfer(&mut self, buffer: usize) -> (result: Result<usize, Value>)
        ensures
            can_transfer(old(self)@.heap, buffer) ==> {
                &&& result == Ok::<usize, Value>(old(self)@.heap.len() as usize)
                &&& final(self)@ == old(self)@.with_heap(transferred(old(self)@.heap, buffer))
                &&& old(self)@.heap.len() <= usize::MAX
            },
            !can_transfer(old(self)@.heap, buffer) ==> {
                &&& result == Err::<usize, Value>(transfer_error(old(self)@.heap, buffer))
                &&& final(self)@ == old(self)@
            },
    {
        if self.is_detached(buffer) {
            return Err(Value::TypeError(Message::BufferDetached));
        }
        if !self.buffers[buffer].detachable {
            return Err(Value::TypeError(Message::BufferNotDetachable));
        }
        let place: usize = self.buffers.len();
        let mut data: Vec<u8> = Vec::new();
        std::mem::swap(&mut data, &mut self.buffers[buffer].data);
        self.buffers[buffer].detached = true;
        self.buffers.push(ArrayBuffer { data, detached: false, detachable: true });
        assert(self@.heap =~= transferred(old(self)@.heap, buffer));
        Ok(place)
    }

    /// Makes a new buffer of `length` zero bytes.
    pub fn allocate(&mut self, length: usize) -> (result: Result<usize, Value>)
        ensures
            length <= old(self)@.limit ==> {
                &&& result == Ok::<usize, Value>(old(self)@.heap.len() as usize)
                &&& final(self)@ == old(self)@.with_heap(
                    old(self)@.heap.push(fresh_buffer(Seq::new(length as nat, |i: int| 0u8))),
                )
                &&& old(self)@.heap.len() <= usize::MAX
            },
            length > old(self)@.limit ==> {
                &&& result == Err::<usize, Value>(Value::RangeError(Message::BufferTooLong))
                &&& final(self)@ == old(self)@
            },
    {
        if length > self.allocation_limit {
            return Err(Value::RangeError(Message::BufferTooLong));
        }
        let place: usize = self.buffers.len();
        let data: Vec<u8> = vec![0u8; length];
        self.buffers.push(ArrayBuffer { data, detached: false, detachable: true });
        assert(self.buffers@[place as int].data@ =~= Seq::new(length as nat, |i: int| 0u8));
        assert(self@.heap =~= old(self)@.heap.push(
            fresh_buffer(Seq::new(length as nat, |i: int| 0u8)),
        ));
        Ok(place)
    }

    /// Makes a new buffer that holds the given bytes.
    pub fn store(&mut self, data: Vec<u8>) -> (result: Result<usize, Value>)
        ensures
            data@.len() <= old(self)@.limit ==> {
                &&& result == Ok::<usize, Value>(old(self)@.heap.len() as usize)
                &&& final(self)@ == old(self)@.with_heap(
                    old(self)@.heap.push(fresh_buffer(data@)),
                )
                &&& old(self)@.heap.len() <= usize::MAX
            },
            data@.len() > old(self)@.limit ==> {
                &&& result == Err::<usize, Value>(Value::RangeError(Message::BufferTooLong))
                &&& final(self)@ == old(self)@
            },
    {
        if data.len() > self.allocation_limit {
            return Err(Value::RangeError(Message::BufferTooLong));
        }
        let place: usize = self.buffers.len();
        self.buffers.push(ArrayBuffer { data, detached: false, detachable: true });
        assert(self@.heap =~= old(self)@.heap.push(fresh_buffer(data@)));
        Ok(place)
    }

    /// The byte length that a view reports: nothing once its buffer is detached.
    pub fn view_byte_length(&self, view: ArrayBufferView) -> (length: usize)
        ensures
            length == view_length_of(self@.heap, view),
    {
        if self.is_detached(view.buffer) {
            0
        } else {
            view.byte_length
        }
    }

    /// Makes a new buffer that holds a copy of a region of another.
    pub fn clone_region(&mut self, buffer: usize, byte_offset: usize, count: usize) -> (result:
        Result<usize, Value>)
        requires
            live(old(self)@.heap, buffer) ==> byte_offset + count <= old(
                self,
            )@.heap[buffer as int].data.len(),
        ensures
            can_clone(old(self)@, buffer, count as nat) ==> {
                &&& result == Ok::<usize, Value>(old(self)@.heap.len() as usize)
                &&& final(self)@ == old(self)@.with_heap(
                    old(self)@.heap.push(
                        fresh_buffer(
                            old(self)@.heap[buffer as int].data.subrange(
                                byte_offset as int,
                                byte_offset + count,
                            ),
                        ),
                    ),
                )
                &&& old(self)@.heap.len() <= usize::MAX
            },
            !can_clone(old(self)@, buffer, count as nat) ==> {
                &&& result == Err::<usize, Value>(clone_error(old(self)@, buffer))
                &&& final(self)@ == old(self)@
            },
    {
        if self.is_detached(buffer) {
            return Err(Value::TypeError(Message::BufferDetached));
        }
        if count > self.allocation_limit {
            return Err(Value::RangeError(Message::BufferTooLong));
        }
        let place: usize = self.buffers.len();
        let length: usize = self.buffers[buffer].data.len();
        let mut data: Vec<u8> = Vec::new();
        let mut i: usize = 0;
        while i < count
            invariant
                i <= count,
                self@ == old(self)@,
                live(self@.heap, buffer),
                byte_offset + count <= length,
                length == self@.heap[buffer as int].data.len(),
                data@ == self@.heap[buffer as int].data.subrange(
                    byte_offset as int,
                    byte_offset + i,
                ),
            decreases count - i,
        {
            data.push(self.buffers[buffer].data[byte_offset + i]);
            i = i + 1;
        }
        self.buffers.push(ArrayBuffer { data, detached: false, detachable: true });
        assert(self@.heap =~= old(self)@.heap.push(
            fresh_buffer(
                old(self)@.heap[buffer as int].data.subrange(
                    byte_offset as int,
                    byte_offset + count,
                ),
            ),
        ));
        Ok(place)
    }

    /// Copies bytes from one buffer to another.
    pub fn copy_data_block_bytes(
        &mut self,
        dest: usize,
        dest_start: usize,
        source: usize,
        source_start: usize,
        count: usize,
    )
        requires
            live(old(self)@.heap, dest),
            live(old(self)@.heap, source),
            dest != source,
            dest_start + count <= old(self)@.heap[dest as int].data.len(),
            source_start + count <= old(self)@.heap[source as int].data.len(),
        ensures
            final(self)@ == old(self)@.with_heap(
                copied(
                    old(self)@.heap,
                    dest,
                    dest_start as int,
                    source,
                    source_start as int,
                    count as int,
                ),
            ),
    {
        let source_length: usize = self.buffers[source].data.len();
        let dest_length: usize = self.buffers[dest].data.len();
        let mut data: Vec<u8> = Vec::new();
        std::mem::swap(&mut data, &mut self.buffers[dest].data);
        let mut i: usize = 0;
        while i < count
            invariant
                i <= count,
                source < self.buffers.len(),
                self.buffers@[source as int].data@ == old(self)@.heap[source as int].data,
                source_start + count <= source_length,
                source_length == self.buffers@[source as int].data.len(),
                dest_start + count <= dest_length,
                dest_length == data.len(),
                dest_length == old(self)@.heap[dest as int].data.len(),
                data@ == spliced(
                    old(self)@.heap[dest as int].data,
                    dest_start as int,
                    old(self)@.heap[source as int].data.subrange(
                        source_start as int,
                        source_start + i,
                    ),
                ),
            decreases count - i,
        {
            let byte: u8 = self.buffers[source].data[source_start + i];
            data[dest_start + i] = byte;
            i = i + 1;
            assert(data@ =~= spliced(
                old(self)@.heap[dest as int].data,
                dest_start as int,
                old(self)@.heap[source as int].data.subrange(
                    source_start as int,
                    source_start + i,
                ),
            ));
        }
        std::mem::swap(&mut data, &mut self.buffers[dest].data);
        assert(self@.heap =~= copied(
            old(self)@.heap,
            dest,
            dest_start as int,
            source,
            source_start as int,
            count as int,
        ));
    }
}

} // verus!
