//! Reading a stream to its end, into one sequence of bytes.
//!
//! The chunks go from the stream to the consumer directly, so that no code of the author
//! sees them on the way.

use vstd::prelude::*;

use crate::buffer::{live, ArrayBufferView, Heap, ViewKind};
use crate::readable::byte_content_laws::view_bytes;
use crate::readable::byte_stream_controller::view_ok;
use crate::readable::read_request::ReadRequest;
use crate::readable::readable_stream::{readable_world, ReadableStream};
use crate::scope::{Effect, Microtask, PromiseRef, Scope};
use crate::value::{Message, Value};

verus! {

/// A consumer that collects the bytes of a stream.
pub struct ReadAllBytesState {
    /// The name of the consumer in effects.
    pub id: u64,
    /// The promise for the bytes.
    pub promise: u64,
    /// What has been read so far.
    pub bytes: Vec<u8>,
}

/// What there is to know of such a consumer.
#[verifier::ext_equal]
pub struct ReadAllBytesModel {
    pub id: u64,
    pub promise: u64,
    pub bytes: Seq<u8>,
}

impl View for ReadAllBytesState {
    type V = ReadAllBytesModel;

    open spec fn view(&self) -> ReadAllBytesModel {
        ReadAllBytesModel { id: self.id, promise: self.promise, bytes: self.bytes@ }
    }
}

/// The bytes of a chunk, if it is one of bytes: those that its view shows, and none where the
/// buffer has been detached.
pub open spec fn chunk_bytes(heap: Heap, chunk: Value) -> Option<Seq<u8>> {
    match chunk {
        Value::Bytes(view) => if view.kind is Uint8 {
            Some(
                if live(heap, view.buffer) {
                    view_bytes(heap, view)
                } else {
                    Seq::empty()
                },
            )
        } else {
            None
        },
        _ => None,
    }
}

/// Reads all bytes of a stream, which stays locked ever after. Once it has closed,
/// [`ReadAllBytesState::read_all_bytes_close_steps`] gives the bytes.
pub fn read_all_bytes(
    scope: &mut Scope,
    stream: &mut ReadableStream,
    id: u64,
    promise: u64,
) -> (result: Result<ReadAllBytesState, Value>)
    requires
        readable_world(*old(stream), *old(scope)).wf(),
    ensures
        ({
            let (w, acquired) = readable_world(
                *old(stream),
                *old(scope),
            ).acquire_default_reader();
            match acquired {
                Ok(()) => {
                    &&& result matches Ok(state)
                    &&& state@ == (ReadAllBytesModel { id, promise, bytes: Seq::empty() })
                    &&& readable_world(*final(stream), *final(scope)) == w.read(
                        ReadRequest::Consume { consumer: id },
                    )
                },
                Err(error) => {
                    &&& result == Err::<ReadAllBytesState, Value>(error)
                    &&& readable_world(*final(stream), *final(scope)) == w
                },
            }
        }),
{
    match stream.set_up_readable_stream_default_reader(scope) {
        Ok(()) => {},
        Err(error) => {
            return Err(error);
        },
    }
    let state: ReadAllBytesState = ReadAllBytesState { id, promise, bytes: Vec::new() };
    state.read_next(scope, stream);
    Ok(state)
}

impl ReadAllBytesState {
    /// Reads the next chunk.
    pub fn read_next(&self, scope: &mut Scope, stream: &mut ReadableStream)
        requires
            readable_world(*old(stream), *old(scope)).wf(),
            old(stream)@.slots.reader is Default,
        ensures
            readable_world(*final(stream), *final(scope)) == readable_world(
                *old(stream),
                *old(scope),
            ).read(ReadRequest::Consume { consumer: self@.id }),
    {
        stream.readable_stream_default_reader_read(
            scope,
            ReadRequest::Consume { consumer: self.id },
        );
    }

    /// Takes a chunk: its bytes come after those that have been read, and the next one is
    /// read in a microtask. A chunk that is not one of bytes fails the reading.
    pub fn read_all_bytes_chunk_steps(&mut self, scope: &mut Scope, chunk: Value)
        requires
            chunk matches Value::Bytes(view) ==> view_ok(old(scope)@.heap, view),
        ensures
            match chunk_bytes(old(scope)@.heap, chunk) {
                Some(bytes) => {
                    &&& final(self)@ == (ReadAllBytesModel {
                        bytes: old(self)@.bytes + bytes,
                        ..old(self)@
                    })
                    &&& final(scope)@ == old(scope)@.emit(
                        Effect::Queue(Microtask::ReadNext { consumer: old(self)@.id }),
                    )
                },
                None => {
                    &&& final(self)@ == old(self)@
                    &&& final(scope)@ == old(scope)@.emit(
                        Effect::Reject(
                            PromiseRef::Request(old(self)@.promise),
                            Value::TypeError(Message::ChunkNotUint8Array),
                        ),
                    )
                },
            },
    {
        match chunk {
            Value::Bytes(view) => {
                if view.kind == ViewKind::Uint8 {
                    self.append_bytes(scope, view);
                    scope.emit(Effect::Queue(Microtask::ReadNext { consumer: self.id }));
                    return ;
                }
            },
            _ => {},
        }
        scope.emit(
            Effect::Reject(
                PromiseRef::Request(self.promise),
                Value::TypeError(Message::ChunkNotUint8Array),
            ),
        );
    }

    /// Appends the bytes that a view shows.
    fn append_bytes(&mut self, scope: &Scope, view: ArrayBufferView)
        requires
            view_ok(scope@.heap, view),
            view.kind is Uint8,
        ensures
            final(self)@ == (ReadAllBytesModel {
                bytes: old(self)@.bytes + chunk_bytes(scope@.heap, Value::Bytes(view))->0,
                ..old(self)@
            }),
    {
        if scope.is_detached(view.buffer) {
            assert(self@.bytes + Seq::<u8>::empty() =~= self@.bytes);
            return ;
        }
        let ghost shown = view_bytes(scope@.heap, view);
        let length: usize = scope.buffers[view.buffer].data.len();
        let mut i: usize = 0;
        while i < view.byte_length
            invariant
                i <= view.byte_length,
                live(scope@.heap, view.buffer),
                view.byte_offset + view.byte_length <= length,
                length == scope@.heap[view.buffer as int].data.len(),
                shown == view_bytes(scope@.heap, view),
                self@ == (ReadAllBytesModel {
                    bytes: old(self)@.bytes + shown.take(i as int),
                    ..old(self)@
                }),
            decreases view.byte_length - i,
        {
            let byte: u8 = scope.buffers[view.buffer].data[view.byte_offset + i];
            self.bytes.push(byte);
            assert(shown.take(i + 1) =~= shown.take(i as int).push(shown[i as int]));
            i = i + 1;
        }
        assert(shown.take(i as int) =~= shown);
    }

    /// Takes note that the stream has closed, and gives the bytes. What the caller makes of
    /// them goes to [`ReadAllBytesState::read_all_bytes_completed`].
    pub fn read_all_bytes_close_steps(&mut self) -> (bytes: Vec<u8>)
        ensures
            bytes@ == old(self)@.bytes,
            final(self)@ == (ReadAllBytesModel { bytes: Seq::empty(), ..old(self)@ }),
    {
        let mut bytes: Vec<u8> = Vec::new();
        std::mem::swap(&mut bytes, &mut self.bytes);
        bytes
    }

    /// Settles the promise for the bytes with what the caller made of them.
    pub fn read_all_bytes_completed(&self, scope: &mut Scope, outcome: Result<Value, Value>)
        ensures
            final(scope)@ == old(scope)@.emit(
                match outcome {
                    Ok(value) => Effect::Resolve(PromiseRef::Request(self@.promise), value),
                    Err(error) => Effect::Reject(PromiseRef::Request(self@.promise), error),
                },
            ),
    {
        match outcome {
            Ok(value) => {
                scope.emit(Effect::Resolve(PromiseRef::Request(self.promise), value));
            },
            Err(error) => {
                scope.emit(Effect::Reject(PromiseRef::Request(self.promise), error));
            },
        }
    }

    /// Takes note that the stream has failed.
    pub fn read_all_bytes_error_steps(&self, scope: &mut Scope, error: Value)
        ensures
            final(scope)@ == old(scope)@.emit(
                Effect::Reject(PromiseRef::Request(self@.promise), error),
            ),
    {
        scope.emit(Effect::Reject(PromiseRef::Request(self.promise), error));
    }
}

} // verus!
