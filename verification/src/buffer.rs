//! Array buffers, the views onto them, and the store that holds their bytes.

use vstd::prelude::*;

verus! {

/// The kind of a view onto an array buffer.
#[derive(Clone, Copy, Debug, PartialEq, Eq, Structural)]
pub enum ViewKind {
    Int8,
    Uint8,
    Uint8Clamped,
    Int16,
    Uint16,
    Int32,
    Uint32,
    Float16,
    Float32,
    Float64,
    BigInt64,
    BigUint64,
    DataView,
}

impl ViewKind {
    /// The number of bytes of one element; a data view counts single bytes.
    pub open spec fn size(self) -> nat {
        match self {
            ViewKind::Int8 | ViewKind::Uint8 | ViewKind::Uint8Clamped | ViewKind::DataView => 1,
            ViewKind::Int16 | ViewKind::Uint16 | ViewKind::Float16 => 2,
            ViewKind::Int32 | ViewKind::Uint32 | ViewKind::Float32 => 4,
            ViewKind::Float64 | ViewKind::BigInt64 | ViewKind::BigUint64 => 8,
        }
    }

    pub fn element_size(self) -> (size: usize)
        ensures
            size == self.size(),
    {
        match self {
            ViewKind::Int8 | ViewKind::Uint8 | ViewKind::Uint8Clamped | ViewKind::DataView => 1,
            ViewKind::Int16 | ViewKind::Uint16 | ViewKind::Float16 => 2,
            ViewKind::Int32 | ViewKind::Uint32 | ViewKind::Float32 => 4,
            ViewKind::Float64 | ViewKind::BigInt64 | ViewKind::BigUint64 => 8,
        }
    }

    /// Whether a view of this kind is a typed array, not a data view.
    pub fn is_typed_array(self) -> (typed: bool)
        ensures
            typed == (self !is DataView),
    {
        match self {
            ViewKind::DataView => false,
            _ => true,
        }
    }
}

/// A view onto a region of an array buffer.
#[derive(Clone, Copy, Debug, PartialEq, Eq, Structural)]
pub struct ArrayBufferView {
    pub kind: ViewKind,
    /// The place of the buffer in the store.
    pub buffer: usize,
    pub byte_offset: usize,
    pub byte_length: usize,
}

/// An array buffer.
#[derive(Debug)]
pub struct ArrayBuffer {
    pub data: Vec<u8>,
    /// Whether the bytes have been taken away from this buffer.
    pub detached: bool,
    /// Whether the bytes may be taken away at all.
    pub detachable: bool,
}

/// What there is to know of an array buffer.
#[verifier::ext_equal]
pub struct BufferModel {
    pub data: Seq<u8>,
    pub detached: bool,
    pub detachable: bool,
}

impl View for ArrayBuffer {
    type V = BufferModel;

    open spec fn view(&self) -> BufferModel {
        BufferModel { data: self.data@, detached: self.detached, detachable: self.detachable }
    }
}

/// The buffers of a store, by their places in it.
pub type Heap = Seq<BufferModel>;

/// The buffers of a vector of array buffers.
pub open spec fn heap_of(buffers: Seq<ArrayBuffer>) -> Heap {
    Seq::new(buffers.len(), |i: int| buffers[i]@)
}

/// Whether a place holds a buffer that still has its bytes.
pub open spec fn live(heap: Heap, buffer: usize) -> bool {
    buffer < heap.len() && !heap[buffer as int].detached
}

/// Whether the bytes of a buffer can be taken over.
pub open spec fn can_transfer(heap: Heap, buffer: usize) -> bool {
    live(heap, buffer) && heap[buffer as int].detachable
}

/// The number of bytes that a buffer reports: none once it is detached.
pub open spec fn byte_length_of(heap: Heap, buffer: usize) -> nat {
    if live(heap, buffer) {
        heap[buffer as int].data.len()
    } else {
        0
    }
}

/// The byte length that a view reports: nothing once its buffer is detached.
pub open spec fn view_length_of(heap: Heap, view: ArrayBufferView) -> usize {
    if live(heap, view.buffer) {
        view.byte_length
    } else {
        0
    }
}

/// The store after the bytes of `buffer` have moved to a new buffer at its end.
pub open spec fn transferred(heap: Heap, buffer: usize) -> Heap {
    let moved = BufferModel { data: heap[buffer as int].data, detached: false, detachable: true };
    let emptied = BufferModel {
        data: Seq::empty(),
        detached: true,
        detachable: heap[buffer as int].detachable,
    };
    heap.update(buffer as int, emptied).push(moved)
}

/// A new buffer that holds `data`.
pub open spec fn fresh_buffer(data: Seq<u8>) -> BufferModel {
    BufferModel { data, detached: false, detachable: true }
}

/// `dest` with the bytes from `start` on replaced by `source`.
pub open spec fn spliced(dest: Seq<u8>, start: int, source: Seq<u8>) -> Seq<u8> {
    dest.take(start) + source + dest.skip(start + source.len())
}

/// The store after `count` bytes were copied from one of its buffers to another.
pub open spec fn copied(
    heap: Heap,
    dest: usize,
    dest_start: int,
    source: usize,
    source_start: int,
    count: int,
) -> Heap {
    let bytes = heap[source as int].data.subrange(source_start, source_start + count);
    heap.update(
        dest as int,
        BufferModel {
            data: spliced(heap[dest as int].data, dest_start, bytes),
            ..heap[dest as int]
        },
    )
}

} // verus!
