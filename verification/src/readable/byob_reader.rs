//! The reader that fills the views of its caller.

use std::collections::VecDeque;

use vstd::prelude::*;

use crate::buffer::ArrayBufferView;
use crate::number::{Number, ONE};
use crate::readable::byte_stream_controller::view_ok;
use crate::readable::options::BYOBReaderReadOptions;
use crate::readable::read_request::ReadIntoRequest;
use crate::readable::readable_stream::{
    readable_world, reason_or_undefined, value_or_undefined, ReadableStream,
};
use crate::readable::set_up::to_addressable;
use crate::readable::stream_world::read_view_check;
use crate::scope::{Effect, PromiseRef, Scope};
use crate::value::{Message, Value};

verus! {

/// A BYOB reader.
pub struct BYOBReader {
    /// The reads that came before their bytes.
    pub read_into_requests: VecDeque<ReadIntoRequest>,
}

/// The number of elements that a read asks for at least.
pub open spec fn read_min(options: Option<BYOBReaderReadOptions>) -> Number {
    match options {
        Some(options) => options.min,
        None => Number { bits: ONE },
    }
}

/// That `count` is more than the whole elements of `length` bytes, in two ways.
proof fn lemma_exceeds(count: int, size: int, length: int)
    requires
        size > 0,
        length >= 0,
        length % size == 0,
    ensures
        count > length / size <==> count * size > length,
{
    assert(length == size * (length / size) + length % size) by (nonlinear_arith)
        requires
            size > 0,
    ;
    let whole = length / size;
    assert(count > whole ==> count * size > whole * size) by (nonlinear_arith)
        requires
            size > 0,
    ;
    assert(count <= whole ==> count * size <= whole * size) by (nonlinear_arith)
        requires
            size > 0,
    ;
    assert(whole * size == size * whole) by (nonlinear_arith);
}

/// Looks at the arguments of `read(view)`: what is wrong with them, or how many elements
/// to wait for.
fn check_read(
    scope: &Scope,
    attached: bool,
    view: Option<ArrayBufferView>,
    options: Option<BYOBReaderReadOptions>,
) -> (checked: Result<usize, Value>)
    requires
        view matches Some(view) ==> view_ok(scope@.heap, view),
    ensures
        checked == read_view_check(scope@, attached, view, read_min(options)),
{
    let view: ArrayBufferView = match view {
        Some(view) => view,
        None => {
            return Err(Value::TypeError(Message::ReadNotView));
        },
    };
    let given: BYOBReaderReadOptions = match options {
        Some(options) => options,
        None => BYOBReaderReadOptions::default(),
    };
    if !given.min.is_in_range() {
        return Err(Value::TypeError(Message::ReadMinOutOfRange));
    }
    let min: usize = to_addressable(given.min.to_count());
    if scope.view_byte_length(view) == 0 {
        return Err(Value::TypeError(Message::ReadEmptyView));
    }
    if scope.byte_length(view.buffer) == 0 {
        return Err(Value::TypeError(Message::ReadEmptyBuffer));
    }
    if scope.is_detached(view.buffer) {
        return Err(Value::TypeError(Message::ReadDetached));
    }
    if min == 0 {
        return Err(Value::TypeError(Message::ReadMinZero));
    }
    let array_length: usize = view.byte_length / view.kind.element_size();
    proof {
        lemma_exceeds(min as int, view.kind.size() as int, view.byte_length as int);
    }
    if view.kind.is_typed_array() {
        if min > array_length {
            return Err(Value::RangeError(Message::ReadMinExceedsLength));
        }
    } else {
        if min > view.byte_length {
            return Err(Value::RangeError(Message::ReadMinExceedsByteLength));
        }
    }
    if !attached {
        return Err(Value::TypeError(Message::ByobReadWithoutStream));
    }
    Ok(min)
}

/// The methods of a BYOB reader. The stream is the one that the reader was made for;
/// `attached` tells whether it still is locked to this reader.
impl BYOBReader {
    /// Makes a BYOB reader for a stream and locks the stream to it.
    pub fn new(scope: &mut Scope, stream: &mut ReadableStream) -> (result: Result<(), Value>)
        ensures
            (readable_world(*final(stream), *final(scope)), result) == readable_world(
                *old(stream),
                *old(scope),
            ).acquire_byob_reader(),
            readable_world(*old(stream), *old(scope)).sound() ==> readable_world(
                *final(stream),
                *final(scope),
            ).sound(),
    {
        stream.set_up_readable_stream_byob_reader(scope)
    }

    /// Reads into a view, which is missing where the argument was none; `promise` settles
    /// with the outcome.
    pub fn read(
        scope: &mut Scope,
        stream: &mut ReadableStream,
        attached: bool,
        view: Option<ArrayBufferView>,
        options: Option<BYOBReaderReadOptions>,
        promise: u64,
    )
        requires
            readable_world(*old(stream), *old(scope)).wf(),
            attached ==> old(stream)@.slots.reader is Byob,
            view matches Some(view) ==> {
                &&& view_ok(old(scope)@.heap, view)
                &&& attached ==> readable_world(*old(stream), *old(scope)).as_byte().foreign(
                    view.buffer,
                )
            },
        ensures
            readable_world(*final(stream), *final(scope)) == ({
                let w = readable_world(*old(stream), *old(scope));
                match read_view_check(old(scope)@, attached, view, read_min(options)) {
                    Ok(min) => w.read_into(view->0, min, ReadIntoRequest::Read { promise }),
                    Err(error) => w.emit(Effect::Reject(PromiseRef::Request(promise), error)),
                }
            }),
            readable_world(*old(stream), *old(scope)).sound() && old(scope)@.heap.len() + 2
                <= usize::MAX ==> readable_world(
                *final(stream),
                *final(scope),
            ).sound(),
    {
        match check_read(scope, attached, view, options) {
            Err(error) => {
                scope.emit(Effect::Reject(PromiseRef::Request(promise), error));
            },
            Ok(min) => {
                match view {
                    Some(view) => {
                        stream.readable_stream_byob_reader_read(
                            scope,
                            view,
                            min,
                            ReadIntoRequest::Read { promise },
                        );
                    },
                    None => {},
                }
            },
        }
    }

    /// Releases the stream from the reader.
    pub fn release_lock(scope: &mut Scope, stream: &mut ReadableStream, attached: bool)
        ensures
            readable_world(*final(stream), *final(scope)) == ({
                let w = readable_world(*old(stream), *old(scope));
                if attached {
                    w.release()
                } else {
                    w
                }
            }),
            readable_world(*old(stream), *old(scope)).sound() ==> readable_world(
                *final(stream),
                *final(scope),
            ).sound(),
    {
        if !attached {
            return ;
        }
        stream.readable_stream_reader_generic_release(scope);
    }

    /// Cancels the stream; `promise` settles with the outcome.
    pub fn cancel(
        scope: &mut Scope,
        stream: &mut ReadableStream,
        attached: bool,
        reason: Option<Value>,
        promise: u64,
    )
        ensures
            readable_world(*final(stream), *final(scope)) == ({
                let w = readable_world(*old(stream), *old(scope));
                if attached {
                    w.cancel(reason_or_undefined(reason), PromiseRef::Request(promise))
                } else {
                    w.emit(
                        Effect::Reject(
                            PromiseRef::Request(promise),
                            Value::TypeError(Message::ByobCancelWithoutStream),
                        ),
                    )
                }
            }),
            readable_world(*old(stream), *old(scope)).sound() ==> readable_world(
                *final(stream),
                *final(scope),
            ).sound(),
    {
        if !attached {
            scope.emit(
                Effect::Reject(
                    PromiseRef::Request(promise),
                    Value::TypeError(Message::ByobCancelWithoutStream),
                ),
            );
            return ;
        }
        stream.readable_stream_cancel(
            scope,
            value_or_undefined(reason),
            PromiseRef::Request(promise),
        );
    }
}

} // verus!
