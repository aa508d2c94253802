//! How the controllers of readable streams are set up.

use std::collections::VecDeque;

use vstd::prelude::*;

use crate::number::Number;
use crate::queuing::ValueWithSize;
use crate::readable::byte_stream_controller::{
    ByteControllerModel, ByteQueueEntry, PullIntoDescriptor, ReadableByteStreamController,
};
use crate::readable::default_controller::{
    DefaultControllerModel, ReadableStreamDefaultController,
};
use crate::readable::underlying_source::UnderlyingSource;
use crate::scope::{Algorithm, Call, Effect, Scope};
use crate::support::{callback_member, member_algorithm};
use crate::value::{Message, Value};

verus! {

/// The call of a start algorithm.
pub open spec fn start_effect(stream: u64, start: Algorithm, receiver: Value) -> Effect {
    Effect::Invoke { call: Call::ReadableStart { stream }, algorithm: start, receiver }
}

/// A controller of values that has just been set up.
pub open spec fn new_default_controller(
    pull: Algorithm,
    cancel: Algorithm,
    receiver: Value,
    hwm: Number,
    size: Algorithm,
) -> DefaultControllerModel {
    DefaultControllerModel {
        cancel_algorithm: cancel,
        close_requested: false,
        pull_again: false,
        pull_algorithm: pull,
        pulling: false,
        queue: Seq::empty(),
        total: Number { bits: 0 },
        started: false,
        hwm,
        size_algorithm: size,
        receiver,
    }
}

/// Sets up a controller of values for a stream and has it started.
pub fn set_up_readable_stream_default_controller(
    scope: &mut Scope,
    stream: u64,
    start: Algorithm,
    pull: Algorithm,
    cancel: Algorithm,
    receiver: Value,
    hwm: Number,
    size: Algorithm,
) -> (controller: ReadableStreamDefaultController)
    ensures
        controller@ == new_default_controller(pull, cancel, receiver, hwm, size),
        final(scope)@ == old(scope)@.emit(start_effect(stream, start, receiver)),
{
    scope.emit(
        Effect::Invoke {
            call: Call::ReadableStart { stream },
            algorithm: start,
            receiver: receiver.clone(),
        },
    );
    let queue: VecDeque<ValueWithSize> = VecDeque::new();
    ReadableStreamDefaultController {
        cancel_algorithm: cancel,
        close_requested: false,
        pull_again: false,
        pull_algorithm: pull,
        pulling: false,
        queue,
        queue_total_size: Number { bits: 0 },
        started: false,
        strategy_hwm: hwm,
        strategy_size_algorithm: size,
        algorithm_receiver: receiver,
    }
}

/// The start, pull and cancel algorithms of a source, or the error of the first member
/// that is no function.
pub open spec fn source_algorithms(source: UnderlyingSource) -> Result<
    (Algorithm, Algorithm, Algorithm),
    Value,
> {
    match member_algorithm(source.start, Message::SourceStartNotFunction) {
        Err(error) => Err(error),
        Ok(start) => match member_algorithm(source.pull, Message::SourcePullNotFunction) {
            Err(error) => Err(error),
            Ok(pull) => match member_algorithm(source.cancel, Message::SourceCancelNotFunction) {
                Err(error) => Err(error),
                Ok(cancel) => Ok((start, pull, cancel)),
            },
        },
    }
}

/// Takes the algorithms from a source.
fn take_source_algorithms(source: &UnderlyingSource) -> (algorithms: Result<
    (Algorithm, Algorithm, Algorithm),
    Value,
>)
    ensures
        algorithms == source_algorithms(*source),
{
    let start: Algorithm = match callback_member(source.start, Message::SourceStartNotFunction) {
        Ok(algorithm) => algorithm,
        Err(error) => {
            return Err(error);
        },
    };
    let pull: Algorithm = match callback_member(source.pull, Message::SourcePullNotFunction) {
        Ok(algorithm) => algorithm,
        Err(error) => {
            return Err(error);
        },
    };
    let cancel: Algorithm = match callback_member(
        source.cancel,
        Message::SourceCancelNotFunction,
    ) {
        Ok(algorithm) => algorithm,
        Err(error) => {
            return Err(error);
        },
    };
    Ok((start, pull, cancel))
}

/// Sets up a controller of values from the source that the author gave.
pub fn set_up_readable_stream_default_controller_from_underlying_source(
    scope: &mut Scope,
    stream: u64,
    receiver: Value,
    source: &UnderlyingSource,
    hwm: Number,
    size: Algorithm,
) -> (result: Result<ReadableStreamDefaultController, Value>)
    ensures
        match source_algorithms(*source) {
            Err(error) => {
                &&& result == Err::<ReadableStreamDefaultController, Value>(error)
                &&& final(scope)@ == old(scope)@
            },
            Ok((start, pull, cancel)) => {
                &&& result matches Ok(controller) && controller@ == new_default_controller(
                    pull,
                    cancel,
                    receiver,
                    hwm,
                    size,
                )
                &&& final(scope)@ == old(scope)@.emit(start_effect(stream, start, receiver))
            },
        },
{
    match take_source_algorithms(source) {
        Err(error) => Err(error),
        Ok((start, pull, cancel)) => Ok(
            set_up_readable_stream_default_controller(
                scope,
                stream,
                start,
                pull,
                cancel,
                receiver,
                hwm,
                size,
            ),
        ),
    }
}

/// A controller of bytes that has just been set up.
pub open spec fn new_byte_controller(
    pull: Algorithm,
    cancel: Algorithm,
    receiver: Value,
    hwm: Number,
    auto_allocate_chunk_size: Option<usize>,
) -> ByteControllerModel {
    ByteControllerModel {
        auto_allocate_chunk_size,
        byob_request: None,
        cancel_algorithm: cancel,
        close_requested: false,
        pull_again: false,
        pull_algorithm: pull,
        receiver,
        pulling: false,
        pending: Seq::empty(),
        queue: Seq::empty(),
        total: 0,
        started: false,
        hwm,
    }
}

/// Sets up a controller of bytes for a stream and has it started.
pub fn set_up_readable_byte_stream_controller(
    scope: &mut Scope,
    stream: u64,
    start: Algorithm,
    pull: Algorithm,
    cancel: Algorithm,
    receiver: Value,
    hwm: Number,
    auto_allocate_chunk_size: Option<usize>,
) -> (controller: ReadableByteStreamController)
    ensures
        controller@ == new_byte_controller(pull, cancel, receiver, hwm, auto_allocate_chunk_size),
        final(scope)@ == old(scope)@.emit(start_effect(stream, start, receiver)),
{
    scope.emit(
        Effect::Invoke {
            call: Call::ReadableStart { stream },
            algorithm: start,
            receiver: receiver.clone(),
        },
    );
    let pending_pull_intos: VecDeque<PullIntoDescriptor> = VecDeque::new();
    let queue: VecDeque<ByteQueueEntry> = VecDeque::new();
    ReadableByteStreamController {
        auto_allocate_chunk_size,
        byob_request: None,
        cancel_algorithm: cancel,
        close_requested: false,
        pull_again: false,
        pull_algorithm: pull,
        algorithm_receiver: receiver,
        pulling: false,
        pending_pull_intos,
        queue,
        queue_total_size: 0,
        started: false,
        strategy_hwm: hwm,
    }
}

/// A count brought down to what the machine can address.
pub open spec fn addressable(count: u64) -> usize {
    if count <= usize::MAX {
        count as usize
    } else {
        usize::MAX
    }
}

pub fn to_addressable(count: u64) -> (size: usize)
    ensures
        size == addressable(count),
{
    if count <= usize::MAX as u64 {
        count as usize
    } else {
        usize::MAX
    }
}

/// The size of the buffers to allocate, as the source asks for it.
pub open spec fn allocation_of(size: Option<Number>) -> Result<Option<usize>, Value> {
    match size {
        None => Ok(None),
        Some(size) => if !size.in_range() {
            Err(Value::TypeError(Message::AutoAllocateOutOfRange))
        } else if size.whole() == 0 {
            Err(Value::TypeError(Message::AutoAllocateZero))
        } else {
            Ok(Some(addressable(size.whole())))
        },
    }
}

/// Sets up a controller of bytes from the source that the author gave.
pub fn set_up_readable_byte_stream_controller_from_underlying_source(
    scope: &mut Scope,
    stream: u64,
    receiver: Value,
    source: &UnderlyingSource,
    hwm: Number,
) -> (result: Result<ReadableByteStreamController, Value>)
    ensures
        match source_algorithms(*source) {
            Err(error) => {
                &&& result == Err::<ReadableByteStreamController, Value>(error)
                &&& final(scope)@ == old(scope)@
            },
            Ok((start, pull, cancel)) => match allocation_of(source.auto_allocate_chunk_size) {
                Err(error) => {
                    &&& result == Err::<ReadableByteStreamController, Value>(error)
                    &&& final(scope)@ == old(scope)@
                },
                Ok(allocation) => {
                    &&& result matches Ok(controller) && controller@ == new_byte_controller(
                        pull,
                        cancel,
                        receiver,
                        hwm,
                        allocation,
                    )
                    &&& final(scope)@ == old(scope)@.emit(start_effect(stream, start, receiver))
                },
            },
        },
{
    match take_source_algorithms(source) {
        Err(error) => Err(error),
        Ok((start, pull, cancel)) => {
            let auto_allocate_chunk_size: Option<usize> = match source.auto_allocate_chunk_size {
                None => None,
                Some(size) => {
                    if !size.is_in_range() {
                        return Err(Value::TypeError(Message::AutoAllocateOutOfRange));
                    }
                    let count: u64 = size.to_count();
                    if count == 0 {
                        return Err(Value::TypeError(Message::AutoAllocateZero));
                    }
                    Some(to_addressable(count))
                },
            };
            Ok(
                set_up_readable_byte_stream_controller(
                    scope,
                    stream,
                    start,
                    pull,
                    cancel,
                    receiver,
                    hwm,
                    auto_allocate_chunk_size,
                ),
            )
        },
    }
}

} // verus!
