//! Readable streams as a whole.

use vstd::prelude::*;

use crate::algorithms::{
    extract_high_water_mark, extract_size_algorithm, high_water_mark_of, size_algorithm_of, sized,
};
use crate::buffer::{fresh_buffer, ArrayBufferView, ViewKind};
use crate::number::{law_sum_of_one, Number, ONE};
use crate::queuing::{CallbackObject, QueuingStrategy};
use crate::readable::byte_stream_controller::{byte_view, ReadableByteStreamController};
use crate::readable::byte_tee::{
    byte_tee_branch, forward_effect, new_byte_tee, readable_byte_stream_tee, ByteTeeState,
};
use crate::readable::default_algorithms::{
    readable_stream_default_controller_close, readable_stream_default_controller_enqueue,
};
use crate::readable::default_controller::{
    DefaultControllerModel, ReadableStreamDefaultController,
};
use crate::readable::options::{
    ReadableStreamGetReaderOptions, ReadableStreamType, ReaderMode, StreamPipeOptions,
};
use crate::readable::set_up::{
    allocation_of, new_byte_controller, new_default_controller,
    set_up_readable_byte_stream_controller,
    set_up_readable_byte_stream_controller_from_underlying_source,
    set_up_readable_stream_default_controller,
    set_up_readable_stream_default_controller_from_underlying_source, source_algorithms,
    start_effect,
};
use crate::readable::slots::{initial_slots, ReaderModel, SlotsModel, StreamReader, StreamSlots};
use crate::readable::stream_world::{ControllerModel, ReadableModel, ReadableWorld};
use crate::readable::tee::{new_tee, readable_stream_default_tee, tee_branch, TeeState};
use crate::readable::underlying_source::{empty_source, SourceArgument, UnderlyingSource};
use crate::scope::{Algorithm, Branch, Effect, PromiseRef, Reaction, Scope};
use crate::support::{ensure_callback_members_callable, first_bad_member, member_ok};
use crate::value::{Message, Value};

verus! {

/// The state of a readable stream.
#[derive(Clone, Copy, Debug, PartialEq, Eq, Structural)]
pub enum ReadableStreamState {
    Readable,
    Closed,
    Errored,
}

impl Default for ReadableStreamState {
    fn default() -> (state: ReadableStreamState)
        ensures
            state is Readable,
    {
        ReadableStreamState::Readable
    }
}

/// The controller of a readable stream.
pub enum StreamController {
    Default(ReadableStreamDefaultController),
    Byte(ReadableByteStreamController),
}

impl View for StreamController {
    type V = ControllerModel;

    open spec fn view(&self) -> ControllerModel {
        match self {
            StreamController::Default(controller) => ControllerModel::Default(controller@),
            StreamController::Byte(controller) => ControllerModel::Byte(controller@),
        }
    }
}

/// A readable stream.
pub struct ReadableStream {
    pub slots: StreamSlots,
    pub controller: StreamController,
}

impl View for ReadableStream {
    type V = ReadableModel;

    open spec fn view(&self) -> ReadableModel {
        ReadableModel { slots: self.slots@, controller: self.controller@ }
    }
}

/// A stream and a scope, to state what an operation does to them.
pub open spec fn readable_world(stream: ReadableStream, scope: Scope) -> ReadableWorld {
    ReadableWorld { stream: stream@, scope: scope@ }
}

/// A new stream of values with the given algorithms.
pub open spec fn new_stream(
    id: u64,
    pull: Algorithm,
    cancel: Algorithm,
    receiver: Value,
    hwm: Number,
    size: Algorithm,
) -> ReadableModel {
    ReadableModel {
        slots: initial_slots(id),
        controller: ControllerModel::Default(
            new_default_controller(pull, cancel, receiver, hwm, size),
        ),
    }
}

/// A new byte stream with the given algorithms.
pub open spec fn new_byte_stream(
    id: u64,
    pull: Algorithm,
    cancel: Algorithm,
    receiver: Value,
    hwm: Number,
    auto_allocate_chunk_size: Option<usize>,
) -> ReadableModel {
    ReadableModel {
        slots: initial_slots(id),
        controller: ControllerModel::Byte(
            new_byte_controller(pull, cancel, receiver, hwm, auto_allocate_chunk_size),
        ),
    }
}

/// Makes a stream of values with the given algorithms.
pub fn create_readable_stream(
    scope: &mut Scope,
    id: u64,
    start: Algorithm,
    pull: Algorithm,
    cancel: Algorithm,
    hwm: Number,
    size: Algorithm,
) -> (stream: ReadableStream)
    ensures
        stream@ == new_stream(id, pull, cancel, Value::Undefined, hwm, size),
        final(scope)@ == old(scope)@.emit(start_effect(id, start, Value::Undefined)),
        readable_world(stream, *final(scope)).sound(),
{
    let slots: StreamSlots = StreamSlots::initialize_readable_stream(id);
    let controller: ReadableStreamDefaultController = set_up_readable_stream_default_controller(
        scope,
        id,
        start,
        pull,
        cancel,
        Value::Undefined,
        hwm,
        size,
    );
    ReadableStream { slots, controller: StreamController::Default(controller) }
}

/// Makes a byte stream with the given algorithms, which has no room to fill ahead.
pub fn create_readable_byte_stream(
    scope: &mut Scope,
    id: u64,
    start: Algorithm,
    pull: Algorithm,
    cancel: Algorithm,
) -> (stream: ReadableStream)
    ensures
        stream@ == new_byte_stream(
            id,
            pull,
            cancel,
            Value::Undefined,
            Number { bits: 0 },
            None,
        ),
        final(scope)@ == old(scope)@.emit(start_effect(id, start, Value::Undefined)),
        readable_world(stream, *final(scope)).sound(),
{
    let slots: StreamSlots = StreamSlots::initialize_readable_stream(id);
    let controller: ReadableByteStreamController = set_up_readable_byte_stream_controller(
        scope,
        id,
        start,
        pull,
        cancel,
        Value::Undefined,
        Number { bits: 0 },
        None,
    );
    ReadableStream { slots, controller: StreamController::Byte(controller) }
}

/// The `this` of the algorithms of a source and its members, or what is wrong with it.
pub open spec fn source_of(source: SourceArgument) -> Result<(Value, UnderlyingSource), Value> {
    match source {
        SourceArgument::Missing => Ok((Value::Undefined, empty_source())),
        SourceArgument::NotObject => Err(Value::TypeError(Message::SourceNotObject)),
        SourceArgument::Object { handle, members } => match members {
            Ok(members) => Ok((Value::Handle(handle), members)),
            Err(Some(error)) => Err(error),
            Err(None) => Err(Value::TypeError(Message::InvalidSource)),
        },
    }
}

/// What is wrong with the members of a source, in the order in which they are looked at.
pub open spec fn source_member_error(source: UnderlyingSource) -> Option<Value> {
    if !member_ok(source.cancel) {
        Some(Value::TypeError(Message::SourceCancelNotFunction))
    } else if !member_ok(source.pull) {
        Some(Value::TypeError(Message::SourcePullNotFunction))
    } else if !member_ok(source.start) {
        Some(Value::TypeError(Message::SourceStartNotFunction))
    } else {
        None
    }
}

/// The high-water mark of a byte stream, whose strategy may not measure chunks.
pub open spec fn byte_mark_of(strategy: Option<QueuingStrategy>) -> Result<Number, Value> {
    match strategy {
        Some(QueuingStrategy { size: Some(size), .. }) => if size.callable {
            Err(Value::RangeError(Message::ByteStreamWithSize))
        } else {
            Err(Value::TypeError(Message::SizeMustBeFunction))
        },
        _ => high_water_mark_of(strategy, Number { bits: 0 }),
    }
}

/// The size algorithm and the high-water mark of a stream of values.
pub open spec fn strategy_of(strategy: Option<QueuingStrategy>) -> Result<
    (Algorithm, Number),
    Value,
> {
    match size_algorithm_of(strategy) {
        Err(error) => Err(error),
        Ok(size) => match high_water_mark_of(strategy, Number { bits: ONE }) {
            Err(error) => Err(error),
            Ok(hwm) => Ok((size, hwm)),
        },
    }
}

/// The stream that a source and a strategy make, with the call that starts the source; or
/// the error that is thrown instead.
pub open spec fn constructed(
    id: u64,
    source: SourceArgument,
    strategy: Option<QueuingStrategy>,
) -> Result<(ReadableModel, Effect), Value> {
    match source_of(source) {
        Err(error) => Err(error),
        Ok((receiver, members)) => match source_member_error(members) {
            Some(error) => Err(error),
            None => {
                let (start, pull, cancel) = source_algorithms(members)->Ok_0;
                let effect = start_effect(id, start, receiver);
                if members.kind is Some {
                    match byte_mark_of(strategy) {
                        Err(error) => Err(error),
                        Ok(hwm) => match allocation_of(members.auto_allocate_chunk_size) {
                            Err(error) => Err(error),
                            Ok(size) => Ok(
                                (new_byte_stream(id, pull, cancel, receiver, hwm, size), effect),
                            ),
                        },
                    }
                } else {
                    match strategy_of(strategy) {
                        Err(error) => Err(error),
                        Ok((size, hwm)) => Ok(
                            (new_stream(id, pull, cancel, receiver, hwm, size), effect),
                        ),
                    }
                }
            },
        },
    }
}

/// A stream that holds one chunk, or none, and closes after it.
pub open spec fn stream_of_chunk(id: u64, chunk: Option<Value>) -> ReadableModel {
    let fresh = new_default_controller(
        Algorithm::Undefined,
        Algorithm::Undefined,
        Value::Undefined,
        Number { bits: ONE },
        Algorithm::Undefined,
    );
    match chunk {
        None => ReadableModel {
            slots: SlotsModel { state: ReadableStreamState::Closed, ..initial_slots(id) },
            controller: ControllerModel::Default(
                DefaultControllerModel { close_requested: true, ..fresh },
            ),
        },
        Some(chunk) => ReadableModel {
            slots: initial_slots(id),
            controller: ControllerModel::Default(
                DefaultControllerModel {
                    close_requested: true,
                    queue: seq![sized(chunk, Number { bits: ONE })],
                    total: Number { bits: ONE },
                    ..fresh
                },
            ),
        },
    }
}

/// The options of a pipe, each as it stands or as it is by default.
pub fn pipe_options(options: &Option<StreamPipeOptions>) -> (given: StreamPipeOptions)
    ensures
        given == match *options {
            Some(options) => options,
            None => StreamPipeOptions {
                prevent_close: false,
                prevent_abort: false,
                prevent_cancel: false,
                signal: None,
            },
        },
{
    match options {
        Some(options) => *options,
        None => StreamPipeOptions::default(),
    }
}

impl ReadableStream {
    /// Makes a stream from a source and a strategy of the author.
    pub fn new(
        scope: &mut Scope,
        id: u64,
        underlying_source: SourceArgument,
        strategy: Option<QueuingStrategy>,
    ) -> (result: Result<ReadableStream, Value>)
        ensures
            match constructed(id, underlying_source, strategy) {
                Err(error) => {
                    &&& result == Err::<ReadableStream, Value>(error)
                    &&& final(scope)@ == old(scope)@
                },
                Ok((stream, effect)) => {
                    &&& result matches Ok(made) && made@ == stream && readable_world(
                        made,
                        *final(scope),
                    ).sound()
                    &&& final(scope)@ == old(scope)@.emit(effect)
                },
            },
    {
        let (receiver, members): (Value, UnderlyingSource) = match underlying_source {
            SourceArgument::Missing => (
                Value::Undefined,
                UnderlyingSource {
                    start: None,
                    pull: None,
                    cancel: None,
                    kind: None,
                    auto_allocate_chunk_size: None,
                },
            ),
            SourceArgument::NotObject => {
                return Err(Value::TypeError(Message::SourceNotObject));
            },
            SourceArgument::Object { handle, members } => match members {
                Ok(members) => (Value::Handle(handle), members),
                Err(Some(error)) => {
                    return Err(error);
                },
                Err(None) => {
                    return Err(Value::TypeError(Message::InvalidSource));
                },
            },
        };
        let callbacks: Vec<(Option<CallbackObject>, Message)> = vec![
            (members.cancel, Message::SourceCancelNotFunction),
            (members.pull, Message::SourcePullNotFunction),
            (members.start, Message::SourceStartNotFunction),
        ];
        proof {
            reveal_with_fuel(first_bad_member, 4);
        }
        match ensure_callback_members_callable(&callbacks) {
            Ok(()) => {},
            Err(error) => {
                return Err(error);
            },
        }
        let slots: StreamSlots = StreamSlots::initialize_readable_stream(id);
        match members.kind {
            Some(ReadableStreamType::Bytes) => {
                match &strategy {
                    Some(given) => {
                        match given.size {
                            Some(size) => {
                                if !size.callable {
                                    return Err(Value::TypeError(Message::SizeMustBeFunction));
                                }
                                return Err(Value::RangeError(Message::ByteStreamWithSize));
                            },
                            None => {},
                        }
                    },
                    None => {},
                }
                let hwm: Number = match extract_high_water_mark(
                    &strategy,
                    Number { bits: 0 },
                ) {
                    Ok(hwm) => hwm,
                    Err(error) => {
                        return Err(error);
                    },
                };
                match set_up_readable_byte_stream_controller_from_underlying_source(
                    scope,
                    id,
                    receiver,
                    &members,
                    hwm,
                ) {
                    Ok(controller) => Ok(
                        ReadableStream { slots, controller: StreamController::Byte(controller) },
                    ),
                    Err(error) => Err(error),
                }
            },
            None => {
                let size: Algorithm = match extract_size_algorithm(&strategy) {
                    Ok(size) => size,
                    Err(error) => {
                        return Err(error);
                    },
                };
                let hwm: Number = match extract_high_water_mark(
                    &strategy,
                    Number { bits: ONE },
                ) {
                    Ok(hwm) => hwm,
                    Err(error) => {
                        return Err(error);
                    },
                };
                match set_up_readable_stream_default_controller_from_underlying_source(
                    scope,
                    id,
                    receiver,
                    &members,
                    hwm,
                    size,
                ) {
                    Ok(controller) => Ok(
                        ReadableStream {
                            slots,
                            controller: StreamController::Default(controller),
                        },
                    ),
                    Err(error) => Err(error),
                }
            },
        }
    }

    /// Makes a stream that native algorithms drive. It pulls only when it is read from.
    /// `underlying_source` is the native source by which a consumer recognizes the stream.
    pub fn new_native(
        scope: &mut Scope,
        id: u64,
        underlying_source: Option<u64>,
        pull: Algorithm,
        cancel: Algorithm,
    ) -> (stream: ReadableStream)
        ensures
            stream@ == ({
                let made = new_stream(
                    id,
                    pull,
                    cancel,
                    Value::Undefined,
                    Number { bits: 0 },
                    Algorithm::Undefined,
                );
                ReadableModel {
                    slots: SlotsModel { native_byte_source: underlying_source, ..made.slots },
                    ..made
                }
            }),
            final(scope)@ == old(scope)@.emit(
                start_effect(id, Algorithm::Undefined, Value::Undefined),
            ),
            readable_world(stream, *final(scope)).sound(),
    {
        let mut stream: ReadableStream = create_readable_stream(
            scope,
            id,
            Algorithm::Undefined,
            pull,
            cancel,
            Number { bits: 0 },
            Algorithm::Undefined,
        );
        match underlying_source {
            Some(source) => {
                stream.set_native_source(source);
            },
            None => {},
        }
        stream
    }

    /// Makes a stream that hands out `bytes` as one chunk and then closes; without any
    /// bytes it is closed from the start.
    pub fn from_bytes(scope: &mut Scope, id: u64, bytes: Vec<u8>) -> (result: Result<
        ReadableStream,
        Value,
    >)
        ensures
            ({
                let started = old(scope)@.emit(
                    start_effect(id, Algorithm::Undefined, Value::Undefined),
                );
                let place = old(scope)@.heap.len() as usize;
                if bytes@.len() == 0 {
                    &&& result matches Ok(stream) && stream@ == stream_of_chunk(id, None)
                    &&& final(scope)@ == started
                } else if bytes@.len() > old(scope)@.limit {
                    &&& result == Err::<ReadableStream, Value>(
                        Value::RangeError(Message::BufferTooLong),
                    )
                    &&& final(scope)@ == started
                } else {
                    &&& result matches Ok(stream) && stream@ == stream_of_chunk(
                        id,
                        Some(byte_view(place, 0, bytes@.len() as usize)),
                    )
                    &&& final(scope)@ == started.with_heap(
                        old(scope)@.heap.push(fresh_buffer(bytes@)),
                    )
                }
            }),
            result matches Ok(stream) ==> readable_world(stream, *final(scope)).sound(),
    {
        let mut stream: ReadableStream = create_readable_stream(
            scope,
            id,
            Algorithm::Undefined,
            Algorithm::Undefined,
            Algorithm::Undefined,
            Number { bits: ONE },
            Algorithm::Undefined,
        );
        let length: usize = bytes.len();
        let ghost started = scope@;
        match &mut stream.controller {
            StreamController::Default(controller) => {
                if length > 0 {
                    let buffer: usize = match scope.store(bytes) {
                        Ok(buffer) => buffer,
                        Err(error) => {
                            return Err(error);
                        },
                    };
                    let chunk: Value = Value::Bytes(
                        ArrayBufferView {
                            kind: ViewKind::Uint8,
                            buffer,
                            byte_offset: 0,
                            byte_length: length,
                        },
                    );
                    let _ = readable_stream_default_controller_enqueue(
                        scope,
                        &mut stream.slots,
                        controller,
                        &chunk,
                    );
                    assert(controller@.queue =~= seq![sized(chunk, Number { bits: ONE })]);
                }
                readable_stream_default_controller_close(scope, &mut stream.slots, controller);
            },
            StreamController::Byte(_) => {},
        }
        proof {
            law_sum_of_one(Number { bits: ONE });
            assert(stream@ =~= stream_of_chunk(
                id,
                if length == 0 {
                    None
                } else {
                    Some(byte_view(old(scope)@.heap.len() as usize, 0, length))
                },
            ));
            if length == 0 {
                assert(scope@ =~= started);
            } else {
                assert(scope@ =~= started.with_heap(
                    old(scope)@.heap.push(fresh_buffer(bytes@)),
                ));
            }
        }
        Ok(stream)
    }

    /// Makes a stream that is closed, locked and disturbed, for a body that has been
    /// consumed elsewhere.
    pub fn new_consumed(scope: &mut Scope, id: u64) -> (result: Result<ReadableStream, Value>)
        ensures
            result matches Ok(stream) && {
                &&& stream@ == (ReadableModel {
                    slots: SlotsModel {
                        reader: ReaderModel::Default(Seq::empty()),
                        disturbed: true,
                        ..stream_of_chunk(id, None).slots
                    },
                    ..stream_of_chunk(id, None)
                })
                &&& readable_world(stream, *final(scope)).sound()
            },
            final(scope)@ == old(scope)@.emit(
                start_effect(id, Algorithm::Undefined, Value::Undefined),
            ).emit_all(stream_of_chunk(id, None).slots.on_initialize()),
    {
        let bytes: Vec<u8> = Vec::new();
        match ReadableStream::from_bytes(scope, id, bytes) {
            Ok(made) => {
                let mut stream: ReadableStream = made;
                match stream.lock_and_disturb(scope) {
                    Ok(()) => Ok(stream),
                    Err(error) => Err(error),
                }
            },
            Err(error) => Err(error),
        }
    }

    /// Locks the stream to a reader that is never released, and marks it disturbed. Where
    /// the stream is locked already, its reader keeps the lock. This always succeeds.
    pub fn lock_and_disturb(&mut self, scope: &mut Scope) -> (result: Result<(), Value>)
        ensures
            result is Ok,
            readable_world(*final(self), *final(scope)) == ({
                let w = readable_world(*old(self), *old(scope));
                if w.stream.slots.locked() {
                    w.disturbed()
                } else {
                    w.lock(ReaderModel::Default(Seq::empty())).disturbed()
                }
            }),
            readable_world(*old(self), *old(scope)).sound() ==> readable_world(
                *final(self),
                *final(scope),
            ).sound(),
    {
        if !self.is_locked() {
            let _ = self.set_up_readable_stream_default_reader(scope);
        }
        self.slots.disturbed = true;
        Ok(())
    }

    /// Whether the stream is locked to a reader.
    pub fn is_locked(&self) -> (locked: bool)
        ensures
            locked == self@.slots.locked(),
    {
        self.slots.is_locked()
    }

    /// Cancels the stream on behalf of its owner, who has to hold it unlocked.
    pub fn cancel(&mut self, scope: &mut Scope, reason: Option<Value>, promise: u64)
        ensures
            readable_world(*final(self), *final(scope)) == ({
                let w = readable_world(*old(self), *old(scope));
                if w.stream.slots.locked() {
                    w.emit(
                        Effect::Reject(
                            PromiseRef::Request(promise),
                            Value::TypeError(Message::CancelLocked),
                        ),
                    )
                } else {
                    w.cancel(reason_or_undefined(reason), PromiseRef::Request(promise))
                }
            }),
            readable_world(*old(self), *old(scope)).sound() ==> readable_world(
                *final(self),
                *final(scope),
            ).sound(),
    {
        if self.is_locked() {
            scope.emit(
                Effect::Reject(
                    PromiseRef::Request(promise),
                    Value::TypeError(Message::CancelLocked),
                ),
            );
            return ;
        }
        self.readable_stream_cancel(scope, value_or_undefined(reason), PromiseRef::Request(promise));
    }

    /// Locks the stream to a new reader of the kind that is asked for.
    pub fn get_reader(
        &mut self,
        scope: &mut Scope,
        options: Option<ReadableStreamGetReaderOptions>,
    ) -> (result: Result<(), Value>)
        ensures
            (readable_world(*final(self), *final(scope)), result) == ({
                let w = readable_world(*old(self), *old(scope));
                if options is Some && options->0.mode is Some {
                    w.acquire_byob_reader()
                } else {
                    w.acquire_default_reader()
                }
            }),
            readable_world(*old(self), *old(scope)).sound() ==> readable_world(
                *final(self),
                *final(scope),
            ).sound(),
    {
        let mode: Option<ReaderMode> = match options {
            Some(options) => options.mode,
            None => None,
        };
        match mode {
            None => self.set_up_readable_stream_default_reader(scope),
            Some(ReaderMode::Byob) => self.set_up_readable_stream_byob_reader(scope),
        }
    }

    /// Whether the stream has been read from or canceled.
    pub fn is_disturbed(&self) -> (disturbed: bool)
        ensures
            disturbed == self@.slots.disturbed,
    {
        self.slots.disturbed
    }

    /// Fails the stream, unless it is past that.
    pub fn error(&mut self, scope: &mut Scope, reason: Value)
        ensures
            readable_world(*final(self), *final(scope)) == readable_world(
                *old(self),
                *old(scope),
            ).errored(reason),
            readable_world(*old(self), *old(scope)).sound() ==> readable_world(
                *final(self),
                *final(scope),
            ).sound(),
    {
        self.readable_stream_error(scope, reason);
    }

    /// The native source behind the stream, if there is one.
    pub fn native_source(&self) -> (source: Option<u64>)
        ensures
            source == self@.slots.native_byte_source,
    {
        self.slots.native_byte_source
    }

    /// Records `source` as the native source behind the stream.
    pub fn set_native_source(&mut self, source: u64)
        ensures
            final(self)@ == (ReadableModel {
                slots: SlotsModel { native_byte_source: Some(source), ..old(self)@.slots },
                ..old(self)@
            }),
    {
        self.slots.native_byte_source = Some(source);
    }

    /// The reader to which the stream is locked, if it is.
    pub fn reader(&self) -> (reader: &Option<StreamReader>)
        ensures
            *reader == self.slots.reader,
    {
        &self.slots.reader
    }

    /// The controller, where the stream is one of values.
    pub fn default_controller(&self) -> (controller: Option<&ReadableStreamDefaultController>)
        ensures
            match self.controller {
                StreamController::Default(own) => controller == Some(&own),
                StreamController::Byte(_) => controller is None,
            },
    {
        match &self.controller {
            StreamController::Default(controller) => Some(controller),
            StreamController::Byte(_) => None,
        }
    }

    /// The controller, where the stream is one of bytes.
    pub fn byte_controller(&self) -> (controller: Option<&ReadableByteStreamController>)
        ensures
            match self.controller {
                StreamController::Default(_) => controller is None,
                StreamController::Byte(own) => controller == Some(&own),
            },
    {
        match &self.controller {
            StreamController::Default(_) => None,
            StreamController::Byte(controller) => Some(controller),
        }
    }
}

/// What the branches of a tee share, whichever the kind of the stream.
pub enum Tee {
    Values(TeeState),
    Bytes(ByteTeeState),
}

impl ReadableStream {
    /// Tees the stream into two branches, named by `branch_ids`. With `clone_for_branch2`
    /// the second branch of a stream of values gets copies of the chunks; that of a byte
    /// stream always does. `reader` is the name of the reader that is made for a byte stream.
    pub fn tee(
        &mut self,
        scope: &mut Scope,
        id: u64,
        branch_ids: (u64, u64),
        reader: u64,
        clone_for_branch2: bool,
    ) -> (result: Result<(Tee, ReadableStream, ReadableStream), Value>)
        ensures
            ({
                let (locked, acquired) = readable_world(
                    *old(self),
                    *old(scope),
                ).acquire_default_reader();
                let stream = old(self)@.slots.id;
                let bytes = old(self)@.controller is Byte;
                &&& final(self)@ == locked.stream
                &&& match acquired {
                    Err(error) => {
                        &&& result == Err::<(Tee, ReadableStream, ReadableStream), Value>(error)
                        &&& final(scope)@ == locked.scope
                    },
                    Ok(()) => {
                        &&& result matches Ok((tee, branch1, branch2)) && {
                            if bytes {
                                &&& tee == Tee::Bytes(new_byte_tee(id, reader))
                                &&& branch1@ == byte_tee_branch(id, branch_ids.0, Branch::One)
                                &&& branch2@ == byte_tee_branch(id, branch_ids.1, Branch::Two)
                            } else {
                                &&& tee == Tee::Values(new_tee(id, clone_for_branch2))
                                &&& branch1@ == tee_branch(id, branch_ids.0, Branch::One)
                                &&& branch2@ == tee_branch(id, branch_ids.1, Branch::Two)
                            }
                        }
                        &&& final(scope)@ == locked.scope.emit(
                            Effect::NewPromise(PromiseRef::TeeCancel(id)),
                        ).emit(
                            start_effect(branch_ids.0, Algorithm::Undefined, Value::Undefined),
                        ).emit(
                            start_effect(branch_ids.1, Algorithm::Undefined, Value::Undefined),
                        ).emit(
                            if bytes {
                                forward_effect(id, reader, stream)
                            } else {
                                Effect::OnRejected(
                                    PromiseRef::ReaderClosed(stream),
                                    Reaction::TeeClosedRejected { tee: id },
                                )
                            },
                        )
                    },
                }
            }),
            readable_world(*old(self), *old(scope)).sound() ==> readable_world(
                *final(self),
                *final(scope),
            ).sound(),
            result matches Ok((_, branch1, branch2)) ==> readable_world(
                branch1,
                *final(scope),
            ).sound() && readable_world(branch2, *final(scope)).sound(),
    {
        if self.byte_controller().is_some() {
            return match readable_byte_stream_tee(scope, self, id, branch_ids, reader) {
                Ok((state, branch1, branch2)) => Ok((Tee::Bytes(state), branch1, branch2)),
                Err(error) => Err(error),
            };
        }
        match readable_stream_default_tee(scope, self, id, branch_ids, clone_for_branch2) {
            Ok((state, branch1, branch2)) => Ok((Tee::Values(state), branch1, branch2)),
            Err(error) => Err(error),
        }
    }
}

/// An argument that may be left out, which then stands for `undefined`.
pub open spec fn reason_or_undefined(reason: Option<Value>) -> Value {
    match reason {
        Some(reason) => reason,
        None => Value::Undefined,
    }
}

pub fn value_or_undefined(reason: Option<Value>) -> (value: Value)
    ensures
        value == reason_or_undefined(reason),
{
    match reason {
        Some(reason) => reason,
        None => Value::Undefined,
    }
}

} // verus!
