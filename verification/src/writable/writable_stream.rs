//! Writable streams as a whole.

use std::collections::VecDeque;

use vstd::prelude::*;

use crate::algorithms::{extract_high_water_mark, extract_size_algorithm};
use crate::number::{Number, ONE};
use crate::queuing::{QueuingStrategy, ValueWithSize};
use crate::readable::readable_stream::strategy_of;
use crate::scope::{Algorithm, Call, Effect, PromiseRef, Scope};
use crate::support::{callback_member, member_algorithm};
use crate::value::{Message, Value};
use crate::writable::default_controller::{
    WritableControllerModel, WritableStreamDefaultController,
};
use crate::writable::default_writer::WritableStreamDefaultWriter;
use crate::writable::laws::law_controller_error;
use crate::writable::underlying_sink::{empty_sink, SinkArgument, UnderlyingSink};
use crate::writable::world::{AbortStep, WritableModel, WritableWorld};

verus! {

/// The state of a writable stream.
#[derive(Clone, Copy, Debug, PartialEq, Eq, Structural)]
pub enum WritableStreamState {
    Writable,
    Closed,
    Erroring,
    Errored,
}

impl Default for WritableStreamState {
    fn default() -> (state: WritableStreamState)
        ensures
            state is Writable,
    {
        WritableStreamState::Writable
    }
}

impl WritableStreamState {
    /// The name of the state.
    pub open spec fn spec_name(self) -> Seq<char> {
        match self {
            WritableStreamState::Writable => "writable"@,
            WritableStreamState::Closed => "closed"@,
            WritableStreamState::Erroring => "erroring"@,
            WritableStreamState::Errored => "errored"@,
        }
    }

    pub fn name(self) -> (name: &'static str)
        ensures
            name@ == self.spec_name(),
    {
        match self {
            WritableStreamState::Writable => "writable",
            WritableStreamState::Closed => "closed",
            WritableStreamState::Erroring => "erroring",
            WritableStreamState::Errored => "errored",
        }
    }

    /// The state of the given name.
    pub fn from_name(name: &String) -> (state: Result<WritableStreamState, Value>)
        ensures
            match state {
                Ok(state) => state.spec_name() == name@,
                Err(error) => {
                    &&& error == Value::TypeError(Message::InvalidWritableState)
                    &&& forall|state: WritableStreamState| #[trigger] state.spec_name() != name@
                },
            },
    {
        if *name == "writable".to_string() {
            Ok(WritableStreamState::Writable)
        } else if *name == "closed".to_string() {
            Ok(WritableStreamState::Closed)
        } else if *name == "erroring".to_string() {
            Ok(WritableStreamState::Erroring)
        } else if *name == "errored".to_string() {
            Ok(WritableStreamState::Errored)
        } else {
            Err(Value::TypeError(Message::InvalidWritableState))
        }
    }
}

/// No two states have the same name.
pub proof fn law_state_names(first: WritableStreamState, second: WritableStreamState)
    ensures
        first.spec_name() == second.spec_name() ==> first == second,
{
    reveal_strlit("writable");
    reveal_strlit("closed");
    reveal_strlit("erroring");
    reveal_strlit("errored");
    if first != second && first.spec_name() == second.spec_name() {
        assert(first.spec_name().len() == second.spec_name().len());
        assert(first.spec_name()[0] == second.spec_name()[0]);
    }
}

/// A request to abort a writable stream that waits for what is under way.
#[derive(Debug, PartialEq, Eq)]
pub struct PendingAbortRequest {
    pub promise: PromiseRef,
    pub reason: Value,
    pub was_already_erroring: bool,
}

/// A writable stream.
pub struct WritableStream {
    /// The name of the stream in effects.
    pub id: u64,
    pub backpressure: bool,
    /// The promise of a close that waits for its turn.
    pub close_request: Option<PromiseRef>,
    pub controller: WritableStreamDefaultController,
    /// Whether the stream has been transferred elsewhere.
    pub detached: bool,
    /// The promise of the write that the sink is at.
    pub in_flight_write_request: Option<PromiseRef>,
    /// The promise of the close that the sink is at.
    pub in_flight_close_request: Option<PromiseRef>,
    pub pending_abort_request: Option<PendingAbortRequest>,
    pub state: WritableStreamState,
    /// How the stream failed, once it has.
    pub stored_error: Value,
    pub writer: Option<WritableStreamDefaultWriter>,
    /// The promises of the writes that wait for their turn.
    pub write_requests: VecDeque<PromiseRef>,
    /// The transform stream whose writable side this is, if that hands chunks on unchanged.
    pub identity_transform: Option<u64>,
}

impl View for WritableStream {
    type V = WritableModel;

    open spec fn view(&self) -> WritableModel {
        WritableModel {
            id: self.id,
            backpressure: self.backpressure,
            close_request: self.close_request,
            controller: self.controller@,
            detached: self.detached,
            in_flight_write: self.in_flight_write_request,
            in_flight_close: self.in_flight_close_request,
            pending_abort: self.pending_abort_request,
            state: self.state,
            stored_error: self.stored_error,
            writer: self.writer,
            write_requests: self.write_requests@,
            identity_transform: self.identity_transform,
        }
    }
}

/// A stream and a scope, to state what an operation does to them.
pub open spec fn writable_world(stream: WritableStream, scope: Scope) -> WritableWorld {
    WritableWorld { stream: stream@, scope: scope@ }
}

/// The algorithms of a sink.
#[derive(Clone, Copy, Debug, PartialEq, Eq, Structural)]
pub struct SinkAlgorithms {
    pub start: Algorithm,
    pub write: Algorithm,
    pub close: Algorithm,
    pub abort: Algorithm,
}

/// The call of the start algorithm of a sink.
pub open spec fn sink_start_effect(stream: u64, start: Algorithm, receiver: Value) -> Effect {
    Effect::Invoke { call: Call::WritableStart { stream }, algorithm: start, receiver }
}

/// A new writable stream with the given algorithms.
pub open spec fn new_writable(
    id: u64,
    algorithms: SinkAlgorithms,
    receiver: Value,
    hwm: Number,
    size: Algorithm,
) -> WritableModel {
    WritableModel {
        id,
        backpressure: hwm.minus(Number { bits: 0 }).not_positive(),
        close_request: None,
        controller: WritableControllerModel {
            abort_algorithm: algorithms.abort,
            close_algorithm: algorithms.close,
            queue: Seq::empty(),
            total: Number { bits: 0 },
            started: false,
            hwm,
            size_algorithm: size,
            receiver,
            write_algorithm: algorithms.write,
        },
        detached: false,
        in_flight_write: None,
        in_flight_close: None,
        pending_abort: None,
        state: WritableStreamState::Writable,
        stored_error: Value::Undefined,
        writer: None,
        write_requests: Seq::empty(),
        identity_transform: None,
    }
}

/// Makes a writable stream with its controller, and has its sink started.
pub fn set_up_writable_stream_default_controller(
    scope: &mut Scope,
    id: u64,
    algorithms: SinkAlgorithms,
    receiver: Value,
    hwm: Number,
    size: Algorithm,
) -> (stream: WritableStream)
    ensures
        stream@ == new_writable(id, algorithms, receiver, hwm, size),
        final(scope)@ == old(scope)@.emit(sink_start_effect(id, algorithms.start, receiver)),
        stream@.wf(),
{
    let queue: VecDeque<ValueWithSize> = VecDeque::new();
    let write_requests: VecDeque<PromiseRef> = VecDeque::new();
    let controller: WritableStreamDefaultController = WritableStreamDefaultController {
        abort_algorithm: algorithms.abort,
        close_algorithm: algorithms.close,
        queue,
        queue_total_size: Number { bits: 0 },
        started: false,
        strategy_hwm: hwm,
        strategy_size_algorithm: size,
        algorithm_receiver: receiver.clone(),
        write_algorithm: algorithms.write,
    };
    let mut stream: WritableStream = WritableStream {
        id,
        backpressure: false,
        close_request: None,
        controller,
        detached: false,
        in_flight_write_request: None,
        in_flight_close_request: None,
        pending_abort_request: None,
        state: WritableStreamState::Writable,
        stored_error: Value::Undefined,
        writer: None,
        write_requests,
        identity_transform: None,
    };
    let backpressure: bool = stream.writable_stream_default_controller_get_backpressure();
    stream.writable_stream_update_backpressure(scope, backpressure);
    scope.emit(
        Effect::Invoke {
            call: Call::WritableStart { stream: id },
            algorithm: algorithms.start,
            receiver,
        },
    );
    stream
}

/// Makes a writable stream with the given algorithms.
pub fn create_writable_stream(
    scope: &mut Scope,
    id: u64,
    algorithms: SinkAlgorithms,
    hwm: Number,
    size: Algorithm,
) -> (stream: WritableStream)
    ensures
        stream@ == new_writable(id, algorithms, Value::Undefined, hwm, size),
        final(scope)@ == old(scope)@.emit(
            sink_start_effect(id, algorithms.start, Value::Undefined),
        ),
        stream@.wf(),
{
    set_up_writable_stream_default_controller(scope, id, algorithms, Value::Undefined, hwm, size)
}

/// The algorithms of a sink, or the error of the first member that is no function.
pub open spec fn sink_algorithms(sink: UnderlyingSink) -> Result<SinkAlgorithms, Value> {
    match member_algorithm(sink.start, Message::SinkStartNotFunction) {
        Err(error) => Err(error),
        Ok(start) => match member_algorithm(sink.write, Message::SinkWriteNotFunction) {
            Err(error) => Err(error),
            Ok(write) => match member_algorithm(sink.close, Message::SinkCloseNotFunction) {
                Err(error) => Err(error),
                Ok(close) => match member_algorithm(sink.abort, Message::SinkAbortNotFunction) {
                    Err(error) => Err(error),
                    Ok(abort) => Ok(SinkAlgorithms { start, write, close, abort }),
                },
            },
        },
    }
}

/// Makes a writable stream from the sink that the author gave.
pub fn set_up_writable_stream_default_controller_from_underlying_sink(
    scope: &mut Scope,
    id: u64,
    receiver: Value,
    sink: &UnderlyingSink,
    hwm: Number,
    size: Algorithm,
) -> (result: Result<WritableStream, Value>)
    ensures
        match sink_algorithms(*sink) {
            Err(error) => {
                &&& result == Err::<WritableStream, Value>(error)
                &&& final(scope)@ == old(scope)@
            },
            Ok(algorithms) => {
                &&& result matches Ok(stream) && stream@ == new_writable(
                    id,
                    algorithms,
                    receiver,
                    hwm,
                    size,
                ) && stream@.wf()
                &&& final(scope)@ == old(scope)@.emit(
                    sink_start_effect(id, algorithms.start, receiver),
                )
            },
        },
{
    let start: Algorithm = match callback_member(sink.start, Message::SinkStartNotFunction) {
        Ok(algorithm) => algorithm,
        Err(error) => {
            return Err(error);
        },
    };
    let write: Algorithm = match callback_member(sink.write, Message::SinkWriteNotFunction) {
        Ok(algorithm) => algorithm,
        Err(error) => {
            return Err(error);
        },
    };
    let close: Algorithm = match callback_member(sink.close, Message::SinkCloseNotFunction) {
        Ok(algorithm) => algorithm,
        Err(error) => {
            return Err(error);
        },
    };
    let abort: Algorithm = match callback_member(sink.abort, Message::SinkAbortNotFunction) {
        Ok(algorithm) => algorithm,
        Err(error) => {
            return Err(error);
        },
    };
    Ok(
        set_up_writable_stream_default_controller(
            scope,
            id,
            SinkAlgorithms { start, write, close, abort },
            receiver,
            hwm,
            size,
        ),
    )
}

/// The `this` of the algorithms of a sink and its members, or what is wrong with it.
pub open spec fn sink_of(sink: SinkArgument) -> Result<(Value, UnderlyingSink), Value> {
    match sink {
        SinkArgument::Missing => Ok((Value::Undefined, empty_sink())),
        SinkArgument::NotObject => Err(Value::TypeError(Message::SinkNotObject)),
        SinkArgument::Object { handle, members } => match members {
            Ok(members) => Ok((Value::Handle(handle), members)),
            Err(Some(error)) => Err(error),
            Err(None) => Err(Value::TypeError(Message::InvalidSink)),
        },
    }
}

/// The stream that a sink and a strategy make, with the call that starts the sink; or the
/// error that is thrown instead.
pub open spec fn constructed_writable(
    id: u64,
    sink: SinkArgument,
    strategy: Option<QueuingStrategy>,
) -> Result<(WritableModel, Effect), Value> {
    match sink_of(sink) {
        Err(error) => Err(error),
        Ok((receiver, members)) => if members.has_kind {
            Err(Value::RangeError(Message::InvalidSinkType))
        } else {
            match strategy_of(strategy) {
                Err(error) => Err(error),
                Ok((size, hwm)) => match sink_algorithms(members) {
                    Err(error) => Err(error),
                    Ok(algorithms) => Ok(
                        (
                            new_writable(id, algorithms, receiver, hwm, size),
                            sink_start_effect(id, algorithms.start, receiver),
                        ),
                    ),
                },
            }
        },
    }
}

impl WritableStream {
    /// Makes a stream from a sink and a strategy of the author.
    pub fn new(
        scope: &mut Scope,
        id: u64,
        underlying_sink: SinkArgument,
        strategy: Option<QueuingStrategy>,
    ) -> (result: Result<WritableStream, Value>)
        ensures
            match constructed_writable(id, underlying_sink, strategy) {
                Err(error) => {
                    &&& result == Err::<WritableStream, Value>(error)
                    &&& final(scope)@ == old(scope)@
                },
                Ok((stream, effect)) => {
                    &&& result matches Ok(made) && made@ == stream && made@.wf()
                    &&& final(scope)@ == old(scope)@.emit(effect)
                },
            },
    {
        let (receiver, members): (Value, UnderlyingSink) = match underlying_sink {
            SinkArgument::Missing => (
                Value::Undefined,
                UnderlyingSink {
                    start: None,
                    write: None,
                    close: None,
                    abort: None,
                    has_kind: false,
                },
            ),
            SinkArgument::NotObject => {
                return Err(Value::TypeError(Message::SinkNotObject));
            },
            SinkArgument::Object { handle, members } => match members {
                Ok(members) => (Value::Handle(handle), members),
                Err(Some(error)) => {
                    return Err(error);
                },
                Err(None) => {
                    return Err(Value::TypeError(Message::InvalidSink));
                },
            },
        };
        if members.has_kind {
            return Err(Value::RangeError(Message::InvalidSinkType));
        }
        let size: Algorithm = match extract_size_algorithm(&strategy) {
            Ok(size) => size,
            Err(error) => {
                return Err(error);
            },
        };
        let hwm: Number = match extract_high_water_mark(
            &strategy,
            Number { bits: ONE },
        ) {
            Ok(hwm) => hwm,
            Err(error) => {
                return Err(error);
            },
        };
        set_up_writable_stream_default_controller_from_underlying_sink(
            scope,
            id,
            receiver,
            &members,
            hwm,
            size,
        )
    }

    /// Whether the stream is locked to a writer.
    pub fn locked(&self) -> (locked: bool)
        ensures
            locked == self@.locked(),
    {
        self.is_writable_stream_locked()
    }

    /// Aborts the stream on behalf of its owner, who has to hold it unlocked. Where the
    /// abort is being signaled, `writable_stream_abort_signaled` is to be called next.
    pub fn abort(&mut self, scope: &mut Scope, reason: Value, promise: u64) -> (step: AbortStep)
        ensures
            (writable_world(*final(self), *final(scope)), step) == ({
                let w = writable_world(*old(self), *old(scope));
                if w.stream.locked() {
                    (
                        w.reject(
                            PromiseRef::Request(promise),
                            Value::TypeError(Message::AbortLocked),
                        ),
                        AbortStep::Done,
                    )
                } else {
                    w.abort(reason, PromiseRef::Request(promise))
                }
            }),
    {
        if self.is_writable_stream_locked() {
            scope.emit(
                Effect::Reject(
                    PromiseRef::Request(promise),
                    Value::TypeError(Message::AbortLocked),
                ),
            );
            return AbortStep::Done;
        }
        self.writable_stream_abort(scope, reason, PromiseRef::Request(promise))
    }

    /// Closes the stream on behalf of its owner, who has to hold it unlocked.
    pub fn close(&mut self, scope: &mut Scope, promise: u64)
        requires
            old(self)@.wf(),
        ensures
            writable_world(*final(self), *final(scope)) == ({
                let w = writable_world(*old(self), *old(scope));
                if w.stream.locked() {
                    w.reject(PromiseRef::Request(promise), Value::TypeError(Message::CloseLocked))
                } else if w.stream.close_queued_or_in_flight() {
                    w.reject(
                        PromiseRef::Request(promise),
                        Value::TypeError(Message::CloseAlreadyClosing),
                    )
                } else {
                    w.close(PromiseRef::Request(promise))
                }
            }),
            final(self)@.wf(),
    {
        let request: PromiseRef = PromiseRef::Request(promise);
        if self.is_writable_stream_locked() {
            scope.emit(Effect::Reject(request, Value::TypeError(Message::CloseLocked)));
            return ;
        }
        if self.writable_stream_close_queued_or_in_flight() {
            scope.emit(Effect::Reject(request, Value::TypeError(Message::CloseAlreadyClosing)));
            return ;
        }
        self.writable_stream_close(scope, PromiseRef::Request(promise));
    }

    /// Locks the stream to a new writer.
    pub fn get_writer(&mut self, scope: &mut Scope) -> (result: Result<(), Value>)
        ensures
            (writable_world(*final(self), *final(scope)), result) == writable_world(
                *old(self),
                *old(scope),
            ).acquire_writer(),
            old(self)@.wf() ==> final(self)@.wf(),
    {
        self.set_up_writable_stream_default_writer(scope)
    }

    /// Fails the stream on behalf of its sink, if it can still fail.
    pub fn error(&mut self, scope: &mut Scope, error: Value)
        ensures
            writable_world(*final(self), *final(scope)) == writable_world(
                *old(self),
                *old(scope),
            ).controller_error_if_needed(error),
            old(self)@.wf() ==> final(self)@.wf(),
    {
        proof {
            if self@.wf() {
                law_controller_error(writable_world(*self, *scope), error);
            }
        }
        if self.state != WritableStreamState::Writable {
            return ;
        }
        self.writable_stream_default_controller_error(scope, error);
    }
}

} // verus!
