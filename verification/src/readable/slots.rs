//! The internal slots of a readable stream, apart from its controller, and the
//! operations that need no controller.

use std::collections::VecDeque;

use vstd::prelude::*;

use crate::readable::byob_reader::BYOBReader;
use crate::readable::default_reader::DefaultReader;
use crate::readable::read_request::{
    chunk_effect, close_effect, error_effect, into_chunk_effect, into_close_effect,
    into_error_effect, ReadIntoRequest, ReadRequest,
};
use crate::readable::readable_stream::ReadableStreamState;
use crate::scope::{Effect, PromiseRef, Scope};
use crate::value::{Message, Value};

verus! {

/// The reader to which a stream is locked.
pub enum StreamReader {
    Default(DefaultReader),
    Byob(BYOBReader),
}

/// The slots of a readable stream.
pub struct StreamSlots {
    /// The name of the stream in effects.
    pub id: u64,
    /// Whether the stream has been transferred elsewhere.
    pub detached: bool,
    /// Whether the stream has been read from or canceled.
    pub disturbed: bool,
    pub reader: Option<StreamReader>,
    pub state: ReadableStreamState,
    /// How the stream failed, once it has.
    pub stored_error: Value,
    /// The native byte source behind the stream, if there is one.
    pub native_byte_source: Option<u64>,
    /// The identity transform that the stream is piped to, if it has a native source.
    pub piped_to_identity_transform: Option<u64>,
}

/// The requests that wait in the reader of a stream.
#[verifier::ext_equal]
pub enum ReaderModel {
    Unlocked,
    Default(Seq<ReadRequest>),
    Byob(Seq<ReadIntoRequest>),
}

/// What there is to know of the slots of a readable stream.
#[verifier::ext_equal]
pub struct SlotsModel {
    pub id: u64,
    pub detached: bool,
    pub disturbed: bool,
    pub reader: ReaderModel,
    pub state: ReadableStreamState,
    pub stored_error: Value,
    pub native_byte_source: Option<u64>,
    pub piped_to_identity_transform: Option<u64>,
}

pub open spec fn reader_model(reader: Option<StreamReader>) -> ReaderModel {
    match reader {
        None => ReaderModel::Unlocked,
        Some(StreamReader::Default(reader)) => ReaderModel::Default(reader.read_requests@),
        Some(StreamReader::Byob(reader)) => ReaderModel::Byob(reader.read_into_requests@),
    }
}

impl View for StreamSlots {
    type V = SlotsModel;

    open spec fn view(&self) -> SlotsModel {
        SlotsModel {
            id: self.id,
            detached: self.detached,
            disturbed: self.disturbed,
            reader: reader_model(self.reader),
            state: self.state,
            stored_error: self.stored_error,
            native_byte_source: self.native_byte_source,
            piped_to_identity_transform: self.piped_to_identity_transform,
        }
    }
}

/// What the close of a stream does to each of its waiting requests, in order.
pub open spec fn close_effects(requests: Seq<ReadRequest>) -> Seq<Effect> {
    Seq::new(requests.len(), |i: int| close_effect(requests[i]))
}

/// What the failure of a stream does to each of its waiting requests, in order.
pub open spec fn error_effects(requests: Seq<ReadRequest>, error: Value) -> Seq<Effect> {
    Seq::new(requests.len(), |i: int| error_effect(requests[i], error))
}

pub open spec fn into_close_effects(requests: Seq<ReadIntoRequest>, chunk: Value) -> Seq<Effect> {
    Seq::new(requests.len(), |i: int| into_close_effect(requests[i], chunk))
}

pub open spec fn into_error_effects(requests: Seq<ReadIntoRequest>, error: Value) -> Seq<Effect> {
    Seq::new(requests.len(), |i: int| into_error_effect(requests[i], error))
}

/// The error with which the `closed` promise of a released reader is rejected.
pub open spec fn released_closed_error() -> Value {
    Value::TypeError(Message::ReaderReleasedClosed)
}

/// The error with which the requests of a released reader fail.
pub open spec fn released_error() -> Value {
    Value::TypeError(Message::ReaderReleased)
}

impl SlotsModel {
    pub open spec fn locked(self) -> bool {
        self.reader !is Unlocked
    }

    /// The read requests that wait, none where the reader is no default reader.
    pub open spec fn requests(self) -> Seq<ReadRequest> {
        match self.reader {
            ReaderModel::Default(requests) => requests,
            _ => Seq::empty(),
        }
    }

    /// The read-into requests that wait, none where the reader is no BYOB reader.
    pub open spec fn into_requests(self) -> Seq<ReadIntoRequest> {
        match self.reader {
            ReaderModel::Byob(requests) => requests,
            _ => Seq::empty(),
        }
    }

    /// The slots of a closed stream: the requests of a default reader are gone,
    /// those of a BYOB reader stay for the controller to answer.
    pub open spec fn closed(self) -> SlotsModel {
        SlotsModel {
            state: ReadableStreamState::Closed,
            reader: match self.reader {
                ReaderModel::Default(_) => ReaderModel::Default(Seq::empty()),
                other => other,
            },
            ..self
        }
    }

    /// What happens when the stream closes.
    pub open spec fn on_close(self) -> Seq<Effect> {
        match self.reader {
            ReaderModel::Unlocked => Seq::empty(),
            _ => seq![Effect::Resolve(PromiseRef::ReaderClosed(self.id), Value::Undefined)]
                + close_effects(self.requests()),
        }
    }

    /// The slots of a stream that has failed with `error`.
    pub open spec fn errored(self, error: Value) -> SlotsModel {
        SlotsModel {
            state: ReadableStreamState::Errored,
            stored_error: error,
            reader: match self.reader {
                ReaderModel::Unlocked => ReaderModel::Unlocked,
                ReaderModel::Default(_) => ReaderModel::Default(Seq::empty()),
                ReaderModel::Byob(_) => ReaderModel::Byob(Seq::empty()),
            },
            ..self
        }
    }

    /// What happens when the stream fails.
    pub open spec fn on_error(self, error: Value) -> Seq<Effect> {
        match self.reader {
            ReaderModel::Unlocked => Seq::empty(),
            _ => seq![
                Effect::Reject(PromiseRef::ReaderClosed(self.id), error),
                Effect::MarkHandled(PromiseRef::ReaderClosed(self.id)),
            ] + error_effects(self.requests(), error) + into_error_effects(
                self.into_requests(),
                error,
            ),
        }
    }

    /// The slots with the first read request taken out.
    pub open spec fn without_first_request(self) -> SlotsModel {
        SlotsModel { reader: ReaderModel::Default(self.requests().drop_first()), ..self }
    }

    /// The slots with the first read-into request taken out.
    pub open spec fn without_first_into_request(self) -> SlotsModel {
        SlotsModel { reader: ReaderModel::Byob(self.into_requests().drop_first()), ..self }
    }

    /// The slots with one more read request.
    pub open spec fn with_request(self, request: ReadRequest) -> SlotsModel {
        SlotsModel { reader: ReaderModel::Default(self.requests().push(request)), ..self }
    }

    /// The slots with one more read-into request.
    pub open spec fn with_into_request(self, request: ReadIntoRequest) -> SlotsModel {
        SlotsModel { reader: ReaderModel::Byob(self.into_requests().push(request)), ..self }
    }

    /// What setting up a reader does to its `closed` promise.
    pub open spec fn on_initialize(self) -> Seq<Effect> {
        let closed = PromiseRef::ReaderClosed(self.id);
        match self.state {
            ReadableStreamState::Readable => seq![Effect::NewPromise(closed)],
            ReadableStreamState::Closed => seq![
                Effect::NewPromise(closed),
                Effect::Resolve(closed, Value::Undefined),
            ],
            ReadableStreamState::Errored => seq![
                Effect::NewPromise(closed),
                Effect::Reject(closed, self.stored_error),
                Effect::MarkHandled(closed),
            ],
        }
    }

    /// What releasing a reader does to its `closed` promise.
    pub open spec fn on_release(self) -> Seq<Effect> {
        let closed = PromiseRef::ReaderClosed(self.id);
        if self.state is Readable {
            seq![Effect::Reject(closed, released_closed_error()), Effect::MarkHandled(closed)]
        } else {
            seq![
                Effect::NewPromise(closed),
                Effect::Reject(closed, released_closed_error()),
                Effect::MarkHandled(closed),
            ]
        }
    }

    /// What releasing a reader does to its requests.
    pub open spec fn on_release_requests(self) -> Seq<Effect> {
        error_effects(self.requests(), released_error()) + into_error_effects(
            self.into_requests(),
            released_error(),
        )
    }

    pub open spec fn unlocked(self) -> SlotsModel {
        SlotsModel { reader: ReaderModel::Unlocked, ..self }
    }
}

/// The slots of a stream that has just been made.
pub open spec fn initial_slots(id: u64) -> SlotsModel {
    SlotsModel {
        id,
        detached: false,
        disturbed: false,
        reader: ReaderModel::Unlocked,
        state: ReadableStreamState::Readable,
        stored_error: Value::Undefined,
        native_byte_source: None,
        piped_to_identity_transform: None,
    }
}

/// Runs the close steps of every request, first come first served.
fn settle_closed(scope: &mut Scope, requests: VecDeque<ReadRequest>)
    ensures
        final(scope)@ == old(scope)@.emit_all(close_effects(requests@)),
{
    let ghost all = requests@;
    let mut waiting: VecDeque<ReadRequest> = requests;
    let ghost mut settled: int = 0;
    while waiting.len() > 0
        invariant
            0 <= settled <= all.len(),
            waiting@ == all.skip(settled),
            scope@ == old(scope)@.emit_all(close_effects(all.take(settled))),
        decreases waiting.len(),
    {
        match waiting.pop_front() {
            Some(request) => {
                request.close_steps(scope);
                proof {
                    settled = settled + 1;
                }
                assert(close_effects(all.take(settled)) =~= close_effects(
                    all.take(settled - 1),
                ).push(close_effect(request)));
                assert(scope@ =~= old(scope)@.emit_all(close_effects(all.take(settled))));
            },
            None => {},
        }
    }
    assert(all.take(settled) =~= all);
}

/// Runs the error steps of every request, first come first served.
fn settle_errored(scope: &mut Scope, requests: VecDeque<ReadRequest>, error: &Value)
    ensures
        final(scope)@ == old(scope)@.emit_all(error_effects(requests@, *error)),
{
    let ghost all = requests@;
    let mut waiting: VecDeque<ReadRequest> = requests;
    let ghost mut settled: int = 0;
    while waiting.len() > 0
        invariant
            0 <= settled <= all.len(),
            waiting@ == all.skip(settled),
            scope@ == old(scope)@.emit_all(error_effects(all.take(settled), *error)),
        decreases waiting.len(),
    {
        match waiting.pop_front() {
            Some(request) => {
                request.error_steps(scope, error.clone());
                proof {
                    settled = settled + 1;
                }
                assert(error_effects(all.take(settled), *error) =~= error_effects(
                    all.take(settled - 1),
                    *error,
                ).push(error_effect(request, *error)));
                assert(scope@ =~= old(scope)@.emit_all(
                    error_effects(all.take(settled), *error),
                ));
            },
            None => {},
        }
    }
    assert(all.take(settled) =~= all);
}

/// Runs the close steps of every read-into request, first come first served.
fn settle_into_closed(scope: &mut Scope, requests: VecDeque<ReadIntoRequest>, chunk: &Value)
    ensures
        final(scope)@ == old(scope)@.emit_all(into_close_effects(requests@, *chunk)),
{
    let ghost all = requests@;
    let mut waiting: VecDeque<ReadIntoRequest> = requests;
    let ghost mut settled: int = 0;
    while waiting.len() > 0
        invariant
            0 <= settled <= all.len(),
            waiting@ == all.skip(settled),
            scope@ == old(scope)@.emit_all(into_close_effects(all.take(settled), *chunk)),
        decreases waiting.len(),
    {
        match waiting.pop_front() {
            Some(request) => {
                request.close_steps(scope, chunk.clone());
                proof {
                    settled = settled + 1;
                }
                assert(into_close_effects(all.take(settled), *chunk) =~= into_close_effects(
                    all.take(settled - 1),
                    *chunk,
                ).push(into_close_effect(request, *chunk)));
                assert(scope@ =~= old(scope)@.emit_all(
                    into_close_effects(all.take(settled), *chunk),
                ));
            },
            None => {},
        }
    }
    assert(all.take(settled) =~= all);
}

/// Runs the error steps of every read-into request, first come first served.
fn settle_into_errored(scope: &mut Scope, requests: VecDeque<ReadIntoRequest>, error: &Value)
    ensures
        final(scope)@ == old(scope)@.emit_all(into_error_effects(requests@, *error)),
{
    let ghost all = requests@;
    let mut waiting: VecDeque<ReadIntoRequest> = requests;
    let ghost mut settled: int = 0;
    while waiting.len() > 0
        invariant
            0 <= settled <= all.len(),
            waiting@ == all.skip(settled),
            scope@ == old(scope)@.emit_all(into_error_effects(all.take(settled), *error)),
        decreases waiting.len(),
    {
        match waiting.pop_front() {
            Some(request) => {
                request.error_steps(scope, error.clone());
                proof {
                    settled = settled + 1;
                }
                assert(into_error_effects(all.take(settled), *error) =~= into_error_effects(
                    all.take(settled - 1),
                    *error,
                ).push(into_error_effect(request, *error)));
                assert(scope@ =~= old(scope)@.emit_all(
                    into_error_effects(all.take(settled), *error),
                ));
            },
            None => {},
        }
    }
    assert(all.take(settled) =~= all);
}

impl StreamSlots {
    /// The slots of a new stream.
    pub fn initialize_readable_stream(id: u64) -> (slots: StreamSlots)
        ensures
            slots@ == initial_slots(id),
    {
        StreamSlots {
            id,
            detached: false,
            disturbed: false,
            reader: None,
            state: ReadableStreamState::Readable,
            stored_error: Value::Undefined,
            native_byte_source: None,
            piped_to_identity_transform: None,
        }
    }

    pub fn is_locked(&self) -> (locked: bool)
        ensures
            locked == self@.locked(),
    {
        self.reader.is_some()
    }

    pub fn has_default_reader(&self) -> (has: bool)
        ensures
            has == (self@.reader is Default),
    {
        match &self.reader {
            Some(StreamReader::Default(_)) => true,
            _ => false,
        }
    }

    pub fn has_byob_reader(&self) -> (has: bool)
        ensures
            has == (self@.reader is Byob),
    {
        match &self.reader {
            Some(StreamReader::Byob(_)) => true,
            _ => false,
        }
    }

    /// The number of read requests that wait.
    pub fn num_read_requests(&self) -> (count: usize)
        ensures
            count == self@.requests().len(),
    {
        match &self.reader {
            Some(StreamReader::Default(reader)) => reader.read_requests.len(),
            _ => 0,
        }
    }

    /// The number of read-into requests that wait.
    pub fn num_read_into_requests(&self) -> (count: usize)
        ensures
            count == self@.into_requests().len(),
    {
        match &self.reader {
            Some(StreamReader::Byob(reader)) => reader.read_into_requests.len(),
            _ => 0,
        }
    }

    pub fn add_read_request(&mut self, request: ReadRequest)
        requires
            old(self)@.reader is Default,
        ensures
            final(self)@ == old(self)@.with_request(request),
    {
        match &mut self.reader {
            Some(StreamReader::Default(reader)) => {
                reader.read_requests.push_back(request);
            },
            _ => {},
        }
    }

    pub fn add_read_into_request(&mut self, request: ReadIntoRequest)
        requires
            old(self)@.reader is Byob,
        ensures
            final(self)@ == old(self)@.with_into_request(request),
    {
        match &mut self.reader {
            Some(StreamReader::Byob(reader)) => {
                reader.read_into_requests.push_back(request);
            },
            _ => {},
        }
    }

    /// Takes out the first read request.
    pub fn pop_read_request(&mut self) -> (request: ReadRequest)
        requires
            old(self)@.requests().len() > 0,
        ensures
            request == old(self)@.requests()[0],
            final(self)@ == old(self)@.without_first_request(),
    {
        match &mut self.reader {
            Some(StreamReader::Default(reader)) => match reader.read_requests.pop_front() {
                Some(request) => {
                    assert(reader.read_requests@ =~= old(self)@.requests().drop_first());
                    request
                },
                None => ReadRequest::Read { promise: 0 },
            },
            _ => ReadRequest::Read { promise: 0 },
        }
    }

    /// Takes out the first read-into request.
    pub fn pop_read_into_request(&mut self) -> (request: ReadIntoRequest)
        requires
            old(self)@.into_requests().len() > 0,
        ensures
            request == old(self)@.into_requests()[0],
            final(self)@ == old(self)@.without_first_into_request(),
    {
        match &mut self.reader {
            Some(StreamReader::Byob(reader)) => match reader.read_into_requests.pop_front() {
                Some(request) => {
                    assert(reader.read_into_requests@ =~= old(self)@.into_requests().drop_first());
                    request
                },
                None => ReadIntoRequest::Read { promise: 0 },
            },
            _ => ReadIntoRequest::Read { promise: 0 },
        }
    }

    /// Closes the stream.
    pub fn readable_stream_close(&mut self, scope: &mut Scope)
        requires
            old(self)@.state is Readable,
        ensures
            final(self)@ == old(self)@.closed(),
            final(scope)@ == old(scope)@.emit_all(old(self)@.on_close()),
    {
        self.state = ReadableStreamState::Closed;
        if self.reader.is_none() {
            assert(scope@ =~= old(scope)@.emit_all(old(self)@.on_close()));
            return ;
        }
        scope.emit(Effect::Resolve(PromiseRef::ReaderClosed(self.id), Value::Undefined));
        match &mut self.reader {
            Some(StreamReader::Default(reader)) => {
                let mut requests: VecDeque<ReadRequest> = VecDeque::new();
                std::mem::swap(&mut requests, &mut reader.read_requests);
                settle_closed(scope, requests);
            },
            _ => {},
        }
        assert(scope@ =~= old(scope)@.emit_all(old(self)@.on_close()));
    }

    /// Fails the stream.
    pub fn readable_stream_error(&mut self, scope: &mut Scope, error: Value)
        requires
            old(self)@.state is Readable,
        ensures
            final(self)@ == old(self)@.errored(error),
            final(scope)@ == old(scope)@.emit_all(old(self)@.on_error(error)),
    {
        self.state = ReadableStreamState::Errored;
        self.stored_error = error.clone();
        if self.reader.is_none() {
            assert(scope@ =~= old(scope)@.emit_all(old(self)@.on_error(error)));
            return ;
        }
        scope.emit(Effect::Reject(PromiseRef::ReaderClosed(self.id), error.clone()));
        scope.emit(Effect::MarkHandled(PromiseRef::ReaderClosed(self.id)));
        match &mut self.reader {
            Some(StreamReader::Default(reader)) => {
                reader.readable_stream_default_reader_error_read_requests(scope, &error);
            },
            Some(StreamReader::Byob(reader)) => {
                reader.readable_stream_byob_reader_error_read_into_requests(scope, &error);
            },
            None => {},
        }
        assert(scope@ =~= old(scope)@.emit_all(old(self)@.on_error(error)));
    }

    /// Answers the first read request with a chunk, or with the close of the stream.
    pub fn readable_stream_fulfill_read_request(
        &mut self,
        scope: &mut Scope,
        chunk: Value,
        done: bool,
    )
        requires
            old(self)@.requests().len() > 0,
        ensures
            final(self)@ == old(self)@.without_first_request(),
            final(scope)@ == old(scope)@.emit(
                if done {
                    close_effect(old(self)@.requests()[0])
                } else {
                    chunk_effect(old(self)@.requests()[0], chunk)
                },
            ),
    {
        let request: ReadRequest = self.pop_read_request();
        if done {
            request.close_steps(scope);
        } else {
            request.chunk_steps(scope, chunk);
        }
    }

    /// Answers the first read-into request with a view, filled or handed back at the
    /// close of the stream.
    pub fn readable_stream_fulfill_read_into_request(
        &mut self,
        scope: &mut Scope,
        chunk: Value,
        done: bool,
    )
        requires
            old(self)@.into_requests().len() > 0,
        ensures
            final(self)@ == old(self)@.without_first_into_request(),
            final(scope)@ == old(scope)@.emit(
                if done {
                    into_close_effect(old(self)@.into_requests()[0], chunk)
                } else {
                    into_chunk_effect(old(self)@.into_requests()[0], chunk)
                },
            ),
    {
        let request: ReadIntoRequest = self.pop_read_into_request();
        if done {
            request.close_steps(scope, chunk);
        } else {
            request.chunk_steps(scope, chunk);
        }
    }

    /// Answers the read-into requests of a stream that was canceled: each is handed
    /// `undefined` in place of its view.
    pub fn close_read_into_requests(&mut self, scope: &mut Scope)
        ensures
            final(self)@ == (SlotsModel {
                reader: match old(self)@.reader {
                    ReaderModel::Byob(_) => ReaderModel::Byob(Seq::empty()),
                    other => other,
                },
                ..old(self)@
            }),
            final(scope)@ == old(scope)@.emit_all(
                into_close_effects(old(self)@.into_requests(), Value::Undefined),
            ),
    {
        match &mut self.reader {
            Some(StreamReader::Byob(reader)) => {
                let mut requests: VecDeque<ReadIntoRequest> = VecDeque::new();
                std::mem::swap(&mut requests, &mut reader.read_into_requests);
                settle_into_closed(scope, requests, &Value::Undefined);
            },
            _ => {},
        }
        assert(scope@ =~= old(scope)@.emit_all(
            into_close_effects(old(self)@.into_requests(), Value::Undefined),
        ));
    }

    /// Locks the stream to `reader` and sets up the reader's `closed` promise.
    pub fn readable_stream_reader_generic_initialize(
        &mut self,
        scope: &mut Scope,
        reader: StreamReader,
    )
        ensures
            final(self)@ == (SlotsModel { reader: reader_model(Some(reader)), ..old(self)@ }),
            final(scope)@ == old(scope)@.emit_all(old(self)@.on_initialize()),
    {
        self.reader = Some(reader);
        let closed: PromiseRef = PromiseRef::ReaderClosed(self.id);
        scope.emit(Effect::NewPromise(closed));
        match self.state {
            ReadableStreamState::Readable => {},
            ReadableStreamState::Closed => {
                scope.emit(Effect::Resolve(closed, Value::Undefined));
            },
            ReadableStreamState::Errored => {
                scope.emit(Effect::Reject(closed, self.stored_error.clone()));
                scope.emit(Effect::MarkHandled(closed));
            },
        }
        assert(scope@ =~= old(scope)@.emit_all(old(self)@.on_initialize()));
    }

    /// Rejects the `closed` promise of a reader that is being released.
    pub fn reject_released_closed_promise(&self, scope: &mut Scope)
        ensures
            final(scope)@ == old(scope)@.emit_all(self@.on_release()),
    {
        let closed: PromiseRef = PromiseRef::ReaderClosed(self.id);
        match self.state {
            ReadableStreamState::Readable => {},
            _ => {
                scope.emit(Effect::NewPromise(closed));
            },
        }
        scope.emit(Effect::Reject(closed, Value::TypeError(Message::ReaderReleasedClosed)));
        scope.emit(Effect::MarkHandled(closed));
        assert(scope@ =~= old(scope)@.emit_all(self@.on_release()));
    }

    /// Unlocks the stream and fails the requests of its reader.
    pub fn unlock_and_error_requests(&mut self, scope: &mut Scope)
        ensures
            final(self)@ == old(self)@.unlocked(),
            final(scope)@ == old(scope)@.emit_all(old(self)@.on_release_requests()),
    {
        let released: Value = Value::TypeError(Message::ReaderReleased);
        match self.reader.take() {
            Some(StreamReader::Default(mut reader)) => {
                reader.readable_stream_default_reader_error_read_requests(scope, &released);
            },
            Some(StreamReader::Byob(mut reader)) => {
                reader.readable_stream_byob_reader_error_read_into_requests(scope, &released);
            },
            None => {},
        }
        assert(scope@ =~= old(scope)@.emit_all(old(self)@.on_release_requests()));
    }
}

impl DefaultReader {
    /// Fails every read request of the reader.
    pub fn readable_stream_default_reader_error_read_requests(
        &mut self,
        scope: &mut Scope,
        error: &Value,
    )
        ensures
            final(self).read_requests@ == Seq::<ReadRequest>::empty(),
            final(scope)@ == old(scope)@.emit_all(error_effects(old(self).read_requests@, *error)),
    {
        let mut requests: VecDeque<ReadRequest> = VecDeque::new();
        std::mem::swap(&mut requests, &mut self.read_requests);
        settle_errored(scope, requests, error);
    }
}

impl BYOBReader {
    /// Fails every read-into request of the reader.
    pub fn readable_stream_byob_reader_error_read_into_requests(
        &mut self,
        scope: &mut Scope,
        error: &Value,
    )
        ensures
            final(self).read_into_requests@ == Seq::<ReadIntoRequest>::empty(),
            final(scope)@ == old(scope)@.emit_all(
                into_error_effects(old(self).read_into_requests@, *error),
            ),
    {
        let mut requests: VecDeque<ReadIntoRequest> = VecDeque::new();
        std::mem::swap(&mut requests, &mut self.read_into_requests);
        settle_into_errored(scope, requests, error);
    }
}

} // verus!
