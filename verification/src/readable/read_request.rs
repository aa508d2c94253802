//! The requests that wait in a reader for data.

use vstd::prelude::*;

use crate::scope::{Effect, PromiseRef, ReadOutcome, Scope};
use crate::value::{iter_result, Value};

verus! {

/// An entry in the list of a default reader.
#[derive(Clone, Copy, Debug, PartialEq, Eq, Structural)]
pub enum ReadRequest {
    /// A call of `read()`, with its promise.
    Read { promise: u64 },
    /// The read of a tee.
    Tee { tee: u64 },
    /// The read of a pipe.
    Pipe { pipe: u64 },
    /// The read of an iterator, with the promise for its next result.
    AsyncIter { promise: u64, stream: u64 },
    /// The read of a tee of a byte stream.
    ByteTeeDefault { tee: u64 },
    /// The read of a consumer that collects all bytes of a stream.
    Consume { consumer: u64 },
    /// The read of a consumer outside this library.
    Native { consumer: u64 },
}

/// An entry in the list of a BYOB reader.
#[derive(Clone, Copy, Debug, PartialEq, Eq, Structural)]
pub enum ReadIntoRequest {
    /// A call of `read(view)`, with its promise.
    Read { promise: u64 },
    /// The read of a tee of a byte stream into the view of one of its branches.
    ByteTeeByob { tee: u64, for_branch2: bool },
}

/// What happens when a chunk arrives for a read request.
pub open spec fn chunk_effect(request: ReadRequest, chunk: Value) -> Effect {
    match request {
        ReadRequest::Read { promise } => Effect::Resolve(
            PromiseRef::Request(promise),
            iter_result(chunk, false),
        ),
        ReadRequest::AsyncIter { promise, .. } => Effect::Resolve(
            PromiseRef::Request(promise),
            chunk,
        ),
        _ => Effect::ReadSteps(request, ReadOutcome::Chunk(chunk)),
    }
}

/// What happens when the stream closes before a chunk arrives.
pub open spec fn close_effect(request: ReadRequest) -> Effect {
    match request {
        ReadRequest::Read { promise } => Effect::Resolve(
            PromiseRef::Request(promise),
            iter_result(Value::Undefined, true),
        ),
        _ => Effect::ReadSteps(request, ReadOutcome::Close(Value::Undefined)),
    }
}

/// What happens when the stream fails before a chunk arrives.
pub open spec fn error_effect(request: ReadRequest, error: Value) -> Effect {
    match request {
        ReadRequest::Read { promise } => Effect::Reject(PromiseRef::Request(promise), error),
        _ => Effect::ReadSteps(request, ReadOutcome::Error(error)),
    }
}

/// What happens when a filled view arrives for a read-into request.
pub open spec fn into_chunk_effect(request: ReadIntoRequest, chunk: Value) -> Effect {
    match request {
        ReadIntoRequest::Read { promise } => Effect::Resolve(
            PromiseRef::Request(promise),
            iter_result(chunk, false),
        ),
        _ => Effect::ReadIntoSteps(request, ReadOutcome::Chunk(chunk)),
    }
}

/// What happens when the stream closes, with the view that is handed back.
pub open spec fn into_close_effect(request: ReadIntoRequest, chunk: Value) -> Effect {
    match request {
        ReadIntoRequest::Read { promise } => Effect::Resolve(
            PromiseRef::Request(promise),
            iter_result(chunk, true),
        ),
        _ => Effect::ReadIntoSteps(request, ReadOutcome::Close(chunk)),
    }
}

/// What happens when the stream fails before the view is filled.
pub open spec fn into_error_effect(request: ReadIntoRequest, error: Value) -> Effect {
    match request {
        ReadIntoRequest::Read { promise } => Effect::Reject(PromiseRef::Request(promise), error),
        _ => Effect::ReadIntoSteps(request, ReadOutcome::Error(error)),
    }
}

impl ReadRequest {
    pub fn chunk_steps(self, scope: &mut Scope, chunk: Value)
        ensures
            final(scope)@ == old(scope)@.emit(chunk_effect(self, chunk)),
    {
        match self {
            ReadRequest::Read { promise } => {
                scope.emit(
                    Effect::Resolve(
                        PromiseRef::Request(promise),
                        Value::IterResult(Box::new(chunk), false),
                    ),
                );
            },
            ReadRequest::AsyncIter { promise, .. } => {
                scope.emit(Effect::Resolve(PromiseRef::Request(promise), chunk));
            },
            _ => {
                scope.emit(Effect::ReadSteps(self, ReadOutcome::Chunk(chunk)));
            },
        }
    }

    pub fn close_steps(self, scope: &mut Scope)
        ensures
            final(scope)@ == old(scope)@.emit(close_effect(self)),
    {
        match self {
            ReadRequest::Read { promise } => {
                scope.emit(
                    Effect::Resolve(
                        PromiseRef::Request(promise),
                        Value::IterResult(Box::new(Value::Undefined), true),
                    ),
                );
            },
            _ => {
                scope.emit(Effect::ReadSteps(self, ReadOutcome::Close(Value::Undefined)));
            },
        }
    }

    pub fn error_steps(self, scope: &mut Scope, error: Value)
        ensures
            final(scope)@ == old(scope)@.emit(error_effect(self, error)),
    {
        match self {
            ReadRequest::Read { promise } => {
                scope.emit(Effect::Reject(PromiseRef::Request(promise), error));
            },
            _ => {
                scope.emit(Effect::ReadSteps(self, ReadOutcome::Error(error)));
            },
        }
    }
}

impl ReadIntoRequest {
    pub fn chunk_steps(self, scope: &mut Scope, chunk: Value)
        ensures
            final(scope)@ == old(scope)@.emit(into_chunk_effect(self, chunk)),
    {
        match self {
            ReadIntoRequest::Read { promise } => {
                scope.emit(
                    Effect::Resolve(
                        PromiseRef::Request(promise),
                        Value::IterResult(Box::new(chunk), false),
                    ),
                );
            },
            _ => {
                scope.emit(Effect::ReadIntoSteps(self, ReadOutcome::Chunk(chunk)));
            },
        }
    }

    pub fn close_steps(self, scope: &mut Scope, chunk: Value)
        ensures
            final(scope)@ == old(scope)@.emit(into_close_effect(self, chunk)),
    {
        match self {
            ReadIntoRequest::Read { promise } => {
                scope.emit(
                    Effect::Resolve(
                        PromiseRef::Request(promise),
                        Value::IterResult(Box::new(chunk), true),
                    ),
                );
            },
            _ => {
                scope.emit(Effect::ReadIntoSteps(self, ReadOutcome::Close(chunk)));
            },
        }
    }

    pub fn error_steps(self, scope: &mut Scope, error: Value)
        ensures
            final(scope)@ == old(scope)@.emit(into_error_effect(self, error)),
    {
        match self {
            ReadIntoRequest::Read { promise } => {
                scope.emit(Effect::Reject(PromiseRef::Request(promise), error));
            },
            _ => {
                scope.emit(Effect::ReadIntoSteps(self, ReadOutcome::Error(error)));
            },
        }
    }
}

} // verus!
