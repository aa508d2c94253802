//! Iteration over the chunks of a stream.
//!
//! The calls of an iterator take effect one after the other: each waits for the one before
//! it to settle.

use vstd::prelude::*;

use crate::readable::options::ReadableStreamIteratorOptions;
use crate::readable::read_request::ReadRequest;
use crate::readable::readable_stream::{
    readable_world, reason_or_undefined, value_or_undefined, ReadableStream,
};
use crate::readable::stream_world::ReadableWorld;
use crate::scope::{Effect, PromiseRef, Reaction, Scope};
use crate::support::create_iter_result;
use crate::value::{iter_result, Value};

verus! {

/// An iterator over the chunks of a stream, which it keeps locked to a reader of its own.
pub struct ReadableStreamAsyncIterator {
    /// The name of the iterator in effects.
    pub id: u64,
    /// Whether the stream is left as it is when the iteration is given up.
    pub prevent_cancel: bool,
    pub is_finished: bool,
    /// The promise of the last call.
    pub ongoing_promise: Option<PromiseRef>,
}

/// A new iterator.
pub open spec fn new_iterator(
    id: u64,
    options: Option<ReadableStreamIteratorOptions>,
) -> ReadableStreamAsyncIterator {
    ReadableStreamAsyncIterator {
        id,
        prevent_cancel: options matches Some(options) && options.prevent_cancel,
        is_finished: false,
        ongoing_promise: None,
    }
}

/// What a call of `next` is told when its read came to a chunk, or to the mark that there is
/// none.
pub open spec fn step_result(value: Value) -> Value {
    if value is EndOfIteration {
        iter_result(Value::Undefined, true)
    } else {
        iter_result(value, false)
    }
}

impl ReadableStream {
    /// Makes an iterator over the chunks of the stream, which it locks.
    pub fn values(
        &mut self,
        scope: &mut Scope,
        id: u64,
        options: Option<ReadableStreamIteratorOptions>,
    ) -> (result: Result<ReadableStreamAsyncIterator, Value>)
        ensures
            ({
                let (w, acquired) = readable_world(*old(self), *old(scope)).acquire_default_reader();
                &&& readable_world(*final(self), *final(scope)) == w
                &&& result == match acquired {
                    Ok(()) => Ok::<ReadableStreamAsyncIterator, Value>(new_iterator(id, options)),
                    Err(error) => Err(error),
                }
            }),
    {
        match self.set_up_readable_stream_default_reader(scope) {
            Ok(()) => {},
            Err(error) => {
                return Err(error);
            },
        }
        let prevent_cancel: bool = match options {
            Some(options) => options.prevent_cancel,
            None => false,
        };
        Ok(
            ReadableStreamAsyncIterator {
                id,
                prevent_cancel,
                is_finished: false,
                ongoing_promise: None,
            },
        )
    }

    /// Takes note that the stream closed while an iterator read from it.
    pub fn async_iter_close_steps(&mut self, scope: &mut Scope, promise: u64)
        ensures
            readable_world(*final(self), *final(scope)) == readable_world(
                *old(self),
                *old(scope),
            ).release().emit(Effect::Resolve(PromiseRef::Request(promise), Value::EndOfIteration)),
    {
        self.readable_stream_reader_generic_release(scope);
        scope.emit(Effect::Resolve(PromiseRef::Request(promise), Value::EndOfIteration));
    }

    /// Takes note that the stream failed while an iterator read from it.
    pub fn async_iter_error_steps(&mut self, scope: &mut Scope, promise: u64, error: Value)
        ensures
            readable_world(*final(self), *final(scope)) == readable_world(
                *old(self),
                *old(scope),
            ).release().emit(Effect::Reject(PromiseRef::Request(promise), error)),
    {
        self.readable_stream_reader_generic_release(scope);
        scope.emit(Effect::Reject(PromiseRef::Request(promise), error));
    }
}

impl ReadableStreamAsyncIterator {
    /// What the next step of the iteration comes to: a read of the stream, unless the
    /// iteration is over. `read` is the promise for the chunk.
    pub open spec fn next_steps(self, w: ReadableWorld, promise: u64, read: u64) -> ReadableWorld {
        if self.is_finished {
            w.emit(
                Effect::Resolve(PromiseRef::Request(promise), iter_result(Value::Undefined, true)),
            )
        } else {
            w.read(
                ReadRequest::AsyncIter { promise: read, stream: w.stream.slots.id },
            ).emit(
                Effect::OnSettled(
                    PromiseRef::Request(read),
                    Reaction::IteratorNext { iterator: self.id, promise },
                ),
            )
        }
    }

    /// A call of `next`: its steps are taken at once, or when the call before it has settled.
    pub open spec fn called(self, w: ReadableWorld, promise: u64, read: u64) -> (
        ReadableStreamAsyncIterator,
        ReadableWorld,
    ) {
        (
            ReadableStreamAsyncIterator {
                ongoing_promise: Some(PromiseRef::Request(promise)),
                ..self
            },
            match self.ongoing_promise {
                Some(ongoing) => w.emit(
                    Effect::NextAfter { ongoing, iterator: self.id, promise },
                ),
                None => self.next_steps(w, promise, read),
            },
        )
    }

    /// The iterator after a read came to a chunk, or to the mark that there is none.
    pub open spec fn after_read(self, value: Value) -> ReadableStreamAsyncIterator {
        ReadableStreamAsyncIterator {
            is_finished: self.is_finished || value is EndOfIteration,
            ..self
        }
    }

    /// What the end of the iteration comes to: the stream is canceled, unless that is
    /// prevented, and released, after its source has heard of the cancelation. `returned` is
    /// the promise for the outcome.
    pub open spec fn return_steps(
        self,
        w: ReadableWorld,
        value: Value,
        promise: u64,
        returned: u64,
    ) -> ReadableWorld {
        let result = iter_result(value, true);
        let outcome = PromiseRef::Request(returned);
        if self.is_finished {
            w.emit(Effect::Resolve(PromiseRef::Request(promise), result))
        } else if self.prevent_cancel {
            w.release().emit(Effect::Resolve(outcome, Value::Undefined)).emit(
                Effect::ResolveAfter(PromiseRef::Request(promise), outcome, result),
            )
        } else {
            w.cancel(value, outcome).emit(
                Effect::ReleaseReader { stream: w.stream.slots.id },
            ).emit(Effect::ResolveAfter(PromiseRef::Request(promise), outcome, result))
        }
    }

    /// Asks for the next chunk; `promise` settles with the outcome.
    pub fn next(
        &mut self,
        scope: &mut Scope,
        stream: &mut ReadableStream,
        promise: u64,
        read: u64,
    )
        requires
            old(self).ongoing_promise is None && !old(self).is_finished ==> {
                &&& readable_world(*old(stream), *old(scope)).wf()
                &&& old(stream)@.slots.reader is Default
            },
        ensures
            (*final(self), readable_world(*final(stream), *final(scope))) == old(self).called(
                readable_world(*old(stream), *old(scope)),
                promise,
                read,
            ),
    {
        match self.ongoing_promise {
            Some(ongoing) => {
                scope.emit(Effect::NextAfter { ongoing, iterator: self.id, promise });
            },
            None => {
                self.run_next_steps(scope, stream, promise, read);
            },
        }
        self.ongoing_promise = Some(PromiseRef::Request(promise));
    }

    /// Gives the iteration up; `promise` settles with the outcome.
    pub fn iterator_return(
        &mut self,
        scope: &mut Scope,
        stream: &mut ReadableStream,
        value: Option<Value>,
        promise: u64,
        returned: u64,
    )
        ensures
            *final(self) == (ReadableStreamAsyncIterator {
                ongoing_promise: Some(PromiseRef::Request(promise)),
                is_finished: old(self).is_finished || old(self).ongoing_promise is None,
                ..*old(self)
            }),
            readable_world(*final(stream), *final(scope)) == ({
                let w = readable_world(*old(stream), *old(scope));
                let value = reason_or_undefined(value);
                match old(self).ongoing_promise {
                    Some(ongoing) => w.emit(
                        Effect::ReturnAfter { ongoing, iterator: old(self).id, value, promise },
                    ),
                    None => old(self).return_steps(w, value, promise, returned),
                }
            }),
    {
        let value: Value = value_or_undefined(value);
        match self.ongoing_promise {
            Some(ongoing) => {
                scope.emit(Effect::ReturnAfter { ongoing, iterator: self.id, value, promise });
            },
            None => {
                self.run_return_steps(scope, stream, value, promise, returned);
            },
        }
        self.ongoing_promise = Some(PromiseRef::Request(promise));
    }

    /// Reads the next chunk, unless the iteration is over.
    pub fn run_next_steps(
        &self,
        scope: &mut Scope,
        stream: &mut ReadableStream,
        promise: u64,
        read: u64,
    )
        requires
            !self.is_finished ==> {
                &&& readable_world(*old(stream), *old(scope)).wf()
                &&& old(stream)@.slots.reader is Default
            },
        ensures
            readable_world(*final(stream), *final(scope)) == self.next_steps(
                readable_world(*old(stream), *old(scope)),
                promise,
                read,
            ),
    {
        if self.is_finished {
            scope.emit(
                Effect::Resolve(
                    PromiseRef::Request(promise),
                    create_iter_result(Value::Undefined, true),
                ),
            );
            return ;
        }
        let request: ReadRequest = ReadRequest::AsyncIter {
            promise: read,
            stream: stream.slots.id,
        };
        stream.readable_stream_default_reader_read(scope, request);
        scope.emit(
            Effect::OnSettled(
                PromiseRef::Request(read),
                Reaction::IteratorNext { iterator: self.id, promise },
            ),
        );
    }

    /// Takes the chunk that was read, or the mark that there is none.
    pub fn next_fulfilled(&mut self, scope: &mut Scope, value: Value, promise: u64)
        ensures
            *final(self) == old(self).after_read(value),
            final(scope)@ == old(scope)@.emit(
                Effect::Resolve(PromiseRef::Request(promise), step_result(value)),
            ),
    {
        let result: Value = match value {
            Value::EndOfIteration => {
                self.is_finished = true;
                create_iter_result(Value::Undefined, true)
            },
            value => create_iter_result(value, false),
        };
        scope.emit(Effect::Resolve(PromiseRef::Request(promise), result));
    }

    /// Takes note that the chunk could not be read: the iteration is over.
    pub fn next_rejected(&mut self, scope: &mut Scope, error: Value, promise: u64)
        ensures
            *final(self) == (ReadableStreamAsyncIterator { is_finished: true, ..*old(self) }),
            final(scope)@ == old(scope)@.emit(Effect::Reject(PromiseRef::Request(promise), error)),
    {
        self.is_finished = true;
        scope.emit(Effect::Reject(PromiseRef::Request(promise), error));
    }

    /// Ends the iteration, unless it is over.
    pub fn run_return_steps(
        &mut self,
        scope: &mut Scope,
        stream: &mut ReadableStream,
        value: Value,
        promise: u64,
        returned: u64,
    )
        ensures
            *final(self) == (ReadableStreamAsyncIterator { is_finished: true, ..*old(self) }),
            readable_world(*final(stream), *final(scope)) == old(self).return_steps(
                readable_world(*old(stream), *old(scope)),
                value,
                promise,
                returned,
            ),
    {
        let promise: PromiseRef = PromiseRef::Request(promise);
        let outcome: PromiseRef = PromiseRef::Request(returned);
        if self.is_finished {
            scope.emit(Effect::Resolve(promise, create_iter_result(value, true)));
            return ;
        }
        self.is_finished = true;
        self.asynchronous_iterator_return(scope, stream, value.clone(), outcome);
        scope.emit(Effect::ResolveAfter(promise, outcome, create_iter_result(value, true)));
    }

    /// Cancels the stream, unless that is prevented, and has it released; `outcome` tells what
    /// came of that.
    fn asynchronous_iterator_return(
        &self,
        scope: &mut Scope,
        stream: &mut ReadableStream,
        value: Value,
        outcome: PromiseRef,
    )
        ensures
            readable_world(*final(stream), *final(scope)) == ({
                let w = readable_world(*old(stream), *old(scope));
                if self.prevent_cancel {
                    w.release().emit(Effect::Resolve(outcome, Value::Undefined))
                } else {
                    w.cancel(value, outcome).emit(
                        Effect::ReleaseReader { stream: w.stream.slots.id },
                    )
                }
            }),
    {
        if self.prevent_cancel {
            stream.readable_stream_reader_generic_release(scope);
            scope.emit(Effect::Resolve(outcome, Value::Undefined));
        } else {
            stream.readable_stream_cancel(scope, value, outcome);
            scope.emit(Effect::ReleaseReader { stream: stream.slots.id });
        }
    }
}

/// An iteration that is over stays so: the stream is left alone, and the caller is told
/// that there is nothing left.
pub proof fn law_iterator_over(
    iterator: ReadableStreamAsyncIterator,
    w: ReadableWorld,
    value: Value,
    promise: u64,
    read: u64,
)
    requires
        iterator.is_finished,
    ensures
        iterator.next_steps(w, promise, read) == w.emit(
            Effect::Resolve(PromiseRef::Request(promise), iter_result(Value::Undefined, true)),
        ),
        iterator.return_steps(w, value, promise, read) == w.emit(
            Effect::Resolve(PromiseRef::Request(promise), iter_result(value, true)),
        ),
{
}

/// The end of an iteration lets go of the stream: at once where the stream is left as it is;
/// otherwise it closes a stream that is readable, and the release follows, after the source
/// has heard of that.
pub proof fn law_iterator_releases(
    iterator: ReadableStreamAsyncIterator,
    w: ReadableWorld,
    value: Value,
    promise: u64,
    returned: u64,
)
    requires
        !iterator.is_finished,
    ensures
        ({
            let after = iterator.return_steps(w, value, promise, returned);
            &&& iterator.prevent_cancel ==> {
                &&& !after.stream.slots.locked()
                &&& after.stream.slots.state == w.stream.slots.state
            }
            &&& !iterator.prevent_cancel ==> {
                &&& after.stream.slots.state !is Readable
                &&& after.scope.effects[after.scope.effects.len() - 2] == (Effect::ReleaseReader {
                    stream: w.stream.slots.id,
                })
                &&& !after.release().stream.slots.locked()
            }
        }),
{
}

} // verus!
