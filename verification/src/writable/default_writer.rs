//! The writer of a writable stream.

use vstd::prelude::*;

use crate::number::Number;
use crate::readable::readable_stream::{reason_or_undefined, value_or_undefined};
use crate::scope::{Effect, PromiseRef, Scope};
use crate::value::{Message, Value};
use crate::writable::world::{AbortStep, WriteStep};
use crate::writable::writable_stream::{writable_world, WritableStream};

verus! {

/// Whether a promise has been settled, and how.
#[derive(Clone, Copy, Debug, PartialEq, Eq, Structural)]
pub enum PromiseState {
    Pending,
    Fulfilled,
    Rejected,
}

impl PromiseState {
    /// The state after an attempt to settle the promise, which counts only the first time.
    pub open spec fn spec_settled(self, outcome: PromiseState) -> PromiseState {
        if self is Pending {
            outcome
        } else {
            self
        }
    }

    pub fn settled(self, outcome: PromiseState) -> (state: PromiseState)
        ensures
            state == self.spec_settled(outcome),
    {
        match self {
            PromiseState::Pending => outcome,
            other => other,
        }
    }
}

/// The writer to which a writable stream is locked, with the states of its promises.
#[derive(Clone, Copy, Debug, PartialEq, Eq, Structural)]
pub struct WritableStreamDefaultWriter {
    pub closed: PromiseState,
    pub ready: PromiseState,
}

/// The methods of a writer. The stream is the one that the writer was made for; `attached`
/// tells whether it still is locked to this writer.
impl WritableStreamDefaultWriter {
    /// Makes a writer for a stream and locks the stream to it.
    pub fn new(scope: &mut Scope, stream: &mut WritableStream) -> (result: Result<(), Value>)
        ensures
            (writable_world(*final(stream), *final(scope)), result) == writable_world(
                *old(stream),
                *old(scope),
            ).acquire_writer(),
            old(stream)@.wf() ==> final(stream)@.wf(),
    {
        stream.set_up_writable_stream_default_writer(scope)
    }

    pub fn desired_size(stream: &WritableStream, attached: bool) -> (size: Result<
        Option<Number>,
        Value,
    >)
        ensures
            size == if attached {
                Ok(stream@.writer_desired_size())
            } else {
                Err(Value::TypeError(Message::DesiredSizeWithoutStream))
            },
    {
        if !attached {
            return Err(Value::TypeError(Message::DesiredSizeWithoutStream));
        }
        Ok(stream.writable_stream_default_writer_get_desired_size())
    }

    /// Aborts the stream. Where the abort is being signaled,
    /// `writable_stream_abort_signaled` is to be called next.
    pub fn abort(
        scope: &mut Scope,
        stream: &mut WritableStream,
        attached: bool,
        reason: Value,
        promise: u64,
    ) -> (step: AbortStep)
        ensures
            (writable_world(*final(stream), *final(scope)), step) == ({
                let w = writable_world(*old(stream), *old(scope));
                if attached {
                    w.abort(reason, PromiseRef::Request(promise))
                } else {
                    (
                        w.reject(
                            PromiseRef::Request(promise),
                            Value::TypeError(Message::AbortReleased),
                        ),
                        AbortStep::Done,
                    )
                }
            }),
    {
        if !attached {
            scope.emit(
                Effect::Reject(
                    PromiseRef::Request(promise),
                    Value::TypeError(Message::AbortReleased),
                ),
            );
            return AbortStep::Done;
        }
        stream.writable_stream_abort(scope, reason, PromiseRef::Request(promise))
    }

    /// Closes the stream; `promise` settles with the outcome.
    pub fn close(scope: &mut Scope, stream: &mut WritableStream, attached: bool, promise: u64)
        requires
            old(stream)@.wf(),
        ensures
            writable_world(*final(stream), *final(scope)) == ({
                let w = writable_world(*old(stream), *old(scope));
                if !attached {
                    w.reject(
                        PromiseRef::Request(promise),
                        Value::TypeError(Message::CloseReleased),
                    )
                } else if w.stream.close_queued_or_in_flight() {
                    w.reject(
                        PromiseRef::Request(promise),
                        Value::TypeError(Message::CloseAlreadyClosing),
                    )
                } else {
                    w.close(PromiseRef::Request(promise))
                }
            }),
            final(stream)@.wf(),
    {
        let request: PromiseRef = PromiseRef::Request(promise);
        if !attached {
            scope.emit(Effect::Reject(request, Value::TypeError(Message::CloseReleased)));
            return ;
        }
        if stream.writable_stream_close_queued_or_in_flight() {
            scope.emit(Effect::Reject(request, Value::TypeError(Message::CloseAlreadyClosing)));
            return ;
        }
        stream.writable_stream_close(scope, PromiseRef::Request(promise));
    }

    /// Releases the stream from the writer.
    pub fn release_lock(scope: &mut Scope, stream: &mut WritableStream, attached: bool)
        ensures
            writable_world(*final(stream), *final(scope)) == ({
                let w = writable_world(*old(stream), *old(scope));
                if attached {
                    w.release()
                } else {
                    w
                }
            }),
            old(stream)@.wf() ==> final(stream)@.wf(),
    {
        if !attached {
            return ;
        }
        stream.writable_stream_default_writer_release(scope);
    }

    /// Writes a chunk; `promise` settles with the outcome. Where the strategy has a size
    /// function, that is to be called next.
    pub fn write(
        scope: &mut Scope,
        stream: &mut WritableStream,
        attached: bool,
        chunk: Option<Value>,
        promise: u64,
    ) -> (step: WriteStep)
        requires
            old(stream)@.wf(),
        ensures
            (writable_world(*final(stream), *final(scope)), step) == ({
                let w = writable_world(*old(stream), *old(scope));
                if attached {
                    w.write(reason_or_undefined(chunk), PromiseRef::Request(promise))
                } else {
                    (
                        w.reject(
                            PromiseRef::Request(promise),
                            Value::TypeError(Message::WriteReleased),
                        ),
                        WriteStep::Done,
                    )
                }
            }),
            (attached ==> old(stream)@.locked()) ==> final(stream)@.wf(),
    {
        if !attached {
            scope.emit(
                Effect::Reject(
                    PromiseRef::Request(promise),
                    Value::TypeError(Message::WriteReleased),
                ),
            );
            return WriteStep::Done;
        }
        let chunk: Value = value_or_undefined(chunk);
        stream.writable_stream_default_writer_write(scope, &chunk, PromiseRef::Request(promise))
    }
}

} // verus!
