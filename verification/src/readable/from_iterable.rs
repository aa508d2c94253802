//! Streams that are made from an iterable.

use vstd::prelude::*;

use crate::number::{law_difference_tells_larger, Number};
use crate::readable::read_request::ReadRequest;
use crate::readable::readable_stream::{
    create_readable_stream, new_stream, readable_world, ReadableStream,
};
use crate::readable::set_up::start_effect;
use crate::readable::stream_world::{in_scope, ReadableModel};
use crate::scope::{Algorithm, Call, Effect, Scope, ScopeModel};
use crate::value::Value;

verus! {

/// A stream that asks an iterator for its chunks, one at a time and only when they are read.
pub open spec fn stream_of_iterator(id: u64, iterator: u64) -> ReadableModel {
    new_stream(
        id,
        Algorithm::FromPull(iterator),
        Algorithm::FromCancel(iterator),
        Value::Undefined,
        Number { bits: 0 },
        Algorithm::Undefined,
    )
}

/// Makes a stream from the iterator of an iterable, unless there is none to be had.
pub fn readable_stream_from_iterable(
    scope: &mut Scope,
    id: u64,
    iterator: Result<u64, Value>,
) -> (result: Result<ReadableStream, Value>)
    ensures
        match iterator {
            Ok(iterator) => {
                &&& result matches Ok(stream)
                &&& stream@ == stream_of_iterator(id, iterator)
                &&& readable_world(stream, *final(scope)).sound()
                &&& final(scope)@ == old(scope)@.emit(
                    start_effect(id, Algorithm::Undefined, Value::Undefined),
                )
            },
            Err(error) => {
                &&& result == Err::<ReadableStream, Value>(error)
                &&& final(scope)@ == old(scope)@
            },
        },
{
    match iterator {
        Err(error) => Err(error),
        Ok(iterator) => Ok(
            create_readable_stream(
                scope,
                id,
                Algorithm::Undefined,
                Algorithm::FromPull(iterator),
                Algorithm::FromCancel(iterator),
                Number { bits: 0 },
                Algorithm::Undefined,
            ),
        ),
    }
}

impl ReadableStream {
    /// Takes the next step of the iterator: the value that comes next, or none where the
    /// iteration is over. The result is that of the pull.
    pub fn from_pull_fulfilled(
        &mut self,
        scope: &mut Scope,
        step: Result<Option<Value>, Value>,
    ) -> (result: Result<(), Value>)
        requires
            old(self)@.counts_chunks(),
        ensures
            ({
                let w = readable_world(*old(self), *old(scope));
                &&& readable_world(*final(self), *final(scope)) == match step {
                    Ok(Some(value)) => w.enqueue_chunk(value),
                    Ok(None) => w.close_values(),
                    Err(_) => w,
                }
                &&& result == match step {
                    Ok(_) => Ok::<(), Value>(()),
                    Err(error) => Err(error),
                }
            }),
            readable_world(*old(self), *old(scope)).sound() ==> readable_world(
                *final(self),
                *final(scope),
            ).sound(),
    {
        match step {
            Err(error) => {
                return Err(error);
            },
            Ok(None) => {
                self.close_values(scope);
            },
            Ok(Some(value)) => {
                self.enqueue_chunk(scope, &value);
            },
        }
        Ok(())
    }
}

/// A stream that is made from an iterable asks for a value when one is read, and not before;
/// nothing waits in it.
pub proof fn law_from_iterable_lazy(
    id: u64,
    iterator: u64,
    scope: ScopeModel,
    request: ReadRequest,
)
    ensures
        ({
            let started = in_scope(stream_of_iterator(id, iterator), scope).start_fulfilled();
            let locked = started.acquire_default_reader().0;
            &&& started.scope == scope
            &&& locked.read(request).scope == locked.scope.emit(
                Effect::Invoke {
                    call: Call::ReadablePull { stream: id },
                    algorithm: Algorithm::FromPull(iterator),
                    receiver: Value::Undefined,
                },
            )
        }),
{
    law_difference_tells_larger(Number { bits: 0 }, Number { bits: 0 });
}

} // verus!
