//! The controller of a transform stream, and its methods.

use vstd::prelude::*;

use crate::number::Number;
use crate::readable::default_controller::{default_desired_size, EnqueueStep};
use crate::readable::readable_stream::{reason_or_undefined, value_or_undefined};
use crate::scope::{Algorithm, Scope};
use crate::transform::transform_stream::{transform_world, TransformStream};
use crate::value::Value;

verus! {

/// The controller of a transform stream.
pub struct TransformStreamDefaultController {
    pub cancel_algorithm: Algorithm,
    /// Whether the transformer has been asked to flush or to cancel; the promise for the end
    /// of the transform stream then tells the outcome.
    pub finish_promise: bool,
    pub flush_algorithm: Algorithm,
    /// The `this` of the algorithms.
    pub algorithm_receiver: Value,
    pub transform_algorithm: Algorithm,
}

impl TransformStreamDefaultController {
    /// The controller without its algorithms.
    pub open spec fn cleared_algorithms(self) -> TransformStreamDefaultController {
        TransformStreamDefaultController {
            cancel_algorithm: Algorithm::Undefined,
            flush_algorithm: Algorithm::Undefined,
            transform_algorithm: Algorithm::Undefined,
            ..self
        }
    }
}

/// The methods of the controller of a transform stream, which the transformer calls.
impl TransformStreamDefaultController {
    /// The room on the readable side.
    pub fn desired_size(stream: &TransformStream) -> (size: Option<Number>)
        requires
            stream@.readable.controller is Default,
        ensures
            size == default_desired_size(
                stream@.readable.slots,
                stream@.readable.controller->Default_0,
            ),
    {
        stream.transform_controller_readable_desired_size()
    }

    /// Enqueues a chunk on the readable side. Where its strategy has a size function, that
    /// is to be called next.
    pub fn enqueue(scope: &mut Scope, stream: &mut TransformStream, chunk: Option<Value>)
        -> (result: Result<EnqueueStep, Value>)
        requires
            old(stream)@.readable.controller is Default,
        ensures
            (transform_world(*final(stream), *final(scope)), result) == transform_world(
                *old(stream),
                *old(scope),
            ).enqueue(reason_or_undefined(chunk)),
            transform_world(*old(stream), *old(scope)).wf() ==> transform_world(
                *final(stream),
                *final(scope),
            ).wf(),
    {
        let chunk: Value = value_or_undefined(chunk);
        stream.transform_stream_default_controller_enqueue(scope, &chunk)
    }

    /// Fails both sides.
    pub fn error(scope: &mut Scope, stream: &mut TransformStream, reason: Option<Value>)
        requires
            old(stream)@.readable.controller is Default,
        ensures
            transform_world(*final(stream), *final(scope)) == transform_world(
                *old(stream),
                *old(scope),
            ).errored(reason_or_undefined(reason)),
            transform_world(*old(stream), *old(scope)).wf() ==> transform_world(
                *final(stream),
                *final(scope),
            ).wf(),
    {
        stream.transform_stream_default_controller_error(scope, value_or_undefined(reason));
    }

    /// Closes the readable side and fails the writable one.
    pub fn terminate(scope: &mut Scope, stream: &mut TransformStream)
        requires
            old(stream)@.readable.controller is Default,
        ensures
            transform_world(*final(stream), *final(scope)) == transform_world(
                *old(stream),
                *old(scope),
            ).terminated(),
            transform_world(*old(stream), *old(scope)).wf() ==> transform_world(
                *final(stream),
                *final(scope),
            ).wf(),
    {
        stream.transform_stream_default_controller_terminate(scope);
    }
}

} // verus!
