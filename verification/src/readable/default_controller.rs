//! The controller of a readable stream of values, and what its operations come to.

use std::collections::VecDeque;

use vstd::prelude::*;

use crate::algorithms::{sized, total_without};
use crate::number::{Number, ONE};
use crate::queuing::{QueueWithSizes, ValueWithSize};
use crate::readable::read_request::{chunk_effect, ReadRequest};
use crate::readable::readable_stream::ReadableStreamState;
use crate::readable::slots::SlotsModel;
use crate::scope::{Algorithm, Call, Effect, PromiseRef, ScopeModel};
use crate::value::{Message, Value};

verus! {

/// The controller of a readable stream of values.
pub struct ReadableStreamDefaultController {
    pub cancel_algorithm: Algorithm,
    /// Whether the source has closed the stream while chunks were still queued.
    pub close_requested: bool,
    /// Whether another pull was asked for while one was under way.
    pub pull_again: bool,
    pub pull_algorithm: Algorithm,
    pub pulling: bool,
    pub queue: VecDeque<ValueWithSize>,
    pub queue_total_size: Number,
    /// Whether the source has finished starting.
    pub started: bool,
    pub strategy_hwm: Number,
    pub strategy_size_algorithm: Algorithm,
    /// The `this` of the algorithms.
    pub algorithm_receiver: Value,
}

/// What there is to know of the controller of a readable stream of values.
#[verifier::ext_equal]
pub struct DefaultControllerModel {
    pub cancel_algorithm: Algorithm,
    pub close_requested: bool,
    pub pull_again: bool,
    pub pull_algorithm: Algorithm,
    pub pulling: bool,
    pub queue: Seq<ValueWithSize>,
    pub total: Number,
    pub started: bool,
    pub hwm: Number,
    pub size_algorithm: Algorithm,
    pub receiver: Value,
}

impl View for ReadableStreamDefaultController {
    type V = DefaultControllerModel;

    open spec fn view(&self) -> DefaultControllerModel {
        DefaultControllerModel {
            cancel_algorithm: self.cancel_algorithm,
            close_requested: self.close_requested,
            pull_again: self.pull_again,
            pull_algorithm: self.pull_algorithm,
            pulling: self.pulling,
            queue: self.queue@,
            total: self.queue_total_size,
            started: self.started,
            hwm: self.strategy_hwm,
            size_algorithm: self.strategy_size_algorithm,
            receiver: self.algorithm_receiver,
        }
    }
}

impl QueueWithSizes for ReadableStreamDefaultController {
    type Rest = DefaultControllerModel;

    open spec fn entries(&self) -> Seq<ValueWithSize> {
        self.queue@
    }

    open spec fn total_size(&self) -> Number {
        self.queue_total_size
    }

    open spec fn rest(&self) -> DefaultControllerModel {
        self@.with_queue(Seq::empty(), Number { bits: 0 })
    }

    fn queue(&self) -> (queue: &VecDeque<ValueWithSize>) {
        &self.queue
    }

    fn queue_mut(&mut self) -> (queue: &mut VecDeque<ValueWithSize>) {
        &mut self.queue
    }

    fn queue_total_size(&self) -> (total: Number) {
        self.queue_total_size
    }

    fn set_queue_total_size(&mut self, size: Number) {
        self.queue_total_size = size;
    }
}

impl DefaultControllerModel {
    pub open spec fn with_queue(self, queue: Seq<ValueWithSize>, total: Number)
        -> DefaultControllerModel {
        DefaultControllerModel { queue, total, ..self }
    }

    pub open spec fn reset_queue(self) -> DefaultControllerModel {
        self.with_queue(Seq::empty(), Number { bits: 0 })
    }

    /// The controller without the first entry of its queue.
    pub open spec fn dequeued(self) -> DefaultControllerModel {
        self.with_queue(self.queue.drop_first(), total_without(self.total, self.queue[0].size))
    }

    /// The controller with one more entry in its queue.
    pub open spec fn enqueued(self, chunk: Value, size: Number) -> DefaultControllerModel {
        self.with_queue(self.queue.push(sized(chunk, size)), self.total.plus(size))
    }

    pub open spec fn cleared_algorithms(self) -> DefaultControllerModel {
        DefaultControllerModel {
            pull_algorithm: Algorithm::Undefined,
            cancel_algorithm: Algorithm::Undefined,
            size_algorithm: Algorithm::Undefined,
            ..self
        }
    }
}

/// Whether the source may close the stream or enqueue a chunk.
pub open spec fn default_can_enqueue(
    slots: SlotsModel,
    controller: DefaultControllerModel,
) -> bool {
    !controller.close_requested && slots.state is Readable
}

/// The room below the high-water mark; there is none to speak of once the stream has
/// failed.
pub open spec fn default_desired_size(
    slots: SlotsModel,
    controller: DefaultControllerModel,
) -> Option<Number> {
    match slots.state {
        ReadableStreamState::Errored => None,
        ReadableStreamState::Closed => Some(Number { bits: 0 }),
        ReadableStreamState::Readable => Some(controller.hwm.minus(controller.total)),
    }
}

/// Whether the source is to be asked for more.
pub open spec fn default_should_pull(
    slots: SlotsModel,
    controller: DefaultControllerModel,
) -> bool {
    &&& default_can_enqueue(slots, controller)
    &&& controller.started
    &&& {
        ||| slots.requests().len() > 0
        ||| controller.hwm.minus(controller.total).positive()
    }
}

/// What the enqueueing of a chunk comes to.
#[derive(Clone, Copy, Debug, PartialEq, Eq, Structural)]
pub enum EnqueueStep {
    /// There is nothing left to do.
    Done,
    /// The size algorithm is to be called with the chunk, and its outcome handed to
    /// `readable_stream_default_controller_enqueue_with_size`.
    NeedsSize(Algorithm),
}

/// A readable stream of values together with the scope in which it is used.
#[verifier::ext_equal]
pub struct DefaultWorld {
    pub slots: SlotsModel,
    pub controller: DefaultControllerModel,
    pub scope: ScopeModel,
}

impl DefaultWorld {
    pub open spec fn with_slots(self, slots: SlotsModel) -> DefaultWorld {
        DefaultWorld { slots, ..self }
    }

    pub open spec fn with_controller(self, controller: DefaultControllerModel) -> DefaultWorld {
        DefaultWorld { controller, ..self }
    }

    pub open spec fn emit(self, effect: Effect) -> DefaultWorld {
        DefaultWorld { scope: self.scope.emit(effect), ..self }
    }

    pub open spec fn emit_all(self, effects: Seq<Effect>) -> DefaultWorld {
        DefaultWorld { scope: self.scope.emit_all(effects), ..self }
    }

    /// What holds of a readable stream of values between two operations.
    pub open spec fn wf(self) -> bool {
        &&& self.slots.reader !is Byob
        &&& self.slots.state !is Readable ==> self.slots.requests().len() == 0
        &&& self.slots.state is Readable && self.controller.close_requested
            ==> self.controller.queue.len() > 0
        &&& self.controller.pull_again ==> self.controller.pulling
    }

    /// Asks the source for more, where it should be; one call at a time.
    pub open spec fn call_pull(self) -> DefaultWorld {
        if !default_should_pull(self.slots, self.controller) {
            self
        } else if self.controller.pulling {
            self.with_controller(DefaultControllerModel { pull_again: true, ..self.controller })
        } else {
            self.with_controller(
                DefaultControllerModel { pulling: true, ..self.controller },
            ).emit(
                Effect::Invoke {
                    call: Call::ReadablePull { stream: self.slots.id },
                    algorithm: self.controller.pull_algorithm,
                    receiver: self.controller.receiver,
                },
            )
        }
    }

    /// The stream closed for good.
    pub open spec fn close_now(self) -> DefaultWorld {
        DefaultWorld {
            slots: self.slots.closed(),
            controller: self.controller.cleared_algorithms(),
            scope: self.scope.emit_all(self.slots.on_close()),
        }
    }

    /// Closes the stream, at once or once its queue has been read.
    pub open spec fn close(self) -> DefaultWorld {
        if !default_can_enqueue(self.slots, self.controller) {
            self
        } else {
            let w = self.with_controller(
                DefaultControllerModel { close_requested: true, ..self.controller },
            );
            if self.controller.queue.len() == 0 {
                w.close_now()
            } else {
                w
            }
        }
    }

    /// The stream failed with `error`, unless it is past that.
    pub open spec fn errored(self, error: Value) -> DefaultWorld {
        if self.slots.state !is Readable {
            self
        } else {
            DefaultWorld {
                slots: self.slots.errored(error),
                controller: self.controller.reset_queue().cleared_algorithms(),
                scope: self.scope.emit_all(self.slots.on_error(error)),
            }
        }
    }

    /// A chunk for which no reader waits put into the queue with the size that was found
    /// for it; where none was found, or none that will do, the stream fails.
    pub open spec fn enqueue_with_size(
        self,
        chunk: Value,
        size: Result<Number, Value>,
    ) -> (DefaultWorld, Result<(), Value>) {
        match size {
            Err(error) => (self.errored(error), Err(error)),
            Ok(size) => if size.countable() {
                (self.with_controller(self.controller.enqueued(chunk, size)).call_pull(), Ok(()))
            } else {
                let error = Value::RangeError(Message::SizeOutOfRange);
                (self.errored(error), Err(error))
            },
        }
    }

    /// A chunk enqueued by the source: it goes to the first reader that waits, and into
    /// the queue otherwise.
    pub open spec fn enqueue(self, chunk: Value) -> (DefaultWorld, EnqueueStep) {
        if !default_can_enqueue(self.slots, self.controller) {
            (self, EnqueueStep::Done)
        } else if self.slots.requests().len() > 0 {
            (
                self.with_slots(self.slots.without_first_request()).emit(
                    chunk_effect(self.slots.requests()[0], chunk),
                ).call_pull(),
                EnqueueStep::Done,
            )
        } else {
            match self.controller.size_algorithm {
                Algorithm::Undefined | Algorithm::One => (
                    self.enqueue_with_size(chunk, Ok(Number { bits: ONE })).0,
                    EnqueueStep::Done,
                ),
                algorithm => (self, EnqueueStep::NeedsSize(algorithm)),
            }
        }
    }

    /// A read by the reader of the stream.
    pub open spec fn pull_steps(self, request: ReadRequest) -> DefaultWorld {
        if self.controller.queue.len() > 0 {
            let chunk = self.controller.queue[0].value;
            let w = self.with_controller(self.controller.dequeued());
            let after = if w.controller.close_requested && w.controller.queue.len() == 0 {
                w.close_now()
            } else {
                w.call_pull()
            };
            after.emit(chunk_effect(request, chunk))
        } else {
            self.with_slots(self.slots.with_request(request)).call_pull()
        }
    }

    /// What the controller does when its stream is canceled.
    pub open spec fn cancel_steps(self, reason: Value, result: PromiseRef) -> DefaultWorld {
        self.with_controller(self.controller.reset_queue().cleared_algorithms()).emit(
            Effect::Invoke {
                call: Call::ReadableCancel { stream: self.slots.id, reason, result },
                algorithm: self.controller.cancel_algorithm,
                receiver: self.controller.receiver,
            },
        )
    }

    /// The source has started.
    pub open spec fn start_fulfilled(self) -> DefaultWorld {
        self.with_controller(
            DefaultControllerModel { started: true, ..self.controller },
        ).call_pull()
    }

    /// A pull has come to its end; another one follows if it was asked for meanwhile.
    pub open spec fn pull_fulfilled(self) -> DefaultWorld {
        if self.controller.pull_again {
            self.with_controller(
                DefaultControllerModel { pulling: false, pull_again: false, ..self.controller },
            ).call_pull()
        } else {
            self.with_controller(DefaultControllerModel { pulling: false, ..self.controller })
        }
    }
}

} // verus!
