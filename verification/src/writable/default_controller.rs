//! The controller of a writable stream.

use std::collections::VecDeque;

use vstd::prelude::*;

use crate::algorithms::{sized, total_without};
use crate::number::Number;
use crate::queuing::{QueueWithSizes, ValueWithSize};
use crate::scope::Algorithm;
use crate::value::Value;

verus! {

/// The controller of a writable stream.
pub struct WritableStreamDefaultController {
    pub abort_algorithm: Algorithm,
    pub close_algorithm: Algorithm,
    pub queue: VecDeque<ValueWithSize>,
    pub queue_total_size: Number,
    /// Whether the sink has finished starting.
    pub started: bool,
    pub strategy_hwm: Number,
    pub strategy_size_algorithm: Algorithm,
    /// The `this` of the algorithms.
    pub algorithm_receiver: Value,
    pub write_algorithm: Algorithm,
}

/// What there is to know of the controller of a writable stream.
#[verifier::ext_equal]
pub struct WritableControllerModel {
    pub abort_algorithm: Algorithm,
    pub close_algorithm: Algorithm,
    pub queue: Seq<ValueWithSize>,
    pub total: Number,
    pub started: bool,
    pub hwm: Number,
    pub size_algorithm: Algorithm,
    pub receiver: Value,
    pub write_algorithm: Algorithm,
}

impl View for WritableStreamDefaultController {
    type V = WritableControllerModel;

    open spec fn view(&self) -> WritableControllerModel {
        WritableControllerModel {
            abort_algorithm: self.abort_algorithm,
            close_algorithm: self.close_algorithm,
            queue: self.queue@,
            total: self.queue_total_size,
            started: self.started,
            hwm: self.strategy_hwm,
            size_algorithm: self.strategy_size_algorithm,
            receiver: self.algorithm_receiver,
            write_algorithm: self.write_algorithm,
        }
    }
}

impl QueueWithSizes for WritableStreamDefaultController {
    type Rest = WritableControllerModel;

    open spec fn entries(&self) -> Seq<ValueWithSize> {
        self.queue@
    }

    open spec fn total_size(&self) -> Number {
        self.queue_total_size
    }

    open spec fn rest(&self) -> WritableControllerModel {
        self@.with_queue(Seq::empty(), Number { bits: 0 })
    }

    fn queue(&self) -> (queue: &VecDeque<ValueWithSize>) {
        &self.queue
    }

    fn queue_mut(&mut self) -> (queue: &mut VecDeque<ValueWithSize>) {
        &mut self.queue
    }

    fn queue_total_size(&self) -> (total: Number) {
        self.queue_total_size
    }

    fn set_queue_total_size(&mut self, size: Number) {
        self.queue_total_size = size;
    }
}

/// The entry that marks the close of a writable stream.
pub open spec fn close_sentinel() -> ValueWithSize {
    ValueWithSize { value: Value::Undefined, size: Number { bits: 0 }, is_close_sentinel: true }
}

impl WritableControllerModel {
    pub open spec fn with_queue(self, queue: Seq<ValueWithSize>, total: Number)
        -> WritableControllerModel {
        WritableControllerModel { queue, total, ..self }
    }

    pub open spec fn reset_queue(self) -> WritableControllerModel {
        self.with_queue(Seq::empty(), Number { bits: 0 })
    }

    /// The controller without the first entry of its queue.
    pub open spec fn dequeued(self) -> WritableControllerModel {
        self.with_queue(self.queue.drop_first(), total_without(self.total, self.queue[0].size))
    }

    /// The controller with one more chunk in its queue.
    pub open spec fn enqueued(self, chunk: Value, size: Number) -> WritableControllerModel {
        self.with_queue(self.queue.push(sized(chunk, size)), self.total.plus(size))
    }

    pub open spec fn cleared_algorithms(self) -> WritableControllerModel {
        WritableControllerModel {
            write_algorithm: Algorithm::Undefined,
            close_algorithm: Algorithm::Undefined,
            abort_algorithm: Algorithm::Undefined,
            size_algorithm: Algorithm::Undefined,
            ..self
        }
    }
}

} // verus!
