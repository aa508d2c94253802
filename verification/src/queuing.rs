//! Queuing strategies, and queues whose entries have a size.

use std::collections::VecDeque;

use vstd::prelude::*;

use crate::buffer::view_length_of;
use crate::number::{Number, ONE};
use crate::scope::Scope;
use crate::value::Value;

verus! {

/// An object that is given where a function is expected.
#[derive(Clone, Copy, Debug, PartialEq, Eq, Structural)]
pub struct CallbackObject {
    pub handle: u64,
    /// Whether the object can be called.
    pub callable: bool,
}

/// How a stream is to tell when its queue is full.
#[derive(Clone, Copy, Debug, PartialEq, Eq, Structural)]
pub struct QueuingStrategy {
    pub high_water_mark: Option<Number>,
    /// The function that tells the size of a chunk.
    pub size: Option<CallbackObject>,
}

/// What the constructors of the ready-made strategies are given.
#[derive(Clone, Copy, Debug, PartialEq, Eq, Structural)]
pub struct QueuingStrategyInit {
    pub high_water_mark: Number,
}

/// The strategy that counts bytes.
#[derive(Clone, Copy, Debug, PartialEq, Eq, Structural)]
pub struct ByteLengthQueuingStrategy {
    pub high_water_mark: Number,
}

/// The strategy that counts chunks.
#[derive(Clone, Copy, Debug, PartialEq, Eq, Structural)]
pub struct CountQueuingStrategy {
    pub high_water_mark: Number,
}

impl ByteLengthQueuingStrategy {
    pub fn new(init: QueuingStrategyInit) -> (strategy: ByteLengthQueuingStrategy)
        ensures
            strategy.high_water_mark == init.high_water_mark,
    {
        ByteLengthQueuingStrategy { high_water_mark: init.high_water_mark }
    }

    pub fn high_water_mark(&self) -> (mark: Number)
        ensures
            mark == self.high_water_mark,
    {
        self.high_water_mark
    }

    /// The size of a chunk: the byte length that a view reports. Of other values only the
    /// runtime can tell what they have for a byte length.
    pub fn size(scope: &Scope, chunk: &Value) -> (size: Option<Number>)
        ensures
            size == match *chunk {
                Value::Bytes(view) => Some(
                    Number::counted(view_length_of(scope@.heap, view) as nat),
                ),
                _ => None,
            },
    {
        match chunk {
            Value::Bytes(view) => Some(Number::of_count(scope.view_byte_length(*view) as u128)),
            _ => None,
        }
    }
}

impl CountQueuingStrategy {
    pub fn new(init: QueuingStrategyInit) -> (strategy: CountQueuingStrategy)
        ensures
            strategy.high_water_mark == init.high_water_mark,
    {
        CountQueuingStrategy { high_water_mark: init.high_water_mark }
    }

    pub fn high_water_mark(&self) -> (mark: Number)
        ensures
            mark == self.high_water_mark,
    {
        self.high_water_mark
    }

    /// The size of a chunk, which is one.
    pub fn size(_chunk: &Value) -> (size: Number)
        ensures
            size == (Number { bits: ONE }),
    {
        Number { bits: ONE }
    }
}

/// An entry of a queue, with its size.
#[derive(Debug, PartialEq, Eq)]
pub struct ValueWithSize {
    pub value: Value,
    pub size: Number,
    /// Whether the entry marks the close of a writable stream.
    pub is_close_sentinel: bool,
}

/// Something that has a queue with sizes.
pub trait QueueWithSizes: Sized {
    /// What there is to it besides the queue.
    type Rest;

    spec fn entries(&self) -> Seq<ValueWithSize>;

    spec fn total_size(&self) -> Number;

    spec fn rest(&self) -> Self::Rest;

    fn queue(&self) -> (queue: &VecDeque<ValueWithSize>)
        ensures
            queue@ == self.entries(),
    ;

    fn queue_mut(&mut self) -> (queue: &mut VecDeque<ValueWithSize>)
        ensures
            queue@ == old(self).entries(),
            final(self).entries() == final(queue)@,
            final(self).total_size() == old(self).total_size(),
            final(self).rest() == old(self).rest(),
    ;

    fn queue_total_size(&self) -> (total: Number)
        ensures
            total == self.total_size(),
    ;

    fn set_queue_total_size(&mut self, size: Number)
        ensures
            final(self).entries() == old(self).entries(),
            final(self).total_size() == size,
            final(self).rest() == old(self).rest(),
    ;
}

} // verus!
