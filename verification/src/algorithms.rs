//! The operations that the kinds of streams share.

use vstd::prelude::*;

use crate::number::{Number, SIGN};
use crate::queuing::{QueueWithSizes, QueuingStrategy, ValueWithSize};
use crate::scope::Algorithm;
use crate::value::{Message, Value};

verus! {

/// A `TypeError` as a value, to reject a promise with.
pub fn make_type_error(message: Message) -> (error: Value)
    ensures
        error == Value::TypeError(message),
{
    Value::TypeError(message)
}

/// The array of two reasons.
pub fn composite_reason(first: &Value, second: &Value) -> (reason: Value)
    ensures
        reason == crate::value::pair_of(*first, *second),
{
    Value::Pair(Box::new(first.clone()), Box::new(second.clone()))
}

/// Whether a number is zero or more.
pub fn is_non_negative_number(number: Number) -> (non_negative: bool)
    ensures
        non_negative == number.non_negative(),
{
    !number.is_nan() && (number.bits < SIGN || number.bits == SIGN)
}

/// The high-water mark that a strategy asks for.
pub open spec fn high_water_mark_of(
    strategy: Option<QueuingStrategy>,
    default: Number,
) -> Result<Number, Value> {
    match strategy {
        None => Ok(default),
        Some(strategy) => match strategy.high_water_mark {
            None => Ok(default),
            Some(mark) => if mark.non_negative() {
                Ok(mark)
            } else {
                Err(Value::RangeError(Message::HighWaterMarkNegative))
            },
        },
    }
}

/// Takes the high-water mark from a strategy.
pub fn extract_high_water_mark(
    strategy: &Option<QueuingStrategy>,
    default: Number,
) -> (mark: Result<Number, Value>)
    ensures
        mark == high_water_mark_of(*strategy, default),
{
    let given: Option<Number> = match strategy {
        None => None,
        Some(strategy) => strategy.high_water_mark,
    };
    match given {
        None => Ok(default),
        Some(mark) => if is_non_negative_number(mark) {
            Ok(mark)
        } else {
            Err(Value::RangeError(Message::HighWaterMarkNegative))
        },
    }
}

/// The size algorithm that a strategy asks for.
pub open spec fn size_algorithm_of(strategy: Option<QueuingStrategy>) -> Result<Algorithm, Value> {
    match strategy {
        None => Ok(Algorithm::One),
        Some(strategy) => match strategy.size {
            None => Ok(Algorithm::One),
            Some(size) => if size.callable {
                Ok(Algorithm::Callback(size.handle))
            } else {
                Err(Value::TypeError(Message::SizeMustBeFunction))
            },
        },
    }
}

/// Takes the size algorithm from a strategy.
pub fn extract_size_algorithm(strategy: &Option<QueuingStrategy>) -> (algorithm: Result<
    Algorithm,
    Value,
>)
    ensures
        algorithm == size_algorithm_of(*strategy),
{
    match strategy {
        None => Ok(Algorithm::One),
        Some(strategy) => match strategy.size {
            None => Ok(Algorithm::One),
            Some(size) => if size.callable {
                Ok(Algorithm::Callback(size.handle))
            } else {
                Err(Value::TypeError(Message::SizeMustBeFunction))
            },
        },
    }
}

/// The total size of a queue after an entry of the given size has left it. Rounding may have
/// left less in the total than the entry took up.
pub open spec fn total_without(total: Number, size: Number) -> Number {
    let left = total.minus(size);
    if left.below_zero() {
        Number { bits: 0 }
    } else {
        left
    }
}

/// Takes the first value out of a queue.
pub fn dequeue_value<Q: QueueWithSizes>(container: &mut Q) -> (value: Value)
    requires
        old(container).entries().len() > 0,
    ensures
        value == old(container).entries()[0].value,
        final(container).entries() == old(container).entries().drop_first(),
        final(container).total_size() == total_without(
            old(container).total_size(),
            old(container).entries()[0].size,
        ),
        final(container).rest() == old(container).rest(),
{
    match container.queue_mut().pop_front() {
        Some(entry) => {
            assert(container.entries() =~= old(container).entries().drop_first());
            let left: Number = container.queue_total_size().subtract(entry.size);
            if left.is_below_zero() {
                container.set_queue_total_size(Number { bits: 0 });
            } else {
                container.set_queue_total_size(left);
            }
            entry.value
        },
        None => Value::Undefined,
    }
}

/// The first value of a queue.
pub fn peek_queue_value<Q: QueueWithSizes>(container: &Q) -> (value: Value)
    requires
        container.entries().len() > 0,
    ensures
        value == container.entries()[0].value,
{
    container.queue()[0].value.clone()
}

/// The entry that is made of a value and its size.
pub open spec fn sized(value: Value, size: Number) -> ValueWithSize {
    ValueWithSize { value, size, is_close_sentinel: false }
}

/// Puts a value with its size at the end of a queue. The size has to be finite and no
/// less than zero.
pub fn enqueue_value_with_size<Q: QueueWithSizes>(
    container: &mut Q,
    value: Value,
    size: Number,
) -> (result: Result<(), Value>)
    ensures
        final(container).rest() == old(container).rest(),
        if size.countable() {
            &&& result == Ok::<(), Value>(())
            &&& final(container).entries() == old(container).entries().push(sized(value, size))
            &&& final(container).total_size() == old(container).total_size().plus(size)
        } else {
            &&& result == Err::<(), Value>(Value::RangeError(Message::SizeOutOfRange))
            &&& final(container).entries() == old(container).entries()
            &&& final(container).total_size() == old(container).total_size()
        },
{
    if !is_non_negative_number(size) {
        return Err(Value::RangeError(Message::SizeOutOfRange));
    }
    if !size.is_finite() {
        return Err(Value::RangeError(Message::SizeOutOfRange));
    }
    container.queue_mut().push_back(ValueWithSize { value, size, is_close_sentinel: false });
    let total: Number = container.queue_total_size().add(size);
    container.set_queue_total_size(total);
    Ok(())
}

/// Empties a queue.
pub fn reset_queue<Q: QueueWithSizes>(container: &mut Q)
    ensures
        final(container).entries() == Seq::<ValueWithSize>::empty(),
        final(container).total_size() == (Number { bits: 0 }),
        final(container).rest() == old(container).rest(),
{
    container.queue_mut().clear();
    container.set_queue_total_size(Number { bits: 0 });
}

} // verus!
