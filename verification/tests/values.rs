use std::collections::VecDeque;

use web_streams::algorithms::{
    dequeue_value, enqueue_value_with_size, extract_high_water_mark, extract_size_algorithm,
    is_non_negative_number, make_type_error, peek_queue_value, reset_queue,
};
use web_streams::buffer::{ArrayBuffer, ViewKind};
use web_streams::number::Number;
use web_streams::queuing::{
    ByteLengthQueuingStrategy, CallbackObject, CountQueuingStrategy, QueuingStrategy,
    QueuingStrategyInit,
};
use web_streams::readable::default_controller::ReadableStreamDefaultController;
use web_streams::scope::{Algorithm, Scope};
use web_streams::support::{callback_member, create_iter_result, ensure_callback_members_callable};
use web_streams::value::{Message, Value};

fn number(value: f64) -> Number {
    Number { bits: value.to_bits() }
}

fn queue() -> ReadableStreamDefaultController {
    ReadableStreamDefaultController {
        cancel_algorithm: Algorithm::Undefined,
        close_requested: false,
        pull_again: false,
        pull_algorithm: Algorithm::Undefined,
        pulling: false,
        queue: VecDeque::new(),
        queue_total_size: number(0.0),
        started: false,
        strategy_hwm: number(1.0),
        strategy_size_algorithm: Algorithm::One,
        algorithm_receiver: Value::Undefined,
    }
}

#[test]
fn errors_say_what_is_wrong() {
    assert_eq!(Message::SizeMustBeFunction.text(), "queuing strategy size must be a function");
    assert_eq!(Message::PipeFromLocked.text(), "cannot pipe from a locked ReadableStream");
    assert_eq!(Message::PipeToLocked.text(), "cannot pipe to a locked WritableStream");
    assert_eq!(
        Message::PipeDestinationClosed.text(),
        "the destination writable stream closed before all data could be piped to it"
    );
    assert_eq!(Message::TransformTerminated.text(), "The stream has been terminated");
    assert_eq!(
        Message::ChunkNotUint8Array.text(),
        "a body stream chunk must be a Uint8Array"
    );
    assert_eq!(
        make_type_error(Message::InvalidSink),
        Value::TypeError(Message::InvalidSink)
    );
}

#[test]
fn a_queue_hands_its_values_out_in_order() {
    let mut queue = queue();
    assert_eq!(enqueue_value_with_size(&mut queue, Value::Handle(1), number(4.0)), Ok(()));
    assert_eq!(enqueue_value_with_size(&mut queue, Value::Handle(2), number(0.0)), Ok(()));
    assert_eq!(queue.queue_total_size, number(4.0));
    assert_eq!(peek_queue_value(&queue), Value::Handle(1));
    assert_eq!(dequeue_value(&mut queue), Value::Handle(1));
    assert_eq!(queue.queue_total_size, number(0.0));
    assert_eq!(dequeue_value(&mut queue), Value::Handle(2));
    assert!(queue.queue.is_empty());
}

#[test]
fn a_queue_refuses_sizes_that_are_no_sizes() {
    let mut queue = queue();
    for size in [number(f64::NAN), number(-1.0), number(f64::INFINITY)] {
        assert_eq!(
            enqueue_value_with_size(&mut queue, Value::Handle(1), size),
            Err(Value::RangeError(Message::SizeOutOfRange))
        );
    }
    assert!(queue.queue.is_empty());
}

#[test]
fn a_queue_can_be_emptied() {
    let mut queue = queue();
    enqueue_value_with_size(&mut queue, Value::Handle(1), number(4.0)).unwrap();
    reset_queue(&mut queue);
    assert!(queue.queue.is_empty());
    assert_eq!(queue.queue_total_size, number(0.0));
}

#[test]
fn the_room_in_a_queue_is_its_mark_less_its_size() {
    assert_eq!(number(5.0).subtract(number(3.0)), number(2.0));
    assert_eq!(number(5.0).subtract(number(5.0)), number(0.0));
    assert_eq!(number(5.0).subtract(number(8.0)), number(-3.0));
    assert_eq!(number(f64::INFINITY).subtract(number(8.0)), number(f64::INFINITY));
    assert_eq!(number(1.5).subtract(number(0.5)), number(1.0));
    assert_eq!(number(1.0).subtract(number(0.1).add(number(0.2))), number(1.0 - (0.1 + 0.2)));
    assert!(number(f64::INFINITY).is_positive());
    assert!(number(1.0).is_positive());
    assert!(!number(0.0).is_positive());
    assert!(!number(-1.0).is_positive());
}

#[test]
fn strategies_are_read_with_their_defaults() {
    let default = number(1.0);
    assert_eq!(extract_high_water_mark(&None, default), Ok(default));
    let empty = Some(QueuingStrategy { high_water_mark: None, size: None });
    assert_eq!(extract_high_water_mark(&empty, default), Ok(default));
    let endless = Some(QueuingStrategy { high_water_mark: Some(number(f64::INFINITY)), size: None });
    assert_eq!(extract_high_water_mark(&endless, default), Ok(number(f64::INFINITY)));
    assert_eq!(extract_size_algorithm(&None), Ok(Algorithm::One));
    assert_eq!(extract_size_algorithm(&empty), Ok(Algorithm::One));
    let size = Some(CallbackObject { handle: 6, callable: true });
    let sized = Some(QueuingStrategy { high_water_mark: None, size });
    assert_eq!(extract_size_algorithm(&sized), Ok(Algorithm::Callback(6)));
    assert!(is_non_negative_number(number(f64::INFINITY)));
    assert!(is_non_negative_number(number(0.0)));
    assert!(!is_non_negative_number(number(f64::NAN)));
    assert!(!is_non_negative_number(number(-1.0)));
}

#[test]
fn the_ready_made_strategies_keep_their_marks() {
    let init = QueuingStrategyInit { high_water_mark: number(9.0) };
    let counting = CountQueuingStrategy::new(init);
    assert_eq!(counting.high_water_mark(), number(9.0));
    assert_eq!(CountQueuingStrategy::size(&Value::Handle(4)), number(1.0));
    let weighing = ByteLengthQueuingStrategy::new(init);
    assert_eq!(weighing.high_water_mark(), number(9.0));
    for mark in [-3.0, 1.5, -0.0, f64::NEG_INFINITY, f64::NAN, 5e-324] {
        let init = QueuingStrategyInit { high_water_mark: number(mark) };
        assert_eq!(CountQueuingStrategy::new(init).high_water_mark(), number(mark));
        assert_eq!(ByteLengthQueuingStrategy::new(init).high_water_mark(), number(mark));
    }
}

#[test]
fn a_queue_adds_its_sizes_up_as_scripts_do() {
    let mut queue = queue();
    for size in [0.1, 0.2, 0.3] {
        enqueue_value_with_size(&mut queue, Value::Handle(1), number(size)).unwrap();
    }
    assert_eq!(queue.queue_total_size, number(0.1 + 0.2 + 0.3));
    dequeue_value(&mut queue);
    assert_eq!(queue.queue_total_size, number(0.1 + 0.2 + 0.3 - 0.1));
    dequeue_value(&mut queue);
    dequeue_value(&mut queue);
    assert_eq!(queue.queue_total_size, number(((0.1 + 0.2 + 0.3) - 0.1 - 0.2) - 0.3));
}

#[test]
fn a_queue_does_not_fall_below_nothing() {
    let mut queue = queue();
    enqueue_value_with_size(&mut queue, Value::Handle(1), number(0.2)).unwrap();
    enqueue_value_with_size(&mut queue, Value::Handle(2), number(0.5)).unwrap();
    assert_eq!(queue.queue_total_size, number(0.2 + 0.5));
    dequeue_value(&mut queue);
    assert_eq!(queue.queue_total_size, number(0.2 + 0.5 - 0.2));
    assert_eq!(queue.queue_total_size, number(0.49999999999999994));
    dequeue_value(&mut queue);
    assert_eq!(queue.queue_total_size, number(0.0));
}

#[test]
fn a_queue_takes_the_zero_with_a_sign() {
    let mut queue = queue();
    assert_eq!(enqueue_value_with_size(&mut queue, Value::Handle(1), number(-0.0)), Ok(()));
    assert_eq!(queue.queue_total_size, number(0.0));
    dequeue_value(&mut queue);
    assert_eq!(queue.queue_total_size, number(0.0));
    let mark = Some(QueuingStrategy { high_water_mark: Some(number(-0.0)), size: None });
    assert_eq!(extract_high_water_mark(&mark, number(1.0)), Ok(number(-0.0)));
}

#[test]
fn a_queue_can_grow_beyond_all_bounds() {
    let mut queue = queue();
    enqueue_value_with_size(&mut queue, Value::Handle(1), number(f64::MAX)).unwrap();
    enqueue_value_with_size(&mut queue, Value::Handle(2), number(f64::MAX)).unwrap();
    assert_eq!(queue.queue_total_size, number(f64::INFINITY));
    dequeue_value(&mut queue);
    assert_eq!(queue.queue_total_size, number(f64::INFINITY));
    assert!(number(f64::INFINITY).subtract(queue.queue_total_size).is_nan());
}

#[test]
fn members_have_to_be_callable() {
    let good = Some(CallbackObject { handle: 6, callable: true });
    let bad = Some(CallbackObject { handle: 7, callable: false });
    let message = Message::SinkWriteNotFunction;
    assert_eq!(callback_member(good, message), Ok(Algorithm::Callback(6)));
    assert_eq!(callback_member(None, message), Ok(Algorithm::Undefined));
    assert_eq!(callback_member(bad, message), Err(Value::TypeError(message)));
    let members = vec![
        (good, Message::SinkStartNotFunction),
        (bad, Message::SinkAbortNotFunction),
        (bad, Message::SinkCloseNotFunction),
    ];
    assert_eq!(
        ensure_callback_members_callable(&members),
        Err(Value::TypeError(Message::SinkAbortNotFunction))
    );
    assert_eq!(ensure_callback_members_callable(&vec![(good, message)]), Ok(()));
}

#[test]
fn an_iteration_result_has_a_value_and_tells_the_end() {
    assert_eq!(
        create_iter_result(Value::Handle(1), false),
        Value::IterResult(Box::new(Value::Handle(1)), false)
    );
}

#[test]
fn buffers_are_moved_copied_and_allocated() {
    let mut scope = Scope::new(8);
    scope.buffers.push(ArrayBuffer { data: vec![1, 2, 3], detached: false, detachable: true });
    let moved = scope.transfer(0).unwrap_or_else(|_| panic!("it can be moved"));
    assert!(scope.is_detached(0));
    assert_eq!(scope.buffers[moved].data, vec![1, 2, 3]);
    assert_eq!(scope.transfer(0), Err(Value::TypeError(Message::BufferDetached)));
    let copy = scope.clone_region(moved, 1, 2).unwrap_or_else(|_| panic!("it can be copied"));
    assert_eq!(scope.buffers[copy].data, vec![2, 3]);
    assert!(!scope.is_detached(moved));
    assert_eq!(scope.clone_region(0, 0, 0), Err(Value::TypeError(Message::BufferDetached)));
    let fresh = scope.allocate(4).unwrap_or_else(|_| panic!("it fits"));
    assert_eq!(scope.buffers[fresh].data, vec![0, 0, 0, 0]);
    assert_eq!(scope.allocate(9), Err(Value::RangeError(Message::BufferTooLong)));
    assert_eq!(scope.store(vec![0; 9]), Err(Value::RangeError(Message::BufferTooLong)));
    scope.copy_data_block_bytes(fresh, 2, moved, 0, 2);
    assert_eq!(scope.buffers[fresh].data, vec![0, 0, 1, 2]);
    scope.buffers[fresh].detachable = false;
    assert_eq!(scope.transfer(fresh), Err(Value::TypeError(Message::BufferNotDetachable)));
    assert_eq!(scope.transfer(99), Err(Value::TypeError(Message::BufferDetached)));
}

#[test]
fn elements_have_sizes() {
    assert_eq!(ViewKind::Uint8.element_size(), 1);
    assert_eq!(ViewKind::Int16.element_size(), 2);
    assert_eq!(ViewKind::Float32.element_size(), 4);
    assert_eq!(ViewKind::BigUint64.element_size(), 8);
    assert_eq!(ViewKind::DataView.element_size(), 1);
    assert!(ViewKind::Float64.is_typed_array());
    assert!(!ViewKind::DataView.is_typed_array());
}
