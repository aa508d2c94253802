//! When the source of a byte stream is asked for more: whatever is done to the stream, a source
//! that it wants bytes from has a pull under way.

use vstd::prelude::*;

use crate::buffer::ArrayBufferView;
use crate::number::Number;
use crate::readable::byte_stream_controller::{
    byte_desired_size, ByteControllerModel, ByteWorld, PullIntoDescriptor,
};
use crate::readable::read_request::{ReadIntoRequest, ReadRequest};
use crate::readable::readable_stream::ReadableStreamState;
use crate::readable::slots::ReaderModel;
use crate::scope::{Call, Effect};

verus! {

/// Whether a byte stream wants bytes: its source has started and may give some, and a read or a
/// read into a view waits, or there is room below the high-water mark.
pub open spec fn wants_bytes(w: ByteWorld) -> bool {
    &&& w.slots.state is Readable
    &&& !w.controller.close_requested
    &&& w.controller.started
    &&& {
        ||| w.slots.requests().len() > 0
        ||| w.slots.into_requests().len() > 0
        ||| w.controller.hwm.minus(Number::counted(w.controller.total as nat)).positive()
    }
}

/// Whether a source has been asked for more: where none of its pulls is under way, it is
/// called, and otherwise it will be when that has ended.
pub open spec fn pulled_again(before: ByteWorld, after: ByteWorld) -> bool {
    &&& after.controller.pulling
    &&& before.controller.pulling ==> after.controller.pull_again
    &&& !before.controller.pulling ==> exists|i: int|
        before.scope.effects.len() <= i < after.scope.effects.len()
            && #[trigger] after.scope.effects[i] == (Effect::Invoke {
            call: Call::ReadablePull { stream: before.slots.id },
            algorithm: before.controller.pull_algorithm,
            receiver: before.controller.receiver,
        })
}

/// Whether the source was asked for more just as the stream wants it.
pub open spec fn attended_to(before: ByteWorld, after: ByteWorld) -> bool {
    &&& wants_bytes(after) ==> pulled_again(before, after)
    &&& !wants_bytes(after) ==> {
        &&& after.controller.pulling == before.controller.pulling
        &&& after.controller.pull_again == before.controller.pull_again
    }
}

/// What an operation on a byte stream leaves alone before the source is asked for more.
pub open spec fn pulls_kept(before: ByteWorld, after: ByteWorld) -> bool {
    &&& after.slots.id == before.slots.id
    &&& after.slots.state == before.slots.state
    &&& after.controller.pulling == before.controller.pulling
    &&& after.controller.pull_again == before.controller.pull_again
    &&& after.controller.pull_algorithm == before.controller.pull_algorithm
    &&& after.controller.cancel_algorithm == before.controller.cancel_algorithm
    &&& after.controller.receiver == before.controller.receiver
    &&& after.controller.started == before.controller.started
    &&& after.controller.close_requested == before.controller.close_requested
    &&& after.controller.hwm == before.controller.hwm
    &&& after.controller.auto_allocate_chunk_size == before.controller.auto_allocate_chunk_size
    &&& before.scope.effects.len() <= after.scope.effects.len()
}

/// The source is asked for more where the stream wants it, and left alone otherwise; one call
/// at a time.
pub proof fn law_bytes_pulled_as_wanted(w: ByteWorld)
    ensures
        attended_to(w, w.call_pull()),
        w.call_pull().slots == w.slots,
        w.call_pull().controller == (ByteControllerModel {
            pulling: w.call_pull().controller.pulling,
            pull_again: w.call_pull().controller.pull_again,
            ..w.controller
        }),
        wants_bytes(w) && !w.controller.pulling ==> w.call_pull().controller.pull_again
            == w.controller.pull_again && w.call_pull().scope == w.scope.emit(
            Effect::Invoke {
                call: Call::ReadablePull { stream: w.slots.id },
                algorithm: w.controller.pull_algorithm,
                receiver: w.controller.receiver,
            },
        ),
        !wants_bytes(w) || w.controller.pulling ==> w.call_pull().scope == w.scope,
{
    let after = w.call_pull();
    if wants_bytes(w) && !w.controller.pulling {
        let i = w.scope.effects.len() as int;
        assert(after.scope.effects[i] == (Effect::Invoke {
            call: Call::ReadablePull { stream: w.slots.id },
            algorithm: w.controller.pull_algorithm,
            receiver: w.controller.receiver,
        }));
    }
}

/// What ends in a call for more is attended to, as is what only tells of something after that.
proof fn lemma_attended_to(before: ByteWorld, step: ByteWorld, after: ByteWorld)
    requires
        pulls_kept(before, step),
        after.slots == step.call_pull().slots,
        after.controller == step.call_pull().controller,
        step.call_pull().scope.effects.is_prefix_of(after.scope.effects),
    ensures
        attended_to(before, after),
{
    law_bytes_pulled_as_wanted(step);
    let mid = step.call_pull();
    if wants_bytes(step) && !step.controller.pulling {
        let i = step.scope.effects.len() as int;
        assert(mid.scope.effects[i] == after.scope.effects[i]);
        assert(after.scope.effects[i] == (Effect::Invoke {
            call: Call::ReadablePull { stream: before.slots.id },
            algorithm: before.controller.pull_algorithm,
            receiver: before.controller.receiver,
        }));
    }
}

/// The views that wait are filled without any pull.
proof fn lemma_process_keeps_pulls(w: ByteWorld)
    ensures
        pulls_kept(w, w.process_pull_intos().0),
        w.process_pull_intos().0.slots == w.slots,
        w.process_pull_intos().0.scope.effects == w.scope.effects,
    decreases w.controller.pending.len(),
{
    if w.controller.pending.len() > 0 && w.controller.total > 0 {
        let filled = w.fill(w.controller.pending[0]);
        lemma_process_keeps_pulls(filled.with_controller(filled.controller.shifted()));
    }
}

/// The views that are ready are handed out without any pull.
proof fn lemma_commit_keeps_pulls(w: ByteWorld, descriptors: Seq<PullIntoDescriptor>)
    ensures
        pulls_kept(w, w.commit_all(descriptors)),
        w.commit_all(descriptors).controller == w.controller,
        w.scope.effects.is_prefix_of(w.commit_all(descriptors).scope.effects),
        w.commit_all(descriptors).scope.effects.len() == w.scope.effects.len()
            + descriptors.len(),
    decreases descriptors.len(),
{
    if descriptors.len() > 0 {
        lemma_commit_keeps_pulls(w.commit(descriptors[0]), descriptors.drop_first());
    }
}

proof fn lemma_commit_and_process(w: ByteWorld, first: Seq<PullIntoDescriptor>)
    ensures
        pulls_kept(w, w.process_and_commit(first)),
{
    lemma_process_keeps_pulls(w);
    let (processed, ready) = w.process_pull_intos();
    lemma_commit_keeps_pulls(processed, first + ready);
}

/// An answer of the source that is taken is followed by the next pull, if the stream still wants
/// bytes: a read that still waits does not wait for nothing.
pub proof fn law_answer_attended(w: ByteWorld, count: u64, view: ArrayBufferView)
    ensures
        w.respond(count).1 is Ok ==> attended_to(w, w.respond(count).0),
        w.respond_with_new_view(view).1 is Ok ==> attended_to(w, w.respond_with_new_view(view).0),
{
    if w.respond(count).1 is Ok {
        let moved = w.move_head(w.controller.pending[0].buffer);
        lemma_answer_internal(moved, count as usize);
        lemma_attended_since(w, moved, w.respond(count).0);
    }
    if w.respond_with_new_view(view).1 is Ok {
        let moved = w.move_head(view.buffer);
        lemma_answer_internal(moved, view.byte_length);
        lemma_attended_since(w, moved, w.respond_with_new_view(view).0);
    }
}

proof fn lemma_attended_since(earlier: ByteWorld, before: ByteWorld, after: ByteWorld)
    requires
        pulls_kept(earlier, before),
        attended_to(before, after),
    ensures
        attended_to(earlier, after),
{
}

proof fn lemma_answer_internal(w: ByteWorld, count: usize)
    ensures
        w.respond_internal(count).1 is Ok ==> attended_to(w, w.respond_internal(count).0),
{
    let valid = w.invalidated();
    if valid.slots.state is Closed {
        let head = valid.controller.pending[0];
        let left = if head.reader_type is Released {
            valid.with_controller(valid.controller.shifted())
        } else {
            valid
        };
        let waiting = left.slots.into_requests().len() as int;
        lemma_commit_keeps_pulls(
            left.with_controller(
                ByteControllerModel {
                    pending: left.controller.pending.skip(waiting),
                    ..left.controller
                },
            ),
            left.controller.pending.take(waiting),
        );
        lemma_attended_to(w, valid.respond_closed(), w.respond_internal(count).0);
    } else {
        let (after, result) = valid.respond_readable(count);
        if result is Ok {
            lemma_answer_readable(valid, count);
            lemma_attended_to(w, after, w.respond_internal(count).0);
        }
    }
}

proof fn lemma_answer_readable(w: ByteWorld, count: usize)
    ensures
        w.respond_readable(count).1 is Ok ==> pulls_kept(w, w.respond_readable(count).0),
{
    let head = w.controller.pending[0];
    let filled = PullIntoDescriptor {
        bytes_filled: (head.bytes_filled + count) as usize,
        ..head
    };
    let rest = w.with_controller(w.controller.shifted());
    let remainder = filled.bytes_filled % filled.element_size;
    if filled.reader_type is Released {
        let (left, result) = w.with_controller(w.controller.with_head(filled)).enqueue_detached();
        if result is Ok {
            lemma_commit_and_process(left, Seq::empty());
        }
    } else if filled.bytes_filled >= filled.minimum_fill {
        let (left, result) = if remainder > 0 {
            rest.enqueue_cloned(
                filled.buffer,
                (filled.byte_offset + filled.bytes_filled - remainder) as usize,
                remainder,
            )
        } else {
            (rest, Ok(()))
        };
        let whole = PullIntoDescriptor {
            bytes_filled: (filled.bytes_filled - remainder) as usize,
            ..filled
        };
        if result is Ok {
            lemma_commit_and_process(left, seq![whole]);
        }
    }
}

/// Bytes that the source gives are followed by the next pull, if the stream still wants more.
pub proof fn law_bytes_attended(w: ByteWorld, chunk: ArrayBufferView)
    requires
        w.slots.state is Readable,
        !w.controller.close_requested,
    ensures
        w.enqueue(chunk).1 is Ok ==> attended_to(w, w.enqueue(chunk).0),
        attended_to(w, w.enqueue_rest(chunk)),
{
    lemma_take_attended(w, chunk.buffer, chunk.byte_offset, chunk.byte_length);
    if w.enqueue(chunk).1 is Ok {
        let moved = w.with_heap(crate::buffer::transferred(w.scope.heap, chunk.buffer));
        let (ready, result) = moved.prepare_head();
        assert(pulls_kept(w, ready));
        lemma_take_attended(
            ready,
            w.scope.heap.len() as usize,
            chunk.byte_offset,
            chunk.byte_length,
        );
        lemma_attended_since(w, ready, w.enqueue(chunk).0);
    }
}

proof fn lemma_take_attended(
    w: ByteWorld,
    buffer: usize,
    byte_offset: usize,
    byte_length: usize,
)
    requires
        !w.controller.close_requested,
    ensures
        attended_to(w, w.take_chunk_and_pull(buffer, byte_offset, byte_length)),
{
    let (taken, later) = w.take_chunk(buffer, byte_offset, byte_length);
    let after = w.take_chunk_and_pull(buffer, byte_offset, byte_length);
    match w.slots.reader {
        ReaderModel::Default(_) => {
            if later {
                let entry = w.controller.queue[0];
                let given = w.with_slots(w.slots.without_first_request()).with_controller(
                    ByteControllerModel {
                        queue: w.controller.queue.drop_first(),
                        total: (w.controller.total - entry.byte_length) as u128,
                        ..w.controller
                    },
                );
                lemma_attended_to(w, given, after);
            } else {
                lemma_attended_to(w, taken, after);
            }
        },
        ReaderModel::Byob(_) => {
            let queued = w.with_controller(
                w.controller.with_entry(buffer, byte_offset, byte_length),
            );
            lemma_commit_and_process(queued, Seq::empty());
            lemma_process_keeps_pulls(queued);
            let (processed, ready) = queued.process_pull_intos();
            lemma_commit_keeps_pulls(processed, ready);
            lemma_attended_to(w, taken, after);
        },
        ReaderModel::Unlocked => {
            lemma_attended_to(w, taken, after);
        },
    }
}

/// A read that waits is followed by a pull, as is one that is handed bytes while the stream
/// wants more. The bytes that were last before a close end the stream instead.
pub proof fn law_byte_read_attended(w: ByteWorld, request: ReadRequest)
    requires
        w.slots.state is Readable,
    ensures
        ({
            let after = w.pull_steps(request);
            let refused = w.controller.total == 0 && (
            w.controller.auto_allocate_chunk_size matches Some(size) && size > w.scope.limit);
            let last = w.controller.total > 0 && w.controller.close_requested
                && w.controller.total == w.controller.queue[0].byte_length;
            &&& !refused && !last ==> attended_to(w, after)
            &&& last ==> after.slots.state is Closed
        }),
{
    let after = w.pull_steps(request);
    if w.controller.total > 0 {
        let entry = w.controller.queue[0];
        let taken = w.with_controller(
            ByteControllerModel {
                queue: w.controller.queue.drop_first(),
                total: (w.controller.total - entry.byte_length) as u128,
                ..w.controller
            },
        );
        if !(taken.controller.total == 0 && w.controller.close_requested) {
            lemma_attended_to(w, taken, after);
        }
    } else {
        match w.controller.auto_allocate_chunk_size {
            None => {
                lemma_attended_to(w, w.with_slots(w.slots.with_request(request)), after);
            },
            Some(size) => {
                if size <= w.scope.limit {
                    let zeros = Seq::new(size as nat, |i: int| 0u8);
                    let waiting = w.with_heap(
                        w.scope.heap.push(crate::buffer::fresh_buffer(zeros)),
                    ).with_controller(
                        w.controller.with_pending(w.auto_descriptor(size)),
                    ).with_slots(w.slots.with_request(request));
                    lemma_attended_to(w, waiting, after);
                }
            },
        }
    }
}

/// A read into a view that has to wait, and is the first that does, is followed by a pull; one
/// that waits behind others is not, for theirs is under way.
pub proof fn law_byte_read_into_attended(
    w: ByteWorld,
    view: ArrayBufferView,
    min: usize,
    request: ReadIntoRequest,
)
    requires
        w.slots.state is Readable,
        crate::buffer::can_transfer(w.scope.heap, view.buffer),
    ensures
        ({
            let after = w.pull_into(view, min, request);
            let waits = after.slots.into_requests().len() > w.slots.into_requests().len();
            &&& w.controller.pending.len() > 0 ==> {
                &&& after.controller.pulling == w.controller.pulling
                &&& after.controller.pull_again == w.controller.pull_again
                &&& after.scope.effects == w.scope.effects
                &&& after.slots.into_requests() == w.slots.into_requests().push(request)
            }
            &&& w.controller.pending.len() == 0 && waits ==> attended_to(w, after)
        }),
{
    let after = w.pull_into(view, min, request);
    if w.controller.pending.len() == 0 {
        let descriptor = w.into_descriptor(view, min);
        let moved = w.with_heap(crate::buffer::transferred(w.scope.heap, view.buffer));
        if w.controller.total == 0 {
            lemma_attended_to(w, moved.wait_into(descriptor, request), after);
        } else {
            let filled = crate::readable::byte_stream_controller::filled_from_queue(
                moved.controller.total,
                descriptor,
            );
            let rest = moved.fill(descriptor);
            if !crate::readable::byte_stream_controller::fill_ready(
                moved.controller.total,
                descriptor,
            ) && !w.controller.close_requested {
                lemma_attended_to(w, rest.wait_into(filled, request), after);
            }
        }
    }
}

/// The end of a start is the first time that the source is asked for bytes; that of a pull,
/// another, if one was asked for while it was under way and is still wanted.
pub proof fn law_byte_source_done(w: ByteWorld)
    ensures
        w.start_fulfilled().controller.started,
        w.start_fulfilled().controller.queue == w.controller.queue,
        w.start_fulfilled().slots == w.slots,
        attended_to(w, w.start_fulfilled()),
        ({
            let after = w.pull_fulfilled();
            &&& after.slots == w.slots
            &&& after.controller.queue == w.controller.queue
            &&& after.controller.pending == w.controller.pending
            &&& !after.controller.pull_again
            &&& if w.controller.pull_again && wants_bytes(w) {
                &&& after.controller.pulling
                &&& after.scope == w.scope.emit(
                    Effect::Invoke {
                        call: Call::ReadablePull { stream: w.slots.id },
                        algorithm: w.controller.pull_algorithm,
                        receiver: w.controller.receiver,
                    },
                )
            } else {
                &&& !after.controller.pulling
                &&& after.scope == w.scope
            }
        }),
{
    let started = w.with_controller(ByteControllerModel { started: true, ..w.controller });
    law_bytes_pulled_as_wanted(started);
}

/// The room that a source is told of is what its high-water mark leaves above the bytes that
/// wait; it is nothing once the stream has closed, and there is none to speak of once it has
/// failed.
pub proof fn law_byte_room(w: ByteWorld)
    ensures
        byte_desired_size(w.slots, w.controller) == match w.slots.state {
            ReadableStreamState::Readable => Some(
                w.controller.hwm.minus(Number::counted(w.controller.total as nat)),
            ),
            ReadableStreamState::Closed => Some(Number { bits: 0 }),
            ReadableStreamState::Errored => None,
        },
{
}

} // verus!
