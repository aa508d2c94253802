//! That a pipe hands on what its source gives: each chunk once, and in order.

use vstd::prelude::*;

use crate::algorithms::sized;
use crate::number::{Number, ONE};
use crate::queuing::ValueWithSize;
use crate::readable::default_controller::EnqueueStep;
use crate::readable::pipe::{PipeState, PipeWorld, PipeWriteStep};
use crate::readable::read_request::ReadRequest;
use crate::readable::stream_world::ReadableWorld;
use crate::scope::{Algorithm, Effect, Microtask, PromiseRef, ReadOutcome};
use crate::value::Value;
use crate::writable::world::{WritableModel, WritableWorld};

verus! {

/// Something that happens while a pipe hands chunks on.
pub enum PipeTurn {
    /// The source gives a chunk, which has this size where the source has a size algorithm.
    Enqueue { chunk: Value, size: Number },
    /// The destination asks for a chunk.
    Ready,
    /// The pipe writes the chunk that it was handed, which has this size where the
    /// destination has a size algorithm.
    Write { promise: PromiseRef, size: Number },
    /// The sink of the destination has written a chunk.
    Written,
    /// The pipe hears of a write that has come to its end.
    Settled,
}

/// A pipe at work.
#[verifier::ext_equal]
pub struct Piping {
    pub world: PipeWorld,
    /// Whether the pipe has been handed a chunk that it has not written yet.
    pub handed: bool,
    /// The chunks that the sink of the destination has written.
    pub written: Seq<Value>,
}

/// The values in a queue, in order.
pub open spec fn queued_values(queue: Seq<ValueWithSize>) -> Seq<Value> {
    Seq::new(queue.len(), |i: int| queue[i].value)
}

/// Whether a stream takes writes, and no close waits behind them.
pub open spec fn open_to_writes(stream: WritableModel) -> bool {
    let queue = stream.controller.queue;
    &&& stream.state is Writable
    &&& !stream.close_queued_or_in_flight()
    &&& stream.in_flight_write is Some ==> queue.len() > 0
    &&& forall|i: int| 0 <= i < queue.len() ==> !(#[trigger] queue[i]).is_close_sentinel
}

impl PipeWorld {
    /// The pipe after its read was handed a chunk.
    pub open spec fn received(self, chunk: Value) -> PipeWorld {
        self.with_state(
            PipeState {
                pending_chunk: chunk,
                pending_writes: (self.state.pending_writes + 1) as u32,
                ..self.state
            },
        ).emit(Effect::Queue(Microtask::PipeWrite { pipe: self.state.id }))
    }

    /// The pipe after it has written the chunk that it was handed, which has this size where
    /// the destination has a size algorithm.
    #[verifier::opaque]
    pub open spec fn write_measured(self, promise: PromiseRef, size: Number) -> PipeWorld {
        let (w, step) = self.write(promise);
        match step {
            PipeWriteStep::Done => w,
            PipeWriteStep::NeedsSize { chunk, .. } => w.write_sized(chunk, Ok(size), promise),
        }
    }

    /// The read of the pipe.
    pub open spec fn request(self) -> ReadRequest {
        ReadRequest::Pipe { pipe: self.state.id }
    }
}

impl Piping {
    /// The pipe after something was done to its source, where an effect of that may have
    /// handed a chunk to the read of the pipe.
    pub open spec fn heard(self, world: PipeWorld, effect: Effect) -> Piping {
        match effect {
            Effect::ReadSteps(request, ReadOutcome::Chunk(chunk)) => if request
                == world.request() {
                Piping { world: world.received(chunk), handed: true, ..self }
            } else {
                Piping { world, ..self }
            },
            _ => Piping { world, ..self },
        }
    }

    /// The pipe after one more turn.
    #[verifier::opaque]
    pub open spec fn turned(self, turn: PipeTurn) -> Piping {
        match turn {
            PipeTurn::Enqueue { chunk, size } => {
                let (first, step) = self.world.from().as_default().enqueue(chunk);
                let source = match step {
                    EnqueueStep::Done => first,
                    EnqueueStep::NeedsSize(_) => first.enqueue_with_size(chunk, Ok(size)).0,
                };
                let place = self.world.scope.effects.len() as int;
                let world = self.world.with_source(ReadableWorld::from_default(source));
                if place < world.scope.effects.len() {
                    self.heard(world, world.scope.effects[place])
                } else {
                    Piping { world, ..self }
                }
            },
            PipeTurn::Ready => if self.handed || self.world.source.slots.requests().len() > 0 {
                self
            } else {
                let world = self.world.ready();
                if self.world.scope.effects.len() < world.scope.effects.len() {
                    self.heard(world, world.scope.effects.last())
                } else {
                    Piping { world, ..self }
                }
            },
            PipeTurn::Write { promise, size } => if self.handed {
                Piping {
                    world: self.world.write_measured(promise, size),
                    handed: false,
                    ..self
                }
            } else {
                self
            },
            PipeTurn::Written => if self.world.dest.in_flight_write is Some {
                Piping {
                    world: self.world.with_dest(self.world.to().write_fulfilled()),
                    written: self.written.push(self.world.dest.controller.queue[0].value),
                    ..self
                }
            } else {
                self
            },
            PipeTurn::Settled => if self.world.state.pending_writes > 0 {
                Piping { world: self.world.write_settled(), ..self }
            } else {
                self
            },
        }
    }

    /// The pipe after some turns.
    pub open spec fn after(self, turns: Seq<PipeTurn>) -> Piping
        decreases turns.len(),
    {
        if turns.len() == 0 {
            self
        } else {
            self.after(turns.drop_last()).turned(turns.last())
        }
    }

    /// Whether neither stream has ended or is about to, and no more than one read of the
    /// pipe waits, for a source without chunks.
    #[verifier::opaque]
    pub open spec fn flowing(self) -> bool {
        let source = self.world.source;
        &&& !self.world.state.shutting_down
        &&& !self.world.state.shutdown_waiting
        &&& !self.world.state.finished
        &&& source.controller is Default
        &&& source.slots.reader is Default
        &&& source.slots.state is Readable
        &&& !source.controller->Default_0.close_requested
        &&& source.slots.requests().len() == 0 || {
            &&& source.slots.requests() == seq![self.world.request()]
            &&& source.controller->Default_0.queue.len() == 0
            &&& !self.handed
        }
        &&& open_to_writes(self.world.dest)
    }

    /// The chunks that the destination has been asked to write, then the one that the pipe
    /// is at, then those that wait in the source.
    #[verifier::opaque]
    pub open spec fn in_line(self) -> Seq<Value> {
        self.asked() + self.at_hand() + queued_values(self.world.source.controller->Default_0.queue)
    }

    /// The chunks that the destination has been asked to write, in order: those that its
    /// sink is done with, and those that wait for it.
    #[verifier::opaque]
    pub open spec fn asked(self) -> Seq<Value> {
        self.written + queued_values(self.world.dest.controller.queue)
    }

    #[verifier::opaque]
    pub open spec fn at_hand(self) -> Seq<Value> {
        if self.handed {
            seq![self.world.state.pending_chunk]
        } else {
            Seq::empty()
        }
    }
}

/// Whether the sizes that a turn tells are such as a queue takes.
pub open spec fn fair(turn: PipeTurn) -> bool {
    match turn {
        PipeTurn::Enqueue { size, .. } => size.countable(),
        PipeTurn::Write { size, .. } => size.countable(),
        _ => true,
    }
}

/// The chunks that the source gives in the course of some turns.
pub open spec fn given(turns: Seq<PipeTurn>) -> Seq<Value>
    decreases turns.len(),
{
    if turns.len() == 0 {
        Seq::empty()
    } else {
        given(turns.drop_last()) + match turns.last() {
            PipeTurn::Enqueue { chunk, .. } => seq![chunk],
            _ => Seq::empty(),
        }
    }
}

/// What the source gives comes last, and waits in its queue unless the pipe waits for it.
proof fn lemma_enqueue_turn(p: Piping, chunk: Value, size: Number)
    requires
        p.flowing(),
        size.countable(),
    ensures
        p.turned(PipeTurn::Enqueue { chunk, size }).flowing(),
        p.turned(PipeTurn::Enqueue { chunk, size }).in_line() == p.in_line().push(chunk),
        p.turned(PipeTurn::Enqueue { chunk, size }).asked() == p.asked(),
{
    reveal(Piping::turned);
    reveal(Piping::flowing);
    reveal(Piping::in_line);
    reveal(Piping::asked);
    reveal(Piping::at_hand);
    let after = p.turned(PipeTurn::Enqueue { chunk, size });
    assert(after.in_line() =~= p.in_line().push(chunk));
}

/// A read takes the first chunk of the source.
proof fn lemma_ready_turn(p: Piping)
    requires
        p.flowing(),
    ensures
        p.turned(PipeTurn::Ready).flowing(),
        p.turned(PipeTurn::Ready).in_line() == p.in_line(),
        p.turned(PipeTurn::Ready).asked() == p.asked(),
{
    reveal(Piping::turned);
    reveal(Piping::flowing);
    reveal(Piping::in_line);
    reveal(Piping::asked);
    reveal(Piping::at_hand);
    let after = p.turned(PipeTurn::Ready);
    let queue = p.world.source.controller->Default_0.queue;
    if !p.handed && p.world.source.slots.requests().len() == 0 {
        if queue.len() > 0 {
            assert(queued_values(queue) =~= seq![queue[0].value] + queued_values(
                queue.drop_first(),
            ));
        } else {
            assert(after.world.source.slots.requests() =~= seq![p.world.request()]);
        }
    }
    assert(after.in_line() =~= p.in_line());
}

/// A write that the destination takes puts the chunk last in its queue.
proof fn lemma_write_taken(w: WritableWorld, chunk: Value, size: Number, promise: PromiseRef)
    requires
        open_to_writes(w.stream),
        size.countable(),
    ensures
        ({
            let after = w.write_sized(true, chunk, Ok(size), promise);
            &&& open_to_writes(after.stream)
            &&& after.stream.controller.queue == w.stream.controller.queue.push(sized(chunk, size))
        }),
{
    let asked = w.with_stream(
        WritableModel { write_requests: w.stream.write_requests.push(promise), ..w.stream },
    );
    let queued = asked.with_controller(asked.stream.controller.enqueued(chunk, size));
    let signaled = queued.refresh_backpressure();
    assert(signaled.stream.controller == queued.stream.controller);
    assert(signaled.stream.state is Writable);
    assert(signaled.stream.in_flight_write == w.stream.in_flight_write);
    let queue = queued.stream.controller.queue;
    assert(queue == w.stream.controller.queue.push(sized(chunk, size)));
    assert forall|i: int| 0 <= i < queue.len() implies !(#[trigger] queue[i]).is_close_sentinel by {
        if i < w.stream.controller.queue.len() {
            assert(queue[i] == w.stream.controller.queue[i]);
        }
    }
    assert(!queue[0].is_close_sentinel);
}

/// A write that the sink has come to the end of takes the chunk out of the queue.
proof fn lemma_write_fulfilled(w: WritableWorld)
    requires
        open_to_writes(w.stream),
        w.stream.in_flight_write is Some,
    ensures
        open_to_writes(w.write_fulfilled().stream),
        w.write_fulfilled().stream.controller.queue == w.stream.controller.queue.drop_first(),
{
    let done = w.with_stream(
        WritableModel {
            in_flight_write: None,
            controller: w.stream.controller.dequeued(),
            ..w.stream
        },
    ).resolve(w.stream.in_flight_write->0);
    let signaled = done.refresh_backpressure();
    assert(signaled.stream.controller == done.stream.controller);
    assert(signaled.stream.state is Writable);
    assert(signaled.stream.in_flight_write is None);
    let queue = done.stream.controller.queue;
    assert forall|i: int| 0 <= i < queue.len() implies !(#[trigger] queue[i]).is_close_sentinel by {
        assert(queue[i] == w.stream.controller.queue[i + 1]);
    }
    if queue.len() > 0 {
        assert(!queue[0].is_close_sentinel);
    }
}

/// A write of a pipe puts the chunk last in the queue of the destination, and leaves the
/// source as it is.
proof fn lemma_write_measured(w: PipeWorld, promise: PromiseRef, size: Number)
    requires
        open_to_writes(w.dest),
        !w.state.finished,
        size.countable(),
    ensures
        ({
            let after = w.write_measured(promise, size);
            let queue = after.dest.controller.queue;
            &&& open_to_writes(after.dest)
            &&& queue.len() == w.dest.controller.queue.len() + 1
            &&& queue.drop_last() == w.dest.controller.queue
            &&& queue.last().value == w.state.pending_chunk
            &&& after.source == w.source
            &&& after.state == (PipeState { pending_chunk: Value::Undefined, ..w.state })
        }),
{
    reveal(PipeWorld::write_measured);
    let chunk = w.state.pending_chunk;
    let used = match w.dest.controller.size_algorithm {
        Algorithm::Undefined | Algorithm::One => Number { bits: ONE },
        _ => size,
    };
    lemma_write_taken(w.to(), chunk, used, promise);
    let dest = w.to().write_sized(true, chunk, Ok(used), promise);
    let queue = dest.stream.controller.queue;
    assert(queue.drop_last() =~= w.dest.controller.queue);
    assert(w.write_measured(promise, size).dest == dest.stream);
}

/// A write adds the chunk to those that the destination was asked to write.
proof fn lemma_write_turn(p: Piping, promise: PromiseRef, size: Number)
    requires
        p.flowing(),
        size.countable(),
    ensures
        p.turned(PipeTurn::Write { promise, size }).flowing(),
        p.turned(PipeTurn::Write { promise, size }).in_line() == p.in_line(),
        p.turned(PipeTurn::Write { promise, size }).asked() == p.asked() + p.at_hand(),
{
    reveal(Piping::turned);
    reveal(Piping::flowing);
    reveal(Piping::in_line);
    reveal(Piping::asked);
    reveal(Piping::at_hand);
    let after = p.turned(PipeTurn::Write { promise, size });
    if p.handed {
        lemma_write_measured(p.world, promise, size);
    }
    assert(after.asked() =~= p.asked() + p.at_hand()) by {
        let queue = after.world.dest.controller.queue;
        if p.handed {
            assert(queued_values(queue) =~= queued_values(queue.drop_last()).push(
                queue.last().value,
            ));
        }
    }
    assert(after.in_line() =~= p.in_line());
}

/// What the sink has written leaves the queue of the destination.
proof fn lemma_written_turn(p: Piping)
    requires
        p.flowing(),
    ensures
        p.turned(PipeTurn::Written).flowing(),
        p.turned(PipeTurn::Written).in_line() == p.in_line(),
        p.turned(PipeTurn::Written).asked() == p.asked(),
{
    reveal(Piping::turned);
    reveal(Piping::flowing);
    reveal(Piping::in_line);
    reveal(Piping::asked);
    reveal(Piping::at_hand);
    let after = p.turned(PipeTurn::Written);
    if p.world.dest.in_flight_write is Some {
        lemma_write_fulfilled(p.world.to());
        assert(after.world.dest == p.world.to().write_fulfilled().stream);
    }
    assert(after.asked() =~= p.asked());
}

/// A write that has come to its end changes nothing of what the pipe hands on.
proof fn lemma_settled_turn(p: Piping)
    requires
        p.flowing(),
    ensures
        p.turned(PipeTurn::Settled).flowing(),
        p.turned(PipeTurn::Settled).in_line() == p.in_line(),
        p.turned(PipeTurn::Settled).asked() == p.asked(),
{
    reveal(Piping::turned);
    reveal(Piping::flowing);
    reveal(Piping::in_line);
    reveal(Piping::asked);
    reveal(Piping::at_hand);
}

/// A pipe hands on what its source gives, each chunk once and in the order in which the
/// source gave them, however the turns of the source, of the pipe and of the destination
/// follow upon each other: what the destination has been asked to write, the chunk that the
/// pipe is at and what waits in the source make up all that there was and all that the
/// source has given since.
pub proof fn law_pipe_in_order(p: Piping, turns: Seq<PipeTurn>)
    requires
        p.flowing(),
        forall|i: int| 0 <= i < turns.len() ==> fair(#[trigger] turns[i]),
    ensures
        p.after(turns).flowing(),
        p.after(turns).in_line() == p.in_line() + given(turns),
        p.asked().is_prefix_of(p.after(turns).asked()),
    decreases turns.len(),
{
    if turns.len() > 0 {
        let before = turns.drop_last();
        let q = p.after(before);
        law_pipe_in_order(p, before);
        assert(fair(turns[turns.len() - 1]));
        match turns.last() {
            PipeTurn::Enqueue { chunk, size } => {
                lemma_enqueue_turn(q, chunk, size);
            },
            PipeTurn::Ready => {
                lemma_ready_turn(q);
            },
            PipeTurn::Write { promise, size } => {
                lemma_write_turn(q, promise, size);
            },
            PipeTurn::Written => {
                lemma_written_turn(q);
            },
            PipeTurn::Settled => {
                lemma_settled_turn(q);
            },
        }
    }
    assert(p.after(turns).in_line() =~= p.in_line() + given(turns));
}

} // verus!
