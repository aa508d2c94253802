//! What holds of readable streams of values whatever is done with them.

use vstd::prelude::*;

use crate::algorithms::sized;
use crate::number::{Number, ONE};
use crate::readable::default_controller::{
    default_can_enqueue, DefaultWorld, EnqueueStep,
};
use crate::readable::read_request::{chunk_effect, ReadRequest};
use crate::readable::stream_world::ReadableWorld;
use crate::scope::PromiseRef;
use crate::value::Value;

verus! {

/// The end of a start or of a pull, a failure and a close leave a stream of values well
/// formed.
pub proof fn law_default_source(w: DefaultWorld, error: Value)
    requires
        w.wf(),
    ensures
        w.call_pull().wf(),
        w.start_fulfilled().wf(),
        w.pull_fulfilled().wf(),
        w.errored(error).wf(),
        w.close().wf(),
{
}

/// A chunk that is enqueued leaves a stream of values well formed, with or without a size
/// that was found for it.
pub proof fn law_default_enqueue(w: DefaultWorld, chunk: Value, size: Result<Number, Value>)
    requires
        w.wf(),
    ensures
        w.enqueue(chunk).0.wf(),
        w.enqueue_with_size(chunk, size).0.wf(),
{
}

/// A read leaves a stream of values well formed.
pub proof fn law_default_read(w: DefaultWorld, request: ReadRequest)
    requires
        w.wf(),
        w.slots.state is Readable,
        w.slots.reader is Default,
    ensures
        w.pull_steps(request).wf(),
        w.pull_steps(request).slots.reader is Default,
{
}

/// A cancelation leaves a stream of values well formed; it closes one that was readable.
pub proof fn law_default_cancel(w: ReadableWorld, reason: Value, result: PromiseRef)
    requires
        w.stream.controller is Default,
        w.as_default().wf(),
    ensures
        w.cancel(reason, result).stream.controller is Default,
        w.cancel(reason, result).as_default().wf(),
        w.cancel(reason, result).stream.slots.state !is Readable,
{
}

/// Locking and releasing leave a stream of values well formed.
pub proof fn law_default_lock(w: ReadableWorld)
    requires
        w.stream.controller is Default,
        w.as_default().wf(),
    ensures
        w.acquire_default_reader().0.as_default().wf(),
        w.acquire_byob_reader().0.as_default().wf(),
        w.release().as_default().wf(),
{
}

/// Chunks wait in the order in which they were enqueued: one that nobody waits for comes
/// last.
pub proof fn law_default_enqueue_appends(w: DefaultWorld, chunk: Value, size: Number)
    requires
        w.wf(),
        size.countable(),
    ensures
        w.enqueue_with_size(chunk, Ok(size)).0.controller.queue
            == w.controller.queue.push(sized(chunk, size)),
        w.enqueue_with_size(chunk, Ok(size)).1 is Ok,
{
}

/// A read takes the first chunk that waits and hands it over; the others stay in their
/// order.
pub proof fn law_default_read_takes_first(w: DefaultWorld, request: ReadRequest)
    requires
        w.wf(),
        w.slots.state is Readable,
        w.controller.queue.len() > 0,
    ensures
        w.pull_steps(request).scope.effects.last() == chunk_effect(
            request,
            w.controller.queue[0].value,
        ),
        w.pull_steps(request).controller.queue == w.controller.queue.drop_first(),
{
}

/// What is enqueued is what is read: on an empty stream that counts its chunks, the next
/// read after an enqueue is handed the chunk.
pub proof fn law_default_enqueue_read(w: DefaultWorld, chunk: Value, request: ReadRequest)
    requires
        w.wf(),
        default_can_enqueue(w.slots, w.controller),
        w.slots.requests().len() == 0,
        w.controller.queue.len() == 0,
        w.controller.size_algorithm is One || w.controller.size_algorithm is Undefined,
    ensures
        w.enqueue(chunk).1 is Done,
        w.enqueue(chunk).0.pull_steps(request).scope.effects.last() == chunk_effect(
            request,
            chunk,
        ),
        w.enqueue(chunk).0.pull_steps(request).controller.queue.len() == 0,
{
    assert(w.controller.queue.push(sized(chunk, Number { bits: ONE })).drop_first() =~= Seq::empty());
}

/// The stream after its source enqueued chunks, each with its size, one after the other.
pub open spec fn after_chunks(w: DefaultWorld, chunks: Seq<(Value, Number)>) -> DefaultWorld
    decreases chunks.len(),
{
    if chunks.len() == 0 {
        w
    } else {
        let (chunk, size) = chunks.last();
        after_chunks(w, chunks.drop_last()).enqueue_with_size(chunk, Ok(size)).0
    }
}

/// The stream after reads, one after the other.
pub open spec fn after_reads(w: DefaultWorld, requests: Seq<ReadRequest>) -> DefaultWorld
    decreases requests.len(),
{
    if requests.len() == 0 {
        w
    } else {
        after_reads(w, requests.drop_last()).pull_steps(requests.last())
    }
}

/// Chunks that were enqueued wait behind those that waited before, in their order.
proof fn lemma_chunks_wait(w: DefaultWorld, chunks: Seq<(Value, Number)>)
    requires
        forall|i: int| 0 <= i < chunks.len() ==> (#[trigger] chunks[i]).1.countable(),
    ensures
        after_chunks(w, chunks).controller.queue == w.controller.queue + chunks.map_values(
            |chunk: (Value, Number)| sized(chunk.0, chunk.1),
        ),
        after_chunks(w, chunks).slots == w.slots,
    decreases chunks.len(),
{
    let waiting = |chunk: (Value, Number)| sized(chunk.0, chunk.1);
    if chunks.len() > 0 {
        let before = after_chunks(w, chunks.drop_last());
        assert(chunks[chunks.len() - 1].1.countable());
        lemma_chunks_wait(w, chunks.drop_last());
        assert(chunks.map_values(waiting) =~= chunks.drop_last().map_values(waiting).push(
            waiting(chunks.last()),
        ));
        assert(after_chunks(w, chunks).controller.queue =~= before.controller.queue.push(
            waiting(chunks.last()),
        ));
    }
    assert(after_chunks(w, chunks).controller.queue =~= w.controller.queue + chunks.map_values(
        waiting,
    ));
}

/// Each read takes one chunk.
proof fn lemma_reads_take(w: DefaultWorld, requests: Seq<ReadRequest>)
    requires
        w.slots.state is Readable,
        requests.len() < w.controller.queue.len(),
    ensures
        after_reads(w, requests).controller.queue == w.controller.queue.skip(
            requests.len() as int,
        ),
        after_reads(w, requests).slots.state is Readable,
    decreases requests.len(),
{
    if requests.len() > 0 {
        lemma_reads_take(w, requests.drop_last());
        let before = after_reads(w, requests.drop_last());
        assert(after_reads(w, requests).controller.queue =~= before.controller.queue.drop_first());
    }
    assert(after_reads(w, requests).controller.queue =~= w.controller.queue.skip(
        requests.len() as int,
    ));
}

/// A stream hands out its chunks in the order in which its source enqueued them, whatever
/// their sizes: of chunks that are enqueued on an empty stream, each read that follows is
/// handed the next.
pub proof fn law_default_in_order(
    w: DefaultWorld,
    chunks: Seq<(Value, Number)>,
    requests: Seq<ReadRequest>,
    request: ReadRequest,
)
    requires
        w.slots.state is Readable,
        w.controller.queue.len() == 0,
        requests.len() < chunks.len(),
        forall|i: int| 0 <= i < chunks.len() ==> (#[trigger] chunks[i]).1.countable(),
    ensures
        after_reads(after_chunks(w, chunks), requests).pull_steps(request).scope.effects.last()
            == chunk_effect(request, chunks[requests.len() as int].0),
{
    lemma_chunks_wait(w, chunks);
    lemma_reads_take(after_chunks(w, chunks), requests);
}

/// A read that waits is handed the next chunk: the chunk does not pass through the queue.
pub proof fn law_default_read_enqueue(w: DefaultWorld, chunk: Value)
    requires
        w.wf(),
        default_can_enqueue(w.slots, w.controller),
        w.slots.requests().len() > 0,
    ensures
        w.enqueue(chunk).1 is Done,
        w.enqueue(chunk).0.controller.queue == w.controller.queue,
        w.enqueue(chunk).0.slots.requests() == w.slots.requests().drop_first(),
        w.enqueue(chunk).0.scope.effects[w.scope.effects.len() as int] == chunk_effect(
            w.slots.requests()[0],
            chunk,
        ),
{
}

/// A stream that was closed with chunks waiting ends when the last of them is read, and
/// not before.
pub proof fn law_default_close_after_last(w: DefaultWorld, request: ReadRequest)
    requires
        w.wf(),
        w.slots.state is Readable,
        w.controller.queue.len() > 0,
        w.controller.close_requested,
    ensures
        w.pull_steps(request).slots.state is Closed <==> w.controller.queue.len() == 1,
        w.pull_steps(request).slots.state !is Errored,
{
}

/// The source is called for one pull at a time: while one is under way, no other is made.
pub proof fn law_default_one_pull(w: DefaultWorld)
    ensures
        w.controller.pulling ==> w.call_pull().scope == w.scope,
        w.call_pull().scope != w.scope ==> w.call_pull().controller.pulling,
        w.call_pull().scope.effects.len() <= w.scope.effects.len() + 1,
{
}

/// A stream that has closed or failed stays as it is, whatever its source does.
pub proof fn law_default_terminal(w: DefaultWorld, chunk: Value, error: Value)
    requires
        w.slots.state !is Readable,
    ensures
        w.close() == w,
        w.errored(error) == w,
        w.enqueue(chunk) == (w, EnqueueStep::Done),
        w.call_pull() == w,
{
}

} // verus!
