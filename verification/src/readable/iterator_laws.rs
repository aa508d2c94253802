//! What holds of iterations over streams.

use vstd::prelude::*;

use crate::number::{Number, ONE};
use crate::readable::async_iterator::{step_result, ReadableStreamAsyncIterator};
use crate::readable::default_laws::{law_default_enqueue, law_default_read};
use crate::readable::read_request::{chunk_effect, close_effect, ReadRequest};
use crate::readable::slots::ReaderModel;
use crate::readable::stream_world::{ControllerModel, ReadableWorld};
use crate::scope::{Effect, PromiseRef, ScopeModel};
use crate::value::{iter_result, Value};

verus! {

/// An iterator and its stream after calls of `next`, made one after the other without waiting.
/// A call is given by its promise and the promise for the chunk that it reads.
pub open spec fn after_calls(
    iterator: ReadableStreamAsyncIterator,
    w: ReadableWorld,
    calls: Seq<(u64, u64)>,
) -> (ReadableStreamAsyncIterator, ReadableWorld)
    decreases calls.len(),
{
    if calls.len() == 0 {
        (iterator, w)
    } else {
        let (caller, world) = after_calls(iterator, w, calls.drop_last());
        caller.called(world, calls.last().0, calls.last().1)
    }
}

/// The effects of calls that wait in line: each starts when the one before it has settled.
pub open spec fn in_line(iterator: u64, calls: Seq<(u64, u64)>) -> Seq<Effect> {
    Seq::new(
        (calls.len() - 1) as nat,
        |i: int|
            Effect::NextAfter {
                ongoing: PromiseRef::Request(calls[i].0),
                iterator,
                promise: calls[i + 1].0,
            },
    )
}

/// Of calls of `next` that are made without waiting, the first takes its steps at once. Each
/// of the others leaves the stream alone and waits for the one before it.
pub proof fn law_next_calls_wait(
    iterator: ReadableStreamAsyncIterator,
    w: ReadableWorld,
    calls: Seq<(u64, u64)>,
)
    requires
        iterator.ongoing_promise is None,
        calls.len() > 0,
    ensures
        ({
            let first = iterator.next_steps(w, calls[0].0, calls[0].1);
            let (caller, world) = after_calls(iterator, w, calls);
            &&& caller == (ReadableStreamAsyncIterator {
                ongoing_promise: Some(PromiseRef::Request(calls.last().0)),
                ..iterator
            })
            &&& world.stream == first.stream
            &&& world.scope == first.scope.emit_all(in_line(iterator.id, calls))
        }),
    decreases calls.len(),
{
    let first = iterator.next_steps(w, calls[0].0, calls[0].1);
    let before = calls.drop_last();
    if calls.len() == 1 {
        assert(after_calls(iterator, w, before) == (iterator, w));
        assert(first.scope.effects + in_line(iterator.id, calls) =~= first.scope.effects);
    } else {
        law_next_calls_wait(iterator, w, before);
        assert(first.scope.effects + in_line(iterator.id, calls) =~= (first.scope.effects + in_line(
            iterator.id,
            before,
        )).push(
            Effect::NextAfter {
                ongoing: PromiseRef::Request(before.last().0),
                iterator: iterator.id,
                promise: calls.last().0,
            },
        ));
    }
}

/// An iterator with its stream, between two calls of `next`.
pub struct Iteration {
    pub iterator: ReadableStreamAsyncIterator,
    pub world: ReadableWorld,
}

impl Iteration {
    /// The request with which a call reads.
    pub open spec fn request(self, read: u64) -> ReadRequest {
        ReadRequest::AsyncIter { promise: read, stream: self.world.stream.slots.id }
    }

    /// The steps of a call, with the effects so far carried out.
    pub open spec fn asked(self, call: (u64, u64)) -> ReadableWorld {
        let scope = ScopeModel { effects: Seq::empty(), ..self.world.scope };
        self.iterator.next_steps(ReadableWorld { scope, ..self.world }, call.0, call.1)
    }

    /// A call settled: `given` is the stream once its read has been answered. A read that
    /// found the stream closed has it released first.
    pub open spec fn settled(self, call: (u64, u64), given: ReadableWorld) -> Iteration {
        let promise = PromiseRef::Request(call.0);
        let request = self.request(call.1);
        if self.iterator.is_finished {
            Iteration { world: self.asked(call), ..self }
        } else if given.scope.effects.contains(close_effect(request)) {
            let end = Value::EndOfIteration;
            Iteration {
                iterator: self.iterator.after_read(end),
                world: given.release().emit(
                    Effect::Resolve(PromiseRef::Request(call.1), end),
                ).emit(Effect::Resolve(promise, step_result(end))),
            }
        } else {
            let chunk = choose|chunk: Value|
                given.scope.effects.contains(chunk_effect(request, chunk));
            Iteration {
                iterator: self.iterator.after_read(chunk),
                world: given.emit(Effect::Resolve(promise, step_result(chunk))),
            }
        }
    }

    /// The iteration after the first `count` of some calls, of which each starts when the one
    /// before it has settled. `source` tells what becomes of the stream after the read of a
    /// call, by the number of the call, until the read is answered.
    pub open spec fn after(
        self,
        source: spec_fn(int, ReadableWorld) -> ReadableWorld,
        calls: Seq<(u64, u64)>,
        count: int,
    ) -> Iteration
        decreases count,
    {
        if count <= 0 {
            self
        } else {
            let last = self.after(source, calls, count - 1);
            let call = calls[count - 1];
            last.settled(call, source(count - 1, last.asked(call)))
        }
    }

    /// Whether the read of a call is handed a chunk.
    #[verifier::opaque]
    pub open spec fn is_given(
        self,
        source: spec_fn(int, ReadableWorld) -> ReadableWorld,
        calls: Seq<(u64, u64)>,
        i: int,
        chunk: Value,
    ) -> bool {
        let last = self.after(source, calls, i);
        let request = last.request(calls[i].1);
        let effects = source(i, last.asked(calls[i])).scope.effects;
        &&& effects.contains(chunk_effect(request, chunk))
        &&& !effects.contains(close_effect(request))
        &&& forall|other: Value| #[trigger]
            effects.contains(chunk_effect(request, other)) ==> other == chunk
    }

    /// Whether the read of a call finds the stream closed.
    #[verifier::opaque]
    pub open spec fn is_closed(
        self,
        source: spec_fn(int, ReadableWorld) -> ReadableWorld,
        calls: Seq<(u64, u64)>,
        i: int,
    ) -> bool {
        let last = self.after(source, calls, i);
        source(i, last.asked(calls[i])).scope.effects.contains(
            close_effect(last.request(calls[i].1)),
        )
    }
}

/// What the calls of an iteration over some chunks are told, by their number.
pub open spec fn nth_result(chunks: Seq<Value>, i: int) -> Value {
    if i < chunks.len() {
        iter_result(chunks[i], false)
    } else {
        iter_result(Value::Undefined, true)
    }
}

/// Calls of `next` settle in the order in which they were made, whether or not the caller
/// waits: over a stream that hands out some chunks and then closes, each call is told the next
/// chunk, and every later one that there is none. The stream ends unlocked.
pub proof fn law_next_in_call_order(
    start: Iteration,
    source: spec_fn(int, ReadableWorld) -> ReadableWorld,
    calls: Seq<(u64, u64)>,
    chunks: Seq<Value>,
    count: int,
)
    requires
        !start.iterator.is_finished,
        chunks.len() < calls.len(),
        forall|i: int| 0 <= i < chunks.len() ==> #[trigger] chunks[i] !is EndOfIteration,
        forall|i: int|
            0 <= i < chunks.len() ==> start.is_given(source, calls, i, #[trigger] chunks[i]),
        start.is_closed(source, calls, chunks.len() as int),
        0 <= count <= calls.len(),
    ensures
        start.after(source, calls, count).iterator.is_finished <==> chunks.len() < count,
        count > 0 ==> start.after(source, calls, count).world.scope.effects.last()
            == Effect::Resolve(
            PromiseRef::Request(calls[count - 1].0),
            nth_result(chunks, count - 1),
        ),
        chunks.len() < count ==> !start.after(source, calls, count).world.stream.slots.locked(),
    decreases count,
{
    if count > 0 {
        law_next_in_call_order(start, source, calls, chunks, count - 1);
        let i = count - 1;
        let last = start.after(source, calls, i);
        let given = source(i, last.asked(calls[i]));
        if i < chunks.len() {
            assert(start.is_given(source, calls, i, chunks[i]));
            reveal(Iteration::is_given);
            let chunk = choose|chunk: Value|
                given.scope.effects.contains(chunk_effect(last.request(calls[i].1), chunk));
            assert(chunk == chunks[i]);
        } else if i == chunks.len() {
            reveal(Iteration::is_closed);
        }
    }
}

/// A source of values that gives a chunk when one is waited for, and closes the stream when
/// there are none left.
pub open spec fn giving(chunks: Seq<Value>) -> spec_fn(int, ReadableWorld) -> ReadableWorld {
    |i: int, w: ReadableWorld|
        if w.stream.slots.requests().len() == 0 {
            w
        } else if i < chunks.len() {
            w.enqueue_chunk(chunks[i])
        } else {
            w.close_values()
        }
}

/// Whether an iterator holds a stream of values from which the given chunks are still to
/// come: those that wait in it, and then those that its source will give. A stream that has
/// closed, or been asked to, gets no more.
#[verifier::opaque]
pub open spec fn to_come(start: Iteration, chunks: Seq<Value>) -> bool {
    let slots = start.world.stream.slots;
    &&& !start.iterator.is_finished
    &&& start.world.stream.controller matches ControllerModel::Default(controller) && {
        &&& start.world.as_default().wf()
        &&& slots.reader == ReaderModel::Default(Seq::empty())
        &&& slots.state !is Errored
        &&& slots.state is Closed ==> controller.queue.len() == 0
        &&& controller.queue.len() <= chunks.len()
        &&& forall|i: int|
            0 <= i < controller.queue.len() ==> (#[trigger] controller.queue[i]).value == chunks[i]
        &&& slots.state is Closed || controller.close_requested ==> controller.queue.len()
            == chunks.len()
        &&& forall|i: int| 0 <= i < chunks.len() ==> #[trigger] chunks[i] !is EndOfIteration
    }
}

/// A call of an iteration is handed the first chunk that is still to come.
proof fn lemma_round(
    last: Iteration,
    chunks: Seq<Value>,
    left: Seq<Value>,
    i: int,
    call: (u64, u64),
)
    requires
        to_come(last, left),
        0 <= i < chunks.len(),
        left.len() > 0,
        left[0] == chunks[i],
    ensures
        ({
            let given = giving(chunks)(i, last.asked(call));
            let request = last.request(call.1);
            &&& given.scope.effects.contains(chunk_effect(request, left[0]))
            &&& !given.scope.effects.contains(close_effect(request))
            &&& forall|other: Value| #[trigger]
                given.scope.effects.contains(chunk_effect(request, other)) ==> other == left[0]
            &&& to_come(last.settled(call, given), left.drop_first())
        }),
{
    reveal(to_come);
    let asked = last.asked(call);
    let given = giving(chunks)(i, asked);
    let request = last.request(call.1);
    let scope = ScopeModel { effects: Seq::empty(), ..last.world.scope };
    let fresh = ReadableWorld { scope, ..last.world };
    let rest = left.drop_first();
    let queue = last.world.as_default().controller.queue;
    law_default_read(fresh.disturbed().as_default(), request);
    if queue.len() > 0 {
        let effects = fresh.read(request).scope.effects;
        assert(effects.last() == chunk_effect(request, left[0]));
        assert(given == asked);
        assert(given.scope.effects[effects.len() - 1] == effects.last());
    } else {
        law_default_enqueue(asked.as_default(), left[0], Ok(Number { bits: ONE }));
        assert(asked.stream.slots.requests() =~= seq![request]);
        assert(given.scope.effects[asked.scope.effects.len() as int] == chunk_effect(
            request,
            left[0],
        ));
    }
    let chunk = choose|chunk: Value|
        given.scope.effects.contains(chunk_effect(request, chunk));
    assert(chunk == left[0]);
    let after = last.settled(call, given);
    assert(after.world.stream == given.stream);
    assert(after.world.stream.slots.requests() =~= Seq::empty());
    assert forall|j: int| 0 <= j < after.world.as_default().controller.queue.len() implies (
    #[trigger] after.world.as_default().controller.queue[j]).value == rest[j] by {
        assert(after.world.as_default().controller.queue[j] == queue[j + 1]);
    }
}

/// A call of an iteration with nothing to come finds the stream closed.
proof fn lemma_last_round(last: Iteration, chunks: Seq<Value>, i: int, call: (u64, u64))
    requires
        to_come(last, Seq::empty()),
        i >= chunks.len(),
    ensures
        giving(chunks)(i, last.asked(call)).scope.effects.contains(
            close_effect(last.request(call.1)),
        ),
{
    reveal(to_come);
    let asked = last.asked(call);
    let given = giving(chunks)(i, asked);
    let request = last.request(call.1);
    if last.world.stream.slots.state is Closed {
        assert(given.scope.effects[0] == close_effect(request));
    } else {
        assert(asked.stream.slots.requests() =~= seq![request]);
        assert(given.scope.effects.last() == close_effect(request));
    }
}

proof fn lemma_rounds(start: Iteration, calls: Seq<(u64, u64)>, chunks: Seq<Value>, count: int)
    requires
        to_come(start, chunks),
        0 <= count <= chunks.len(),
    ensures
        to_come(start.after(giving(chunks), calls, count), chunks.skip(count)),
    decreases count,
{
    if count == 0 {
        assert(chunks.skip(0) =~= chunks);
    } else {
        lemma_rounds(start, calls, chunks, count - 1);
        let last = start.after(giving(chunks), calls, count - 1);
        lemma_round(last, chunks, chunks.skip(count - 1), count - 1, calls[count - 1]);
        assert(chunks.skip(count - 1).drop_first() =~= chunks.skip(count));
    }
}

/// The calls of `next` over a stream of values are told its chunks, one after the other, and
/// then that there are none: the first of them those that wait in the stream, the others as
/// its source gives them. The stream ends unlocked.
pub proof fn law_next_over_values(
    start: Iteration,
    calls: Seq<(u64, u64)>,
    chunks: Seq<Value>,
    count: int,
)
    requires
        to_come(start, chunks),
        chunks.len() < calls.len(),
        0 <= count <= calls.len(),
    ensures
        count > 0 ==> start.after(giving(chunks), calls, count).world.scope.effects.last()
            == Effect::Resolve(
            PromiseRef::Request(calls[count - 1].0),
            nth_result(chunks, count - 1),
        ),
        chunks.len() < count ==> !start.after(
            giving(chunks),
            calls,
            count,
        ).world.stream.slots.locked(),
{
    let source = giving(chunks);
    assert forall|i: int| 0 <= i < chunks.len() implies start.is_given(
        source,
        calls,
        i,
        #[trigger] chunks[i],
    ) by {
        lemma_rounds(start, calls, chunks, i);
        lemma_round(start.after(source, calls, i), chunks, chunks.skip(i), i, calls[i]);
        reveal(Iteration::is_given);
    }
    let end = chunks.len() as int;
    lemma_rounds(start, calls, chunks, end);
    assert(chunks.skip(end) =~= Seq::empty());
    assert(start.is_closed(source, calls, end)) by {
        lemma_last_round(start.after(source, calls, end), chunks, end, calls[end]);
        reveal(Iteration::is_closed);
    }
    assert(!start.iterator.is_finished && forall|i: int|
        0 <= i < chunks.len() ==> #[trigger] chunks[i] !is EndOfIteration) by {
        reveal(to_come);
    }
    law_next_in_call_order(start, source, calls, chunks, count);
}

} // verus!
