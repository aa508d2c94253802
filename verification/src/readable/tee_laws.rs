//! What each branch of a tee gets, whatever has become of the other.

use vstd::prelude::*;

use crate::buffer::ArrayBufferView;
use crate::number::{Number, ONE};
use crate::readable::byte_tee::{
    byte_tee_branch, forward_effect, pulled, pulled_with_byob, pulled_with_default, tee_failed,
    ByteTeeState,
};
use crate::readable::read_request::{chunk_effect, ReadIntoRequest, ReadRequest};
use crate::readable::stream_world::{in_scope, ControllerModel, ReadableModel, ReadableWorld};
use crate::readable::tee::{got_chunk, tee_branch, BranchesWorld, TeeState};
use crate::scope::{Algorithm, Branch, Effect, PromiseRef, Reaction, ScopeModel};
use crate::value::Value;

verus! {

/// Whether a stream of values takes chunks, and counts them.
pub open spec fn takes_chunks(stream: ReadableModel) -> bool {
    &&& stream.controller is Default
    &&& stream.controller->Default_0.size_algorithm is Undefined
        || stream.controller->Default_0.size_algorithm is One
    &&& stream.slots.state is Readable
    &&& !stream.controller->Default_0.close_requested
}

/// Each branch of a tee gets every chunk as long as it is itself not canceled, whatever has
/// become of the other: the read that waits first is handed the chunk, or it comes last in the
/// queue. A branch that is canceled is left as it was, and nothing is done on its account.
pub proof fn law_tee_branch_gets_chunk(
    w: BranchesWorld,
    state: TeeState,
    chunk1: Value,
    chunk2: Value,
)
    requires
        !state.canceled1 ==> takes_chunks(w.branch1),
        !state.canceled2 ==> takes_chunks(w.branch2),
    ensures
        ({
            let after = w.enqueued(state, chunk1, chunk2);
            let first = w.scope.effects.len() as int;
            let second = first + if state.canceled1 {
                0
            } else {
                w.first().enqueue_chunk(chunk1).scope.effects.len() - first
            };
            &&& state.canceled1 ==> after.branch1 == w.branch1
            &&& state.canceled2 ==> after.branch2 == w.branch2
            &&& state.canceled1 && state.canceled2 ==> after.scope == w.scope
            &&& !state.canceled1 ==> got_chunk(
                w.branch1,
                after.branch1,
                after.scope.effects,
                first,
                chunk1,
            )
            &&& !state.canceled2 ==> got_chunk(
                w.branch2,
                after.branch2,
                after.scope.effects,
                second,
                chunk2,
            )
            &&& state.canceled1 && !state.canceled2 && w.branch2.slots.requests().len() > 0
                ==> after.scope.effects[first] == chunk_effect(
                w.branch2.slots.requests()[0],
                chunk2,
            )
        }),
{
}

/// When the source of a tee fails, both branches do, with its error; those that have ended, or
/// were canceled, stay as they were.
pub proof fn law_tee_branches_fail(w: BranchesWorld, error: Value)
    ensures
        ({
            let after = w.errored(error);
            &&& w.branch1.slots.state is Readable ==> after.branch1.slots.state is Errored
                && after.branch1.slots.stored_error == error
            &&& w.branch2.slots.state is Readable ==> after.branch2.slots.state is Errored
                && after.branch2.slots.stored_error == error
            &&& w.branch1.slots.state !is Readable && w.branch1.controller is Default
                ==> after.branch1 == w.branch1
            &&& w.branch2.slots.state !is Readable && w.branch2.controller is Default
                ==> after.branch2 == w.branch2
        }),
{
}

/// When the source of a tee closes, so does each branch that is not canceled, at once where
/// nothing waits in it to be read.
pub proof fn law_tee_branches_close(w: BranchesWorld, state: TeeState)
    requires
        !state.canceled1 ==> takes_chunks(w.branch1),
        !state.canceled2 ==> takes_chunks(w.branch2),
    ensures
        ({
            let after = w.closed(state);
            let queue1 = w.branch1.controller->Default_0.queue;
            let queue2 = w.branch2.controller->Default_0.queue;
            &&& state.canceled1 ==> after.branch1 == w.branch1
            &&& state.canceled2 ==> after.branch2 == w.branch2
            &&& !state.canceled1 ==> if queue1.len() == 0 {
                after.branch1.slots.state is Closed
            } else {
                &&& after.branch1.slots == w.branch1.slots
                &&& after.branch1.controller->Default_0.close_requested
                &&& after.branch1.controller->Default_0.queue == queue1
            }
            &&& !state.canceled2 ==> if queue2.len() == 0 {
                after.branch2.slots.state is Closed
            } else {
                &&& after.branch2.slots == w.branch2.slots
                &&& after.branch2.controller->Default_0.close_requested
                &&& after.branch2.controller->Default_0.queue == queue2
            }
        }),
{
}

/// A branch that is canceled leaves its reason, and the other branch as it was; the promise of
/// a cancelation is resolved at the end of the source only if one of the branches is left.
pub proof fn law_tee_branch_canceled(
    values: TeeState,
    bytes: ByteTeeState,
    reason: Value,
    scope: ScopeModel,
)
    ensures
        values.canceled(Branch::One, reason) == (TeeState {
            canceled1: true,
            reason1: reason,
            ..values
        }),
        values.canceled(Branch::Two, reason) == (TeeState {
            canceled2: true,
            reason2: reason,
            ..values
        }),
        bytes.canceled(Branch::One, reason) == (ByteTeeState {
            canceled1: true,
            reason1: reason,
            ..bytes
        }),
        bytes.canceled(Branch::Two, reason) == (ByteTeeState {
            canceled2: true,
            reason2: reason,
            ..bytes
        }),
        values.abandoned() <==> values.canceled1 && values.canceled2,
        bytes.abandoned() <==> bytes.canceled1 && bytes.canceled2,
        bytes.is_canceled(Branch::One) == bytes.canceled1,
        bytes.is_canceled(Branch::Two) == bytes.canceled2,
        values.canceled1 && values.canceled2 ==> values.settle_cancel(scope) == scope,
        !values.canceled1 || !values.canceled2 ==> values.settle_cancel(scope) == scope.emit(
            Effect::Resolve(PromiseRef::TeeCancel(values.id), Value::Undefined),
        ),
        bytes.canceled1 && bytes.canceled2 ==> bytes.settle_cancel(scope) == scope,
        !bytes.canceled1 || !bytes.canceled2 ==> bytes.settle_cancel(scope) == scope.emit(
            Effect::Resolve(PromiseRef::TeeCancel(bytes.id), Value::Undefined),
        ),
{
}

/// A new branch is readable and empty, asks the tee for what it wants and tells it when it is
/// canceled. One of values wants a chunk before anyone reads, one of bytes does not.
pub proof fn law_tee_new_branch(tee: u64, id: u64, branch: Branch)
    ensures
        ({
            let values = tee_branch(tee, id, branch);
            let bytes = byte_tee_branch(tee, id, branch);
            &&& values.slots == bytes.slots
            &&& values.slots.id == id
            &&& values.slots.state is Readable
            &&& values.slots.reader is Unlocked
            &&& !values.slots.disturbed
            &&& values.controller matches ControllerModel::Default(controller) && {
                &&& controller.queue.len() == 0
                &&& controller.pull_algorithm == Algorithm::TeePull(tee)
                &&& controller.cancel_algorithm == Algorithm::TeeCancel(tee, branch)
                &&& controller.hwm == (Number { bits: ONE })
                &&& controller.size_algorithm is Undefined
                &&& !controller.started && !controller.pulling && !controller.pull_again
                &&& !controller.close_requested
            }
            &&& bytes.controller matches ControllerModel::Byte(controller) && {
                &&& controller.queue.len() == 0
                &&& controller.pending.len() == 0
                &&& controller.total == 0
                &&& controller.pull_algorithm == Algorithm::ByteTeePull(tee, branch)
                &&& controller.cancel_algorithm == Algorithm::ByteTeeCancel(tee, branch)
                &&& controller.hwm == (Number { bits: 0 })
                &&& controller.auto_allocate_chunk_size is None
                &&& controller.byob_request is None
                &&& !controller.started && !controller.pulling && !controller.pull_again
                &&& !controller.close_requested
            }
        }),
{
}

/// Each branch of a tee of bytes is given its view as long as it is itself not canceled; the
/// second goes without only where the first has refused what it was given.
pub proof fn law_byte_tee_branch_gets_view(
    w: BranchesWorld,
    canceled1: bool,
    view1: ArrayBufferView,
    canceled2: bool,
    view2: ArrayBufferView,
)
    ensures
        ({
            let (after, result) = w.enqueue_both(canceled1, view1, canceled2, view2);
            let (one, taken1) = in_scope(w.branch1, w.scope).enqueue_bytes(view1);
            let middle = if canceled1 {
                w.scope
            } else {
                one.scope
            };
            let (two, taken2) = in_scope(w.branch2, middle).enqueue_bytes(view2);
            let refused = !canceled1 && taken1 is Err;
            &&& canceled1 ==> after.branch1 == w.branch1
            &&& !canceled1 ==> after.branch1 == one.stream
            &&& canceled2 || refused ==> after.branch2 == w.branch2 && after.scope == middle
            &&& !canceled2 && !refused ==> after.branch2 == two.stream && after.scope == two.scope
            &&& result == if refused {
                taken1
            } else if canceled2 {
                Ok(())
            } else {
                taken2
            }
        }),
{
}

/// What the source has written into a view of one branch is answered to that branch, unless it
/// is canceled, and a copy of it goes to the other, unless that is.
pub proof fn law_byte_tee_filled(
    w: BranchesWorld,
    canceled1: bool,
    canceled2: bool,
    view: ArrayBufferView,
)
    ensures
        ({
            let (after, result) = w.give_filled(canceled1, canceled2, view);
            let (copied, copy) = w.copied(view);
            let before = if canceled2 {
                w.scope
            } else {
                copied.scope
            };
            let (one, answered) = in_scope(w.branch1, before).respond_with_view(view);
            let refused = !canceled1 && answered is Err;
            let middle = if canceled1 {
                before
            } else {
                one.scope
            };
            let (two, taken) = in_scope(w.branch2, middle).enqueue_bytes(copy);
            &&& canceled1 ==> after.branch1 == w.branch1
            &&& !canceled1 ==> after.branch1 == one.stream
            &&& canceled2 || refused ==> after.branch2 == w.branch2 && after.scope == middle
            &&& !canceled2 && !refused ==> after.branch2 == two.stream && after.scope == two.scope
            &&& result == if refused {
                answered
            } else if canceled2 {
                Ok(())
            } else {
                taken
            }
        }),
{
}

/// Whether a byte stream takes bytes, and nobody waits for them.
pub open spec fn at_rest(stream: ReadableModel) -> bool {
    &&& stream.controller is Byte
    &&& stream.slots.state is Readable
    &&& !stream.controller->Byte_0.close_requested
    &&& stream.controller->Byte_0.pending.len() == 0
}

/// When the source of a tee of bytes closes, so does each branch that is not canceled, at once
/// where nothing waits in it to be read and nobody for it.
pub proof fn law_byte_tee_branches_close(w: BranchesWorld, canceled1: bool, canceled2: bool)
    requires
        at_rest(w.branch1),
        at_rest(w.branch2),
    ensures
        ({
            let (after, result) = w.end_both(canceled1, canceled2);
            &&& result is Ok
            &&& canceled1 ==> after.branch1 == w.branch1
            &&& canceled2 ==> after.branch2 == w.branch2
            &&& !canceled1 ==> if w.branch1.controller->Byte_0.total == 0 {
                after.branch1.slots.state is Closed
            } else {
                &&& after.branch1.slots == w.branch1.slots
                &&& after.branch1.controller->Byte_0.close_requested
                &&& after.branch1.controller->Byte_0.queue == w.branch1.controller->Byte_0.queue
            }
            &&& !canceled2 ==> if w.branch2.controller->Byte_0.total == 0 {
                after.branch2.slots.state is Closed
            } else {
                &&& after.branch2.slots == w.branch2.slots
                &&& after.branch2.controller->Byte_0.close_requested
                &&& after.branch2.controller->Byte_0.queue == w.branch2.controller->Byte_0.queue
            }
        }),
{
}

/// When the source closes while a view of one branch is with it, both branches that are left
/// close; the view is handed back to the branch that it came from, and a read into a view that
/// waits in the other is told that there is nothing for it.
pub proof fn law_byte_tee_end_hands_back(
    w: BranchesWorld,
    canceled1: bool,
    canceled2: bool,
    view: ArrayBufferView,
)
    ensures
        ({
            let (closed, result) = w.close_both(canceled1, canceled2);
            let (one, answered) = closed.first().respond_with_view(view);
            let (after, end) = w.end_with_view(canceled1, canceled2, Some(view));
            &&& result is Err ==> (after, end) == (closed, result)
            &&& w.end_with_view(canceled1, canceled2, None) == (closed, result)
            &&& result is Ok && !canceled1 ==> after.branch1 == one.stream
            &&& result is Ok && canceled1 ==> after.branch1 == closed.branch1
            &&& result is Ok && !canceled1 && answered is Err ==> end == answered
                && after.branch2 == closed.branch2
            &&& result is Ok && canceled2 ==> after.branch2 == closed.branch2
            &&& result is Ok && !canceled2 && (canceled1 || answered is Ok) ==> {
                let middle = if canceled1 {
                    closed.scope
                } else {
                    one.scope
                };
                if closed.branch2.controller->Byte_0.pending.len() == 0 {
                    after.branch2 == closed.branch2 && end is Ok && after.scope == middle
                } else {
                    let (two, told) = in_scope(closed.branch2, middle).respond_bytes(0);
                    after.branch2 == two.stream && after.scope == two.scope && end == told
                }
            }
        }),
{
}

/// A tee that cannot go on fails its branches, and cancels its source with the same error; the
/// promise of a cancelation follows what comes of that.
pub proof fn law_tee_gives_up(
    id: u64,
    source: ReadableModel,
    w: BranchesWorld,
    error: Value,
    promise: u64,
)
    ensures
        ({
            let (after, branches) = tee_failed(id, source, w, error, promise);
            let canceled = in_scope(source, w.errored(error).scope).cancel(
                error,
                PromiseRef::Request(promise),
            );
            &&& w.branch1.slots.state is Readable ==> branches.branch1.slots.state is Errored
                && branches.branch1.slots.stored_error == error
            &&& w.branch2.slots.state is Readable ==> branches.branch2.slots.state is Errored
                && branches.branch2.slots.stored_error == error
            &&& source.slots.state is Readable ==> after.stream.slots.state is Closed
            &&& after.stream == canceled.stream
            &&& after.scope == canceled.scope.emit(
                Effect::Adopt(PromiseRef::TeeCancel(id), PromiseRef::Request(promise)),
            )
            &&& branches.scope == after.scope
        }),
{
    law_tee_branches_fail(w, error);
}

/// A branch that wants bytes while a read is under way is remembered, and the other is not;
/// otherwise the source is read once: into the view that waits in the branch, or for a chunk
/// where none does.
pub proof fn law_byte_tee_pulls(
    state: ByteTeeState,
    source: ReadableModel,
    branch: ReadableWorld,
    for_branch2: bool,
    new_reader: u64,
)
    ensures
        ({
            let (next, after, asked) = pulled(state, source, branch, for_branch2, new_reader);
            let request = ReadableWorld::from_byte(
                branch.as_byte().with_byob_request(),
            ).stream.controller->Byte_0.byob_request;
            if state.reading {
                &&& next == (ByteTeeState {
                    read_again_for_branch1: state.read_again_for_branch1 || !for_branch2,
                    read_again_for_branch2: state.read_again_for_branch2 || for_branch2,
                    ..state
                })
                &&& after == in_scope(source, branch.scope)
                &&& asked == branch.stream
            } else {
                &&& next.reading
                &&& next == (ByteTeeState { reading: true, reader: next.reader, ..state })
                &&& asked.slots == branch.stream.slots
                &&& request is None ==> (after, next.reader) == pulled_with_default(
                    state,
                    in_scope(source, branch.scope),
                    new_reader,
                )
                &&& request matches Some(request) ==> (after, next.reader) == pulled_with_byob(
                    state,
                    in_scope(source, branch.scope),
                    request.view->0,
                    for_branch2,
                    new_reader,
                )
            }
        }),
{
}

/// A tee of bytes changes the kind of its reader only where it has to, lets go of the old one
/// first, and hears of the failure of the new one.
pub proof fn law_byte_tee_readers(
    state: ByteTeeState,
    source: ReadableWorld,
    view: ArrayBufferView,
    for_branch2: bool,
    new_reader: u64,
)
    requires
        source.stream.controller is Byte,
    ensures
        ({
            let (chunk, reader1) = pulled_with_default(state, source, new_reader);
            let (into, reader2) = pulled_with_byob(state, source, view, for_branch2, new_reader);
            let request = ReadRequest::ByteTeeDefault { tee: state.id };
            let into_request = ReadIntoRequest::ByteTeeByob { tee: state.id, for_branch2 };
            let released = source.release();
            let heard = Effect::OnRejected(
                PromiseRef::ReaderClosed(source.stream.slots.id),
                Reaction::ByteTeeForward { tee: state.id, reader: new_reader },
            );
            &&& source.stream.slots.reader !is Byob ==> reader1 == state.reader && chunk
                == source.read(request)
            &&& source.stream.slots.reader is Byob ==> reader1 == new_reader && chunk
                == released.acquire_default_reader().0.emit(heard).read(request)
            &&& source.stream.slots.reader !is Default ==> reader2 == state.reader && into
                == source.read_into(view, 1, into_request)
            &&& source.stream.slots.reader is Default ==> reader2 == new_reader && into
                == released.acquire_byob_reader().0.emit(heard).read_into(view, 1, into_request)
            &&& forward_effect(state.id, new_reader, source.stream.slots.id) == heard
        }),
{
}

} // verus!
