//! The tee of a stream of values: two branches that are fed from one source.
//!
//! The source is read from whenever a branch asks for a chunk; each chunk goes to both
//! branches. The source is canceled once both branches are.

use vstd::prelude::*;

use crate::algorithms::composite_reason;
use crate::number::{Number, ONE};
use crate::readable::read_request::{chunk_effect, ReadRequest};
use crate::readable::readable_stream::{
    create_readable_stream, new_stream, readable_world, ReadableStream,
};
use crate::readable::set_up::start_effect;
use crate::readable::stream_world::{in_scope, ReadableModel, ReadableWorld};
use crate::scope::{
    Algorithm, Branch, Effect, Microtask, PromiseRef, Reaction, Scope, ScopeModel,
};
use crate::value::{pair_of, Value};

verus! {

/// What the branches of a tee share.
pub struct TeeState {
    /// The name of the tee in effects.
    pub id: u64,
    /// Whether the second branch gets copies of the chunks.
    pub clone_for_branch2: bool,
    /// Whether a read of the source is under way.
    pub reading: bool,
    /// Whether a chunk was asked for while one was being handed out.
    pub read_again: bool,
    pub canceled1: bool,
    pub canceled2: bool,
    pub reason1: Value,
    pub reason2: Value,
    /// The chunk that waits for its microtask.
    pub pending_chunk: Value,
}

/// What is to be done with a chunk of the source.
#[derive(Debug, PartialEq, Eq)]
pub enum TeeChunkStep {
    /// The chunk goes to both branches as it is: `tee_chunk_enqueue` is to be called next.
    Enqueue(Value),
    /// The chunk has to be copied first; `tee_chunk_enqueue` or `tee_clone_failed` takes the
    /// outcome.
    Clone(Value),
}

/// The state of a new tee.
pub open spec fn new_tee(id: u64, clone_for_branch2: bool) -> TeeState {
    TeeState {
        id,
        clone_for_branch2,
        reading: false,
        read_again: false,
        canceled1: false,
        canceled2: false,
        reason1: Value::Undefined,
        reason2: Value::Undefined,
        pending_chunk: Value::Undefined,
    }
}

impl TeeState {
    /// The state after a branch was canceled.
    pub open spec fn canceled(self, branch: Branch, reason: Value) -> TeeState {
        match branch {
            Branch::One => TeeState { canceled1: true, reason1: reason, ..self },
            Branch::Two => TeeState { canceled2: true, reason2: reason, ..self },
        }
    }

    /// Whether both branches have been canceled.
    pub open spec fn abandoned(self) -> bool {
        self.canceled1 && self.canceled2
    }

    /// The promise for the cancelation of the source resolved, if a branch is left.
    pub open spec fn settle_cancel(self, scope: ScopeModel) -> ScopeModel {
        if self.abandoned() {
            scope
        } else {
            scope.emit(Effect::Resolve(PromiseRef::TeeCancel(self.id), Value::Undefined))
        }
    }
}

/// A tee with its branches and the scope in which it is used.
#[verifier::ext_equal]
pub struct BranchesWorld {
    pub branch1: ReadableModel,
    pub branch2: ReadableModel,
    pub scope: ScopeModel,
}

/// The branches of a tee and a scope, to state what an operation does to them.
pub open spec fn branches_world(
    branch1: ReadableStream,
    branch2: ReadableStream,
    scope: Scope,
) -> BranchesWorld {
    BranchesWorld { branch1: branch1@, branch2: branch2@, scope: scope@ }
}

impl BranchesWorld {
    /// The first branch after an operation.
    pub open spec fn then_first(self, w: ReadableWorld) -> BranchesWorld {
        BranchesWorld { branch1: w.stream, scope: w.scope, ..self }
    }

    /// The second branch after an operation.
    pub open spec fn then_second(self, w: ReadableWorld) -> BranchesWorld {
        BranchesWorld { branch2: w.stream, scope: w.scope, ..self }
    }

    pub open spec fn first(self) -> ReadableWorld {
        in_scope(self.branch1, self.scope)
    }

    pub open spec fn second(self) -> ReadableWorld {
        in_scope(self.branch2, self.scope)
    }

    /// Both branches failed.
    pub open spec fn errored(self, error: Value) -> BranchesWorld {
        let w = self.then_first(self.first().errored(error));
        w.then_second(w.second().errored(error))
    }

    /// The branches that are left closed.
    pub open spec fn closed(self, state: TeeState) -> BranchesWorld {
        let w = if state.canceled1 {
            self
        } else {
            self.then_first(self.first().close_values())
        };
        if state.canceled2 {
            w
        } else {
            w.then_second(w.second().close_values())
        }
    }

    /// A chunk for each branch that is left.
    pub open spec fn enqueued(self, state: TeeState, chunk1: Value, chunk2: Value)
        -> BranchesWorld {
        let w = if state.canceled1 {
            self
        } else {
            self.then_first(self.first().enqueue_chunk(chunk1))
        };
        if state.canceled2 {
            w
        } else {
            w.then_second(w.second().enqueue_chunk(chunk2))
        }
    }

    pub open spec fn with_scope(self, scope: ScopeModel) -> BranchesWorld {
        BranchesWorld { scope, ..self }
    }
}

/// Makes the two branches of a stream of values, which it locks.
pub fn readable_stream_default_tee(
    scope: &mut Scope,
    stream: &mut ReadableStream,
    id: u64,
    branch_ids: (u64, u64),
    clone_for_branch2: bool,
) -> (result: Result<(TeeState, ReadableStream, ReadableStream), Value>)
    ensures
        ({
            let (locked, acquired) = readable_world(
                *old(stream),
                *old(scope),
            ).acquire_default_reader();
            &&& final(stream)@ == locked.stream
            &&& match acquired {
                Err(error) => {
                    &&& result == Err::<(TeeState, ReadableStream, ReadableStream), Value>(error)
                    &&& final(scope)@ == locked.scope
                },
                Ok(()) => {
                    &&& result matches Ok((state, branch1, branch2)) && {
                        &&& state == new_tee(id, clone_for_branch2)
                        &&& branch1@ == tee_branch(id, branch_ids.0, Branch::One)
                        &&& branch2@ == tee_branch(id, branch_ids.1, Branch::Two)
                    }
                    &&& final(scope)@ == locked.scope.emit(
                        Effect::NewPromise(PromiseRef::TeeCancel(id)),
                    ).emit(
                        start_effect(branch_ids.0, Algorithm::Undefined, Value::Undefined),
                    ).emit(
                        start_effect(branch_ids.1, Algorithm::Undefined, Value::Undefined),
                    ).emit(
                        Effect::OnRejected(
                            PromiseRef::ReaderClosed(old(stream)@.slots.id),
                            Reaction::TeeClosedRejected { tee: id },
                        ),
                    )
                },
            }
        }),
{
    match stream.set_up_readable_stream_default_reader(scope) {
        Ok(()) => {},
        Err(error) => {
            return Err(error);
        },
    }
    let state: TeeState = TeeState::new(scope, id, clone_for_branch2);
    let branch1: ReadableStream = create_readable_stream(
        scope,
        branch_ids.0,
        Algorithm::Undefined,
        Algorithm::TeePull(id),
        Algorithm::TeeCancel(id, Branch::One),
        Number { bits: ONE },
        Algorithm::Undefined,
    );
    let branch2: ReadableStream = create_readable_stream(
        scope,
        branch_ids.1,
        Algorithm::Undefined,
        Algorithm::TeePull(id),
        Algorithm::TeeCancel(id, Branch::Two),
        Number { bits: ONE },
        Algorithm::Undefined,
    );
    scope.emit(
        Effect::OnRejected(
            PromiseRef::ReaderClosed(stream.slots.id),
            Reaction::TeeClosedRejected { tee: id },
        ),
    );
    Ok((state, branch1, branch2))
}

/// A new branch of a tee.
pub open spec fn tee_branch(tee: u64, id: u64, branch: Branch) -> ReadableModel {
    new_stream(
        id,
        Algorithm::TeePull(tee),
        Algorithm::TeeCancel(tee, branch),
        Value::Undefined,
        Number { bits: ONE },
        Algorithm::Undefined,
    )
}

impl TeeState {
    /// The state of a new tee, with a promise for the cancelation of the source.
    pub fn new(scope: &mut Scope, id: u64, clone_for_branch2: bool) -> (state: TeeState)
        ensures
            state == new_tee(id, clone_for_branch2),
            final(scope)@ == old(scope)@.emit(Effect::NewPromise(PromiseRef::TeeCancel(id))),
    {
        scope.emit(Effect::NewPromise(PromiseRef::TeeCancel(id)));
        TeeState {
            id,
            clone_for_branch2,
            reading: false,
            read_again: false,
            canceled1: false,
            canceled2: false,
            reason1: Value::Undefined,
            reason2: Value::Undefined,
            pending_chunk: Value::Undefined,
        }
    }

    /// Reads a chunk from the source, or takes note that one more is wanted.
    pub fn tee_pull(&mut self, scope: &mut Scope, source: &mut ReadableStream)
        requires
            readable_world(*old(source), *old(scope)).wf(),
            old(source)@.slots.reader is Default,
        ensures
            if old(self).reading {
                &&& *final(self) == (TeeState { read_again: true, ..*old(self) })
                &&& readable_world(*final(source), *final(scope)) == readable_world(
                    *old(source),
                    *old(scope),
                )
            } else {
                &&& *final(self) == (TeeState { reading: true, ..*old(self) })
                &&& readable_world(*final(source), *final(scope)) == readable_world(
                    *old(source),
                    *old(scope),
                ).read(ReadRequest::Tee { tee: old(self).id })
            },
    {
        if self.reading {
            self.read_again = true;
            return ;
        }
        self.reading = true;
        source.readable_stream_default_reader_read(scope, ReadRequest::Tee { tee: self.id });
    }

    /// Takes note that a branch was canceled; once both are, so is the source, and
    /// `promise` tells what comes of that.
    pub fn tee_cancel(
        &mut self,
        scope: &mut Scope,
        source: &mut ReadableStream,
        branch: Branch,
        reason: Value,
        promise: u64,
    )
        ensures
            *final(self) == old(self).canceled(branch, reason),
            readable_world(*final(source), *final(scope)) == ({
                let w = readable_world(*old(source), *old(scope));
                if final(self).abandoned() {
                    w.cancel(
                        pair_of(final(self).reason1, final(self).reason2),
                        PromiseRef::Request(promise),
                    ).emit(
                        Effect::Adopt(
                            PromiseRef::TeeCancel(old(self).id),
                            PromiseRef::Request(promise),
                        ),
                    )
                } else {
                    w
                }
            }),
    {
        match branch {
            Branch::One => {
                self.canceled1 = true;
                self.reason1 = reason;
            },
            Branch::Two => {
                self.canceled2 = true;
                self.reason2 = reason;
            },
        }
        if self.canceled1 && self.canceled2 {
            let composite: Value = composite_reason(&self.reason1, &self.reason2);
            source.readable_stream_cancel(scope, composite, PromiseRef::Request(promise));
            scope.emit(
                Effect::Adopt(PromiseRef::TeeCancel(self.id), PromiseRef::Request(promise)),
            );
        }
    }

    /// Resolves the promise for the cancelation of the source, if a branch is left.
    fn settle_cancel_promise(&self, scope: &mut Scope)
        ensures
            final(scope)@ == self.settle_cancel(old(scope)@),
    {
        if !self.canceled1 || !self.canceled2 {
            scope.emit(Effect::Resolve(PromiseRef::TeeCancel(self.id), Value::Undefined));
        }
    }

    /// Takes note that the source has failed: so do the branches.
    pub fn tee_closed_rejected(
        &self,
        scope: &mut Scope,
        branch1: &mut ReadableStream,
        branch2: &mut ReadableStream,
        reason: Value,
    )
        ensures
            branches_world(*final(branch1), *final(branch2), *final(scope)) == ({
                let w = branches_world(*old(branch1), *old(branch2), *old(scope)).errored(reason);
                w.with_scope(self.settle_cancel(w.scope))
            }),
    {
        branch1.readable_stream_error(scope, reason.clone());
        branch2.readable_stream_error(scope, reason);
        self.settle_cancel_promise(scope);
    }

    /// Takes a chunk of the source and keeps it for a microtask.
    pub fn tee_read_request_chunk_steps(&mut self, scope: &mut Scope, chunk: Value)
        ensures
            *final(self) == (TeeState { pending_chunk: chunk, ..*old(self) }),
            final(scope)@ == old(scope)@.emit(
                Effect::Queue(Microtask::TeeChunk { tee: old(self).id }),
            ),
    {
        self.pending_chunk = chunk;
        scope.emit(Effect::Queue(Microtask::TeeChunk { tee: self.id }));
    }

    /// Takes up the chunk that waits, which may have to be copied for the second branch.
    pub fn tee_chunk_microtask(&mut self) -> (step: TeeChunkStep)
        ensures
            *final(self) == (TeeState {
                pending_chunk: Value::Undefined,
                read_again: false,
                ..*old(self)
            }),
            step == if !old(self).canceled2 && old(self).clone_for_branch2 {
                TeeChunkStep::Clone(old(self).pending_chunk)
            } else {
                TeeChunkStep::Enqueue(old(self).pending_chunk)
            },
    {
        let mut chunk: Value = Value::Undefined;
        std::mem::swap(&mut chunk, &mut self.pending_chunk);
        self.read_again = false;
        if !self.canceled2 && self.clone_for_branch2 {
            TeeChunkStep::Clone(chunk)
        } else {
            TeeChunkStep::Enqueue(chunk)
        }
    }

    /// Gives up on a chunk that cannot be copied: the branches fail, and the source is
    /// canceled; `promise` tells what comes of that.
    pub fn tee_clone_failed(
        &self,
        scope: &mut Scope,
        source: &mut ReadableStream,
        branch1: &mut ReadableStream,
        branch2: &mut ReadableStream,
        error: Value,
        promise: u64,
    )
        ensures
            ({
                let w = branches_world(*old(branch1), *old(branch2), *old(scope)).errored(error);
                let after = in_scope(old(source)@, w.scope).cancel(
                    error,
                    PromiseRef::Request(promise),
                ).emit(
                    Effect::Adopt(PromiseRef::TeeCancel(self.id), PromiseRef::Request(promise)),
                );
                &&& final(branch1)@ == w.branch1
                &&& final(branch2)@ == w.branch2
                &&& readable_world(*final(source), *final(scope)) == after
            }),
    {
        branch1.readable_stream_error(scope, error.clone());
        branch2.readable_stream_error(scope, error.clone());
        source.readable_stream_cancel(scope, error, PromiseRef::Request(promise));
        scope.emit(Effect::Adopt(PromiseRef::TeeCancel(self.id), PromiseRef::Request(promise)));
    }

    /// Hands a chunk to each branch that is left. What the branches ask for on that account
    /// comes before [`TeeState::tee_chunk_done`].
    pub fn tee_chunk_enqueue(
        &self,
        scope: &mut Scope,
        branch1: &mut ReadableStream,
        branch2: &mut ReadableStream,
        chunk1: Value,
        chunk2: Value,
    )
        requires
            !self.canceled1 ==> old(branch1)@.counts_chunks(),
            !self.canceled2 ==> old(branch2)@.counts_chunks(),
        ensures
            branches_world(*final(branch1), *final(branch2), *final(scope)) == ({
                let w = branches_world(*old(branch1), *old(branch2), *old(scope)).enqueued(
                    *self,
                    chunk1,
                    chunk2,
                );
                w.with_scope(w.scope.emit(Effect::TeeChunkDone { tee: self.id }))
            }),
    {
        if !self.canceled1 {
            branch1.enqueue_chunk(scope, &chunk1);
        }
        if !self.canceled2 {
            branch2.enqueue_chunk(scope, &chunk2);
        }
        scope.emit(Effect::TeeChunkDone { tee: self.id });
    }

    /// Ends the handing out of a chunk, and reads another one if it was asked for meanwhile.
    pub fn tee_chunk_done(&mut self, scope: &mut Scope, source: &mut ReadableStream)
        requires
            readable_world(*old(source), *old(scope)).wf(),
            old(source)@.slots.reader is Default,
        ensures
            *final(self) == (TeeState { reading: old(self).read_again, ..*old(self) }),
            readable_world(*final(source), *final(scope)) == ({
                let w = readable_world(*old(source), *old(scope));
                if old(self).read_again {
                    w.read(ReadRequest::Tee { tee: old(self).id })
                } else {
                    w
                }
            }),
    {
        self.reading = false;
        if self.read_again {
            self.tee_pull(scope, source);
        }
    }

    /// Takes note that the source has closed: so do the branches that are left.
    pub fn tee_read_request_close_steps(
        &mut self,
        scope: &mut Scope,
        branch1: &mut ReadableStream,
        branch2: &mut ReadableStream,
    )
        requires
            old(branch1)@.controller is Default,
            old(branch2)@.controller is Default,
        ensures
            *final(self) == (TeeState { reading: false, ..*old(self) }),
            branches_world(*final(branch1), *final(branch2), *final(scope)) == ({
                let w = branches_world(*old(branch1), *old(branch2), *old(scope)).closed(
                    *old(self),
                );
                w.with_scope(old(self).settle_cancel(w.scope))
            }),
    {
        self.reading = false;
        if !self.canceled1 {
            branch1.close_values(scope);
        }
        if !self.canceled2 {
            branch2.close_values(scope);
        }
        self.settle_cancel_promise(scope);
    }

    /// Takes note that a read of the source has failed.
    pub fn tee_read_request_error_steps(&mut self)
        ensures
            *final(self) == (TeeState { reading: false, ..*old(self) }),
    {
        self.reading = false;
    }
}

/// The source of a tee is canceled when the second of the branches is, and not before; the
/// reason is made of both reasons in the order of the branches, whichever was canceled
/// first.
pub proof fn law_tee_cancel(state: TeeState, first: Value, second: Value)
    requires
        !state.canceled1,
        !state.canceled2,
    ensures
        ({
            let one_two = state.canceled(Branch::One, first).canceled(Branch::Two, second);
            let two_one = state.canceled(Branch::Two, second).canceled(Branch::One, first);
            &&& !state.canceled(Branch::One, first).abandoned()
            &&& !state.canceled(Branch::Two, second).abandoned()
            &&& one_two == two_one
            &&& one_two.abandoned()
            &&& one_two.reason1 == first
            &&& one_two.reason2 == second
        }),
{
}

/// Whether a branch of a tee has got a chunk: the read that waited first is handed it, and
/// its queue stays as it was; or, where none waited, the chunk comes last in the queue.
/// `place` is the effect that came first of it.
pub open spec fn got_chunk(
    before: ReadableModel,
    after: ReadableModel,
    effects: Seq<Effect>,
    place: int,
    chunk: Value,
) -> bool {
    let queue = before.controller->Default_0.queue;
    let requests = before.slots.requests();
    if requests.len() > 0 {
        &&& effects[place] == chunk_effect(requests[0], chunk)
        &&& after.slots.requests() == requests.drop_first()
        &&& after.controller->Default_0.queue == queue
    } else {
        &&& after.slots.requests() == requests
        &&& after.controller->Default_0.queue == queue.push(crate::algorithms::sized(chunk, Number { bits: ONE }))
    }
}

/// Both branches of a tee get every chunk, in the same order, while neither is canceled: in
/// each the first read that waits is handed the chunk, and its queue stays as it was; where
/// no read waits, the chunk comes last in its queue.
pub proof fn law_tee_same_chunks(w: BranchesWorld, state: TeeState, chunk: Value)
    requires
        !state.canceled1,
        !state.canceled2,
        w.branch1.counts_chunks(),
        w.branch2.counts_chunks(),
        w.first().wf(),
        w.second().wf(),
        w.branch1.slots.state is Readable,
        w.branch2.slots.state is Readable,
        !w.branch1.controller->Default_0.close_requested,
        !w.branch2.controller->Default_0.close_requested,
    ensures
        ({
            let middle = w.first().enqueue_chunk(chunk).scope;
            let after = w.enqueued(state, chunk, chunk);
            &&& w.scope.effects.is_prefix_of(middle.effects)
            &&& middle.effects.is_prefix_of(after.scope.effects)
            &&& got_chunk(
                w.branch1,
                after.branch1,
                after.scope.effects,
                w.scope.effects.len() as int,
                chunk,
            )
            &&& got_chunk(
                w.branch2,
                after.branch2,
                after.scope.effects,
                middle.effects.len() as int,
                chunk,
            )
        }),
{
}

} // verus!
