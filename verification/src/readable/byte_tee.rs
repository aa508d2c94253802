//! The tee of a byte stream: two byte streams that are fed from one.
//!
//! A branch that is read from into views has them filled by the source itself, so the tee
//! reads the source with a default reader or with a BYOB reader, as the branches ask.

use vstd::prelude::*;

use crate::algorithms::composite_reason;
use crate::buffer::{can_transfer, fresh_buffer, live, ArrayBufferView, ViewKind};
use crate::number::Number;
use crate::readable::byte_content_laws::{
    got_bytes, held_bytes, holds_anew, law_enqueue_reaches, lemma_enqueue_grows, ready_for_bytes,
    view_bytes,
};
use crate::readable::byte_flow_laws::law_byte_enqueue;
use crate::readable::byte_frame::{
    law_enqueue_within, law_other_stream_sound, law_respond_with_new_view_within,
    law_respond_within, law_streams_stay_apart, within,
};
use crate::readable::byte_laws::{
    law_byte_byob_request, law_byte_close, law_byte_lock, law_byte_release,
};
use crate::readable::byte_memory::{apart, lemma_heap_grows, lemma_new_buffer_apart};
use crate::readable::byte_queue::lemma_bytes_frame;
use crate::readable::byte_respond::readable_byte_stream_controller_get_byob_request;
use crate::readable::byob_request::ReadableStreamBYOBRequest;
use crate::readable::byte_stream_controller::{
    descriptor_ok, entry_ok, fill_count, fill_ready, view_ok, ByteWorld,
};
use crate::readable::read_request::{
    chunk_effect, into_chunk_effect, ReadIntoRequest, ReadRequest,
};
use crate::readable::reader_algorithms::learn_room;
use crate::readable::readable_stream::{
    create_readable_byte_stream, new_byte_stream, readable_world, ReadableStream, StreamController,
};
use crate::readable::set_up::start_effect;
use crate::readable::stream_world::{in_scope, ReadableModel, ReadableWorld};
use crate::readable::tee::{branches_world, BranchesWorld};
use crate::scope::{
    can_clone, clone_error, Algorithm, Branch, Effect, Microtask, PromiseRef, Reaction, Scope,
    ScopeModel,
};
use crate::value::{pair_of, Value};

verus! {

/// What the branches of a tee of a byte stream share.
pub struct ByteTeeState {
    /// The name of the tee in effects.
    pub id: u64,
    /// The name of the reader that is in use.
    pub reader: u64,
    /// Whether a read of the source is under way.
    pub reading: bool,
    /// Whether the first branch asked for bytes while some were being handed out.
    pub read_again_for_branch1: bool,
    /// Whether the second branch asked for bytes while some were being handed out.
    pub read_again_for_branch2: bool,
    pub canceled1: bool,
    pub canceled2: bool,
    pub reason1: Value,
    pub reason2: Value,
    /// The chunk that waits for its microtask.
    pub pending_chunk: Value,
    /// Whether that chunk was read for the second branch.
    pub pending_for_branch2: bool,
}

/// The state of a new tee.
pub open spec fn new_byte_tee(id: u64, reader: u64) -> ByteTeeState {
    ByteTeeState {
        id,
        reader,
        reading: false,
        read_again_for_branch1: false,
        read_again_for_branch2: false,
        canceled1: false,
        canceled2: false,
        reason1: Value::Undefined,
        reason2: Value::Undefined,
        pending_chunk: Value::Undefined,
        pending_for_branch2: false,
    }
}

/// A new branch of a tee of a byte stream.
pub open spec fn byte_tee_branch(tee: u64, id: u64, branch: Branch) -> ReadableModel {
    new_byte_stream(
        id,
        Algorithm::ByteTeePull(tee, branch),
        Algorithm::ByteTeeCancel(tee, branch),
        Value::Undefined,
        Number { bits: 0 },
        None,
    )
}

/// That the failure of the reader of a tee is forwarded.
pub open spec fn forward_effect(tee: u64, reader: u64, stream: u64) -> Effect {
    Effect::OnRejected(
        PromiseRef::ReaderClosed(stream),
        Reaction::ByteTeeForward { tee, reader },
    )
}

impl ByteTeeState {
    /// The state after a branch was canceled.
    pub open spec fn canceled(self, branch: Branch, reason: Value) -> ByteTeeState {
        match branch {
            Branch::One => ByteTeeState { canceled1: true, reason1: reason, ..self },
            Branch::Two => ByteTeeState { canceled2: true, reason2: reason, ..self },
        }
    }

    /// Whether both branches have been canceled.
    pub open spec fn abandoned(self) -> bool {
        self.canceled1 && self.canceled2
    }

    /// Whether a branch has been canceled.
    pub open spec fn is_canceled(self, branch: Branch) -> bool {
        match branch {
            Branch::One => self.canceled1,
            Branch::Two => self.canceled2,
        }
    }

    /// The promise for the cancelation of the source resolved, if a branch is left.
    pub open spec fn settle_cancel(self, scope: ScopeModel) -> ScopeModel {
        if self.abandoned() {
            scope
        } else {
            scope.emit(Effect::Resolve(PromiseRef::TeeCancel(self.id), Value::Undefined))
        }
    }

    /// The state while a chunk is handed out.
    pub open spec fn taken_up(self) -> ByteTeeState {
        ByteTeeState {
            pending_chunk: Value::Undefined,
            read_again_for_branch1: false,
            read_again_for_branch2: false,
            ..self
        }
    }
}

/// Two byte streams that share no array buffers.
pub open spec fn separate(first: ByteWorld, second: ByteWorld) -> bool {
    forall|b: usize| #[trigger] apart(first, b) || apart(second, b)
}

/// Two byte streams that are sound and share no array buffers.
pub open spec fn sound_pair(w: BranchesWorld) -> bool {
    &&& w.branch1.controller is Byte
    &&& w.branch2.controller is Byte
    &&& w.first().as_byte().sound()
    &&& w.second().as_byte().sound()
    &&& separate(w.first().as_byte(), w.second().as_byte())
}

/// A chunk that belongs to neither of two streams.
pub open spec fn chunk_ok(w: BranchesWorld, view: ArrayBufferView) -> bool {
    &&& live(w.scope.heap, view.buffer)
    &&& view_ok(w.scope.heap, view)
    &&& view.byte_offset + view.byte_length <= usize::MAX
    &&& apart(w.first().as_byte(), view.buffer)
    &&& apart(w.second().as_byte(), view.buffer)
}

impl BranchesWorld {
    pub open spec fn swapped(self) -> BranchesWorld {
        BranchesWorld { branch1: self.branch2, branch2: self.branch1, ..self }
    }

    /// The branches, the one that a chunk was read for first.
    pub open spec fn ordered(self, for_branch2: bool) -> BranchesWorld {
        if for_branch2 {
            self.swapped()
        } else {
            self
        }
    }

    /// A copy of a chunk: the branches with the copy in the store, and the copy.
    pub open spec fn copied(self, view: ArrayBufferView) -> (BranchesWorld, ArrayBufferView) {
        let data = self.scope.heap[view.buffer as int].data.subrange(
            view.byte_offset as int,
            view.byte_offset + view.byte_length,
        );
        (
            self.with_scope(self.scope.with_heap(self.scope.heap.push(fresh_buffer(data)))),
            ArrayBufferView {
                kind: ViewKind::Uint8,
                buffer: self.scope.heap.len() as usize,
                byte_offset: 0,
                byte_length: view.byte_length,
            },
        )
    }

    /// A chunk enqueued into the first branch, unless that is canceled.
    pub open spec fn enqueue_first(self, canceled: bool, view: ArrayBufferView) -> (
        BranchesWorld,
        Result<(), Value>,
    ) {
        if canceled {
            (self, Ok(()))
        } else {
            let (w, result) = self.first().enqueue_bytes(view);
            (self.then_first(w), result)
        }
    }

    /// A chunk enqueued into the second branch, unless that is canceled.
    pub open spec fn enqueue_second(self, canceled: bool, view: ArrayBufferView) -> (
        BranchesWorld,
        Result<(), Value>,
    ) {
        let (w, result) = self.swapped().enqueue_first(canceled, view);
        (w.swapped(), result)
    }

    /// A chunk for each branch that is left.
    pub open spec fn enqueue_both(
        self,
        canceled1: bool,
        view1: ArrayBufferView,
        canceled2: bool,
        view2: ArrayBufferView,
    ) -> (BranchesWorld, Result<(), Value>) {
        let (w, result) = self.enqueue_first(canceled1, view1);
        if result is Err {
            (w, result)
        } else {
            w.enqueue_second(canceled2, view2)
        }
    }

    /// A view that the source has filled handed to the first branch, unless that is
    /// canceled.
    pub open spec fn respond_view_first(self, canceled: bool, view: ArrayBufferView) -> (
        BranchesWorld,
        Result<(), Value>,
    ) {
        if canceled {
            (self, Ok(()))
        } else {
            let (w, result) = self.first().respond_with_view(view);
            (self.then_first(w), result)
        }
    }

    /// The first branch closed, unless it is canceled.
    pub open spec fn close_first(self, canceled: bool) -> (BranchesWorld, Result<(), Value>) {
        if canceled {
            (self, Ok(()))
        } else {
            let (w, result) = self.first().close_bytes();
            (self.then_first(w), result)
        }
    }

    /// Both branches closed, but for those that are canceled.
    pub open spec fn close_both(self, canceled1: bool, canceled2: bool) -> (
        BranchesWorld,
        Result<(), Value>,
    ) {
        let (w, result) = self.close_first(canceled1);
        if result is Err {
            (w, result)
        } else {
            let (after, result) = w.swapped().close_first(canceled2);
            (after.swapped(), result)
        }
    }

    /// The first branch told that nothing more was written, where it waits for that.
    pub open spec fn respond_none_first(self) -> (BranchesWorld, Result<(), Value>) {
        if self.branch1.controller->Byte_0.pending.len() == 0 {
            (self, Ok(()))
        } else {
            let (w, result) = self.first().respond_bytes(0);
            (self.then_first(w), result)
        }
    }

    /// Both branches closed at the end of the source, with what they still wait for.
    pub open spec fn end_both(self, canceled1: bool, canceled2: bool) -> (
        BranchesWorld,
        Result<(), Value>,
    ) {
        let (closed, result) = self.close_both(canceled1, canceled2);
        if result is Err {
            (closed, result)
        } else {
            let (first, result) = closed.respond_none_first();
            if result is Err {
                (first, result)
            } else {
                let (after, result) = first.swapped().respond_none_first();
                (after.swapped(), result)
            }
        }
    }

    /// Both branches closed at the end of the source, which hands back the view of the
    /// first.
    pub open spec fn end_with_view(
        self,
        canceled1: bool,
        canceled2: bool,
        view: Option<ArrayBufferView>,
    ) -> (BranchesWorld, Result<(), Value>) {
        let (closed, result) = self.close_both(canceled1, canceled2);
        if result is Err || view is None {
            (closed, result)
        } else {
            let (first, result) = closed.respond_view_first(canceled1, view->0);
            if result is Err || canceled2 {
                (first, result)
            } else {
                let (after, result) = first.swapped().respond_none_first();
                (after.swapped(), result)
            }
        }
    }

    /// A view that the source has filled for the first branch: a copy goes to the second.
    /// Gives the error that kept the copy from being made, if one did.
    pub open spec fn give_filled(
        self,
        canceled1: bool,
        canceled2: bool,
        view: ArrayBufferView,
    ) -> (BranchesWorld, Result<(), Value>) {
        if canceled2 {
            self.respond_view_first(canceled1, view)
        } else {
            let (w, copy) = self.copied(view);
            let (told, result) = w.respond_view_first(canceled1, view);
            if result is Err {
                (told, result)
            } else {
                told.enqueue_second(false, copy)
            }
        }
    }
}

/// The branches of a tee failed and its source canceled: the source and the branches after
/// that.
pub open spec fn tee_failed(
    id: u64,
    source: ReadableModel,
    branches: BranchesWorld,
    error: Value,
    promise: u64,
) -> (ReadableWorld, BranchesWorld) {
    let w = branches.errored(error);
    let after = in_scope(source, w.scope).cancel(error, PromiseRef::Request(promise)).emit(
        Effect::Adopt(PromiseRef::TeeCancel(id), PromiseRef::Request(promise)),
    );
    (after, w.with_scope(after.scope))
}

/// The source of a tee read with a default reader: the source after that, and the name of
/// the reader.
pub open spec fn pulled_with_default(
    state: ByteTeeState,
    source: ReadableWorld,
    new_reader: u64,
) -> (ReadableWorld, u64) {
    let (w, reader) = if source.stream.slots.reader is Byob {
        (
            source.release().acquire_default_reader().0.emit(
                forward_effect(state.id, new_reader, source.stream.slots.id),
            ),
            new_reader,
        )
    } else {
        (source, state.reader)
    };
    (w.read(ReadRequest::ByteTeeDefault { tee: state.id }), reader)
}

/// The source of a tee read into a view with a BYOB reader: the source after that, and the
/// name of the reader.
pub open spec fn pulled_with_byob(
    state: ByteTeeState,
    source: ReadableWorld,
    view: ArrayBufferView,
    for_branch2: bool,
    new_reader: u64,
) -> (ReadableWorld, u64) {
    let (w, reader) = if source.stream.slots.reader is Default {
        (
            source.release().acquire_byob_reader().0.emit(
                forward_effect(state.id, new_reader, source.stream.slots.id),
            ),
            new_reader,
        )
    } else {
        (source, state.reader)
    };
    (w.read_into(view, 1, ReadIntoRequest::ByteTeeByob { tee: state.id, for_branch2 }), reader)
}

/// A branch asks for bytes: the state of the tee, the source and the branch after that.
pub open spec fn pulled(
    state: ByteTeeState,
    source: ReadableModel,
    branch: ReadableWorld,
    for_branch2: bool,
    new_reader: u64,
) -> (ByteTeeState, ReadableWorld, ReadableModel) {
    if state.reading {
        (
            if for_branch2 {
                ByteTeeState { read_again_for_branch2: true, ..state }
            } else {
                ByteTeeState { read_again_for_branch1: true, ..state }
            },
            in_scope(source, branch.scope),
            branch.stream,
        )
    } else {
        let asked = ReadableWorld::from_byte(branch.as_byte().with_byob_request()).stream;
        let request = asked.controller->Byte_0.byob_request;
        let (after, reader) = match request {
            None => pulled_with_default(state, in_scope(source, branch.scope), new_reader),
            Some(request) => pulled_with_byob(
                state,
                in_scope(source, branch.scope),
                request.view->0,
                for_branch2,
                new_reader,
            ),
        };
        (ByteTeeState { reading: true, reader, ..state }, after, asked)
    }
}

/// A copy in the store leaves two streams sound, and is none of theirs.
proof fn lemma_copied(w: BranchesWorld, view: ArrayBufferView)
    requires
        sound_pair(w),
        chunk_ok(w, view),
        w.scope.heap.len() < usize::MAX,
    ensures
        ({
            let (after, copy) = w.copied(view);
            &&& sound_pair(after)
            &&& chunk_ok(after, view)
            &&& chunk_ok(after, copy)
            &&& copy.buffer != view.buffer
        }),
{
    let (after, copy) = w.copied(view);
    let first = w.first().as_byte();
    let second = w.second().as_byte();
    assert(within(first, after.first().as_byte(), None)) by {
        assert forall|b: usize| b < w.scope.heap.len() && apart(first, b) implies #[trigger] apart(
            after.first().as_byte(),
            b,
        ) by {}
    }
    assert forall|b: usize| #[trigger] apart(second, b) || apart(first, b) by {
        assert(apart(first, b) || apart(second, b));
    }
    lemma_heap_grows(first, after.scope.heap);
    lemma_heap_grows(second, after.scope.heap);
    assert(after.first().as_byte() =~= first.with_heap(after.scope.heap));
    assert(after.second().as_byte() =~= second.with_heap(after.scope.heap));
    lemma_new_buffer_apart(first, after.first().as_byte());
    lemma_new_buffer_apart(second, after.second().as_byte());
    assert forall|b: usize| #[trigger] apart(after.first().as_byte(), b) || apart(
        after.second().as_byte(),
        b,
    ) by {
        assert(apart(first, b) || apart(second, b));
    }
    assert(apart(first, view.buffer) ==> apart(after.first().as_byte(), view.buffer));
    assert(apart(second, view.buffer) ==> apart(after.second().as_byte(), view.buffer));
}

/// What the first of two streams does within its own buffers leaves the second sound, and
/// another chunk as it is.
proof fn lemma_second_after(
    w: BranchesWorld,
    first: ReadableWorld,
    given: Option<usize>,
    other: Option<ArrayBufferView>,
)
    requires
        sound_pair(w),
        within(w.first().as_byte(), first.as_byte(), given),
        given matches Some(b) ==> apart(w.second().as_byte(), b),
        other matches Some(view) ==> chunk_ok(w, view) && given != Some(view.buffer),
    ensures
        w.then_first(first).second().as_byte().sound(),
        other matches Some(view) ==> {
            &&& view_ok(first.scope.heap, view)
            &&& live(first.scope.heap, view.buffer)
            &&& apart(w.then_first(first).second().as_byte(), view.buffer)
        },
{
    let before = w.first().as_byte();
    let second = w.second().as_byte();
    law_other_stream_sound(second, before, first.as_byte(), given);
    let after = w.then_first(first);
    assert(after.second().as_byte() =~= second.with_scope(first.scope));
    match other {
        Some(view) => {
            assert(apart(before, view.buffer));
            assert(before.scope.heap[view.buffer as int] == w.scope.heap[view.buffer as int]);
            assert(apart(after.second().as_byte(), view.buffer));
        },
        None => {},
    }
}

/// Hands a chunk to each branch that is left. Gives the error of a branch that does not
/// take its chunk.
fn enqueue_both(
    scope: &mut Scope,
    branch1: &mut ReadableStream,
    canceled1: bool,
    view1: ArrayBufferView,
    branch2: &mut ReadableStream,
    canceled2: bool,
    view2: ArrayBufferView,
) -> (result: Result<(), Value>)
    requires
        sound_pair(branches_world(*old(branch1), *old(branch2), *old(scope))),
        chunk_ok(branches_world(*old(branch1), *old(branch2), *old(scope)), view1),
        chunk_ok(branches_world(*old(branch1), *old(branch2), *old(scope)), view2),
        view1.byte_length > 0,
        view2.byte_length > 0,
        !canceled1 && !canceled2 ==> view1.buffer != view2.buffer,
        old(scope)@.heap.len() + 3 <= usize::MAX,
    ensures
        (branches_world(*final(branch1), *final(branch2), *final(scope)), result)
            == branches_world(*old(branch1), *old(branch2), *old(scope)).enqueue_both(
            canceled1,
            view1,
            canceled2,
            view2,
        ),
{
    let ghost start = branches_world(*branch1, *branch2, *scope);
    if !canceled1 {
        learn_room(branch1);
        proof {
            law_enqueue_within(start.first().as_byte(), view1);
        }
        match branch1.enqueue_bytes(scope, view1) {
            Ok(()) => {},
            Err(error) => {
                return Err(error);
            },
        }
        proof {
            lemma_second_after(
                start,
                readable_world(*branch1, *scope),
                Some(view1.buffer),
                if canceled2 {
                    None
                } else {
                    Some(view2)
                },
            );
        }
    }
    if !canceled2 {
        match branch2.enqueue_bytes(scope, view2) {
            Ok(()) => {},
            Err(error) => {
                return Err(error);
            },
        }
    }
    Ok(())
}

impl ByteTeeState {
    /// The state of a new tee, with a promise for the cancelation of the source.
    pub fn new(scope: &mut Scope, id: u64, reader: u64) -> (state: ByteTeeState)
        ensures
            state == new_byte_tee(id, reader),
            final(scope)@ == old(scope)@.emit(Effect::NewPromise(PromiseRef::TeeCancel(id))),
    {
        scope.emit(Effect::NewPromise(PromiseRef::TeeCancel(id)));
        ByteTeeState {
            id,
            reader,
            reading: false,
            read_again_for_branch1: false,
            read_again_for_branch2: false,
            canceled1: false,
            canceled2: false,
            reason1: Value::Undefined,
            reason2: Value::Undefined,
            pending_chunk: Value::Undefined,
            pending_for_branch2: false,
        }
    }

    /// Has the failure of the reader in use forwarded to the branches.
    fn byte_tee_forward_reader_error(&self, scope: &mut Scope, stream: u64)
        ensures
            final(scope)@ == old(scope)@.emit(forward_effect(self.id, self.reader, stream)),
    {
        scope.emit(
            Effect::OnRejected(
                PromiseRef::ReaderClosed(stream),
                Reaction::ByteTeeForward { tee: self.id, reader: self.reader },
            ),
        );
    }

    /// Resolves the promise for the cancelation of the source, if a branch is left.
    fn settle_cancel_promise(&self, scope: &mut Scope)
        ensures
            final(scope)@ == self.settle_cancel(old(scope)@),
    {
        if !self.canceled1 || !self.canceled2 {
            scope.emit(Effect::Resolve(PromiseRef::TeeCancel(self.id), Value::Undefined));
        }
    }

    /// Takes note that a reader of the source was told of a failure: so are the branches, if
    /// the reader is still in use.
    pub fn byte_tee_forward_rejected(
        &self,
        scope: &mut Scope,
        branch1: &mut ReadableStream,
        branch2: &mut ReadableStream,
        this_reader: u64,
        reason: Value,
    )
        ensures
            branches_world(*final(branch1), *final(branch2), *final(scope)) == ({
                let w = branches_world(*old(branch1), *old(branch2), *old(scope));
                if this_reader != self.reader {
                    w
                } else {
                    let failed = w.errored(reason);
                    failed.with_scope(self.settle_cancel(failed.scope))
                }
            }),
    {
        if this_reader != self.reader {
            return ;
        }
        branch1.readable_stream_error(scope, reason.clone());
        branch2.readable_stream_error(scope, reason);
        self.settle_cancel_promise(scope);
    }

    /// Reads from the source with a default reader, which takes the place of a BYOB reader.
    fn byte_tee_pull_with_default_reader(
        &mut self,
        scope: &mut Scope,
        source: &mut ReadableStream,
        new_reader: u64,
    )
        requires
            old(source)@.controller is Byte,
            readable_world(*old(source), *old(scope)).as_byte().sound(),
            old(source)@.slots.locked(),
        ensures
            ({
                let (w, reader) = pulled_with_default(
                    *old(self),
                    readable_world(*old(source), *old(scope)),
                    new_reader,
                );
                &&& *final(self) == (ByteTeeState { reader, ..*old(self) })
                &&& readable_world(*final(source), *final(scope)) == w
            }),
    {
        if source.slots.has_byob_reader() {
            proof {
                let w = readable_world(*source, *scope);
                law_byte_release(w);
                law_byte_lock(w.release());
            }
            source.readable_stream_reader_generic_release(scope);
            let _ = source.set_up_readable_stream_default_reader(scope);
            self.reader = new_reader;
            self.byte_tee_forward_reader_error(scope, source.slots.id);
        }
        source.readable_stream_default_reader_read(
            scope,
            ReadRequest::ByteTeeDefault { tee: self.id },
        );
    }

    /// Reads from the source into a view with a BYOB reader, which takes the place of a
    /// default reader.
    fn byte_tee_pull_with_byob_reader(
        &mut self,
        scope: &mut Scope,
        source: &mut ReadableStream,
        view: ArrayBufferView,
        for_branch2: bool,
        new_reader: u64,
    )
        requires
            old(source)@.controller is Byte,
            readable_world(*old(source), *old(scope)).as_byte().sound(),
            old(source)@.slots.locked(),
            apart(readable_world(*old(source), *old(scope)).as_byte(), view.buffer),
            view_ok(old(scope)@.heap, view),
            view.kind is Uint8,
            view.byte_length > 0,
        ensures
            ({
                let (w, reader) = pulled_with_byob(
                    *old(self),
                    readable_world(*old(source), *old(scope)),
                    view,
                    for_branch2,
                    new_reader,
                );
                &&& *final(self) == (ByteTeeState { reader, ..*old(self) })
                &&& readable_world(*final(source), *final(scope)) == w
            }),
    {
        if source.slots.has_default_reader() {
            proof {
                let w = readable_world(*source, *scope);
                law_byte_release(w);
                law_byte_lock(w.release());
            }
            source.readable_stream_reader_generic_release(scope);
            let _ = source.set_up_readable_stream_byob_reader(scope);
            self.reader = new_reader;
            self.byte_tee_forward_reader_error(scope, source.slots.id);
        }
        source.readable_stream_byob_reader_read(
            scope,
            view,
            1,
            ReadIntoRequest::ByteTeeByob { tee: self.id, for_branch2 },
        );
    }

    /// Reads from the source for a branch, or takes note that it wants more. `new_reader` is
    /// the name of the reader that is made where another kind is needed.
    pub fn byte_tee_pull(
        &mut self,
        scope: &mut Scope,
        source: &mut ReadableStream,
        branch: &mut ReadableStream,
        for_branch2: bool,
        new_reader: u64,
    )
        requires
            sound_pair(branches_world(*old(source), *old(branch), *old(scope))),
            old(source)@.slots.locked(),
        ensures
            ({
                let (state, w, asked) = pulled(
                    *old(self),
                    old(source)@,
                    readable_world(*old(branch), *old(scope)),
                    for_branch2,
                    new_reader,
                );
                &&& *final(self) == state
                &&& readable_world(*final(source), *final(scope)) == w
                &&& final(branch)@ == asked
            }),
    {
        if self.reading {
            if for_branch2 {
                self.read_again_for_branch2 = true;
            } else {
                self.read_again_for_branch1 = true;
            }
            return ;
        }
        self.reading = true;
        let ghost before = readable_world(*branch, *scope).as_byte();
        let request: Option<ReadableStreamBYOBRequest> = match &mut branch.controller {
            StreamController::Byte(controller) => readable_byte_stream_controller_get_byob_request(
                scope,
                &branch.slots,
                controller,
            ),
            StreamController::Default(_) => None,
        };
        proof {
            law_byte_byob_request(before);
        }
        match request {
            None => {
                self.byte_tee_pull_with_default_reader(scope, source, new_reader);
            },
            Some(request) => {
                match request.view {
                    Some(view) => {
                        proof {
                            let head = before.controller.pending[0];
                            assert(descriptor_ok(before.scope.heap, head));
                            assert(!apart(before, head.buffer));
                            assert(apart(
                                readable_world(*source, *scope).as_byte(),
                                head.buffer,
                            ));
                        }
                        self.byte_tee_pull_with_byob_reader(
                            scope,
                            source,
                            view,
                            for_branch2,
                            new_reader,
                        );
                    },
                    None => {},
                }
            },
        }
    }

    /// Takes note that a branch was canceled; once both are, so is the source, and
    /// `promise` tells what comes of that.
    pub fn byte_tee_cancel(
        &mut self,
        scope: &mut Scope,
        source: &mut ReadableStream,
        branch: Branch,
        reason: Value,
        promise: u64,
    )
        ensures
            *final(self) == old(self).canceled(branch, reason),
            readable_world(*final(source), *final(scope)) == ({
                let w = readable_world(*old(source), *old(scope));
                if final(self).abandoned() {
                    w.cancel(
                        pair_of(final(self).reason1, final(self).reason2),
                        PromiseRef::Request(promise),
                    ).emit(
                        Effect::Adopt(
                            PromiseRef::TeeCancel(old(self).id),
                            PromiseRef::Request(promise),
                        ),
                    )
                } else {
                    w
                }
            }),
    {
        match branch {
            Branch::One => {
                self.canceled1 = true;
                self.reason1 = reason;
            },
            Branch::Two => {
                self.canceled2 = true;
                self.reason2 = reason;
            },
        }
        if self.canceled1 && self.canceled2 {
            let composite: Value = composite_reason(&self.reason1, &self.reason2);
            source.readable_stream_cancel(scope, composite, PromiseRef::Request(promise));
            scope.emit(
                Effect::Adopt(PromiseRef::TeeCancel(self.id), PromiseRef::Request(promise)),
            );
        }
    }

    /// Takes a chunk of a default read and keeps it for a microtask.
    pub fn byte_tee_default_chunk_steps(&mut self, scope: &mut Scope, chunk: Value)
        ensures
            *final(self) == (ByteTeeState { pending_chunk: chunk, ..*old(self) }),
            final(scope)@ == old(scope)@.emit(
                Effect::Queue(Microtask::ByteTeeDefault { tee: old(self).id }),
            ),
    {
        self.pending_chunk = chunk;
        scope.emit(Effect::Queue(Microtask::ByteTeeDefault { tee: self.id }));
    }

    /// Takes a view that the source has filled and keeps it for a microtask.
    pub fn byte_tee_byob_chunk_steps(
        &mut self,
        scope: &mut Scope,
        for_branch2: bool,
        chunk: Value,
    )
        ensures
            *final(self) == (ByteTeeState {
                pending_chunk: chunk,
                pending_for_branch2: for_branch2,
                ..*old(self)
            }),
            final(scope)@ == old(scope)@.emit(
                Effect::Queue(Microtask::ByteTeeByob { tee: old(self).id }),
            ),
    {
        self.pending_chunk = chunk;
        self.pending_for_branch2 = for_branch2;
        scope.emit(Effect::Queue(Microtask::ByteTeeByob { tee: self.id }));
    }

    /// Takes note that a read of the source has failed.
    pub fn byte_tee_set_not_reading(&mut self)
        ensures
            *final(self) == (ByteTeeState { reading: false, ..*old(self) }),
    {
        self.reading = false;
    }

    /// Fails both branches and cancels the source; `promise` tells what comes of that.
    fn byte_tee_error_both_branches_and_cancel(
        &self,
        scope: &mut Scope,
        source: &mut ReadableStream,
        branch1: &mut ReadableStream,
        branch2: &mut ReadableStream,
        error: Value,
        promise: u64,
    )
        ensures
            (
                readable_world(*final(source), *final(scope)),
                branches_world(*final(branch1), *final(branch2), *final(scope)),
            ) == tee_failed(
                self.id,
                old(source)@,
                branches_world(*old(branch1), *old(branch2), *old(scope)),
                error,
                promise,
            ),
    {
        branch1.readable_stream_error(scope, error.clone());
        branch2.readable_stream_error(scope, error.clone());
        source.readable_stream_cancel(scope, error, PromiseRef::Request(promise));
        scope.emit(Effect::Adopt(PromiseRef::TeeCancel(self.id), PromiseRef::Request(promise)));
    }

    /// Takes up the chunk that waits.
    fn take_up_chunk(&mut self) -> (chunk: Value)
        ensures
            *final(self) == old(self).taken_up(),
            chunk == old(self).pending_chunk,
    {
        let mut chunk: Value = Value::Undefined;
        std::mem::swap(&mut chunk, &mut self.pending_chunk);
        self.read_again_for_branch1 = false;
        self.read_again_for_branch2 = false;
        chunk
    }

    /// Hands the chunk of a default read to each branch that is left; where both are, the
    /// second gets a copy. What the branches ask for on that account comes before
    /// [`ByteTeeState::byte_tee_chunk_done`]. Gives the error of a branch that does not take
    /// its chunk.
    pub fn byte_tee_default_microtask(
        &mut self,
        scope: &mut Scope,
        source: &mut ReadableStream,
        branch1: &mut ReadableStream,
        branch2: &mut ReadableStream,
        promise: u64,
    ) -> (result: Result<(), Value>)
        requires
            sound_pair(branches_world(*old(branch1), *old(branch2), *old(scope))),
            old(self).pending_chunk matches Value::Bytes(view) && view.byte_length > 0 && chunk_ok(
                branches_world(*old(branch1), *old(branch2), *old(scope)),
                view,
            ),
            old(scope)@.heap.len() + 4 <= usize::MAX,
        ensures
            *final(self) == old(self).taken_up(),
            ({
                let w = branches_world(*old(branch1), *old(branch2), *old(scope));
                let view = old(self).pending_chunk->Bytes_0;
                let both = !old(self).canceled1 && !old(self).canceled2;
                let after = branches_world(*final(branch1), *final(branch2), *final(scope));
                if both && !can_clone(w.scope, view.buffer, view.byte_length as nat) {
                    &&& result is Ok
                    &&& (readable_world(*final(source), *final(scope)), after) == tee_failed(
                        old(self).id,
                        old(source)@,
                        w,
                        clone_error(w.scope, view.buffer),
                        promise,
                    )
                } else {
                    let (given, outcome) = if both {
                        let (copied, copy) = w.copied(view);
                        copied.enqueue_both(false, view, false, copy)
                    } else {
                        w.enqueue_both(old(self).canceled1, view, old(self).canceled2, view)
                    };
                    &&& final(source)@ == old(source)@
                    &&& result == outcome
                    &&& after == if outcome is Ok {
                        given.with_scope(
                            given.scope.emit(Effect::ByteTeeChunkDone { tee: old(self).id }),
                        )
                    } else {
                        given
                    }
                }
            }),
    {
        let chunk: Value = self.take_up_chunk();
        let view: ArrayBufferView = match chunk {
            Value::Bytes(view) => view,
            _ => {
                return Ok(());
            },
        };
        let ghost start = branches_world(*branch1, *branch2, *scope);
        let mut second: ArrayBufferView = view;
        if !self.canceled1 && !self.canceled2 {
            match scope.clone_region(view.buffer, view.byte_offset, view.byte_length) {
                Ok(buffer) => {
                    second = ArrayBufferView {
                        kind: ViewKind::Uint8,
                        buffer,
                        byte_offset: 0,
                        byte_length: view.byte_length,
                    };
                    proof {
                        lemma_copied(start, view);
                        assert(branches_world(*branch1, *branch2, *scope) =~= start.copied(view).0);
                    }
                },
                Err(error) => {
                    self.byte_tee_error_both_branches_and_cancel(
                        scope,
                        source,
                        branch1,
                        branch2,
                        error,
                        promise,
                    );
                    return Ok(());
                },
            }
        }
        match enqueue_both(
            scope,
            branch1,
            self.canceled1,
            view,
            branch2,
            self.canceled2,
            second,
        ) {
            Ok(()) => {},
            Err(error) => {
                return Err(error);
            },
        }
        scope.emit(Effect::ByteTeeChunkDone { tee: self.id });
        Ok(())
    }
}

/// Hands a view that the source has filled to the branch it was read for, and a copy of it
/// to the other; the copy is missing where the other branch is canceled. Gives the error of
/// a branch that does not take what it is handed.
fn give_filled(
    scope: &mut Scope,
    byob: &mut ReadableStream,
    byob_canceled: bool,
    view: ArrayBufferView,
    other: &mut ReadableStream,
    copy: Option<ArrayBufferView>,
) -> (result: Result<(), Value>)
    requires
        sound_pair(branches_world(*old(byob), *old(other), *old(scope))),
        chunk_ok(branches_world(*old(byob), *old(other), *old(scope)), view),
        copy matches Some(copy) ==> copy.byte_length > 0 && copy.buffer != view.buffer && chunk_ok(
            branches_world(*old(byob), *old(other), *old(scope)),
            copy,
        ),
        !byob_canceled ==> old(byob)@.controller->Byte_0.pending.len() > 0,
        old(scope)@.heap.len() + 2 <= usize::MAX,
    ensures
        (branches_world(*final(byob), *final(other), *final(scope)), result) == ({
            let w = branches_world(*old(byob), *old(other), *old(scope));
            let (told, outcome) = w.respond_view_first(byob_canceled, view);
            if outcome is Err || copy is None {
                (told, outcome)
            } else {
                told.enqueue_second(false, copy->0)
            }
        }),
{
    let ghost start = branches_world(*byob, *other, *scope);
    if !byob_canceled {
        proof {
            law_respond_with_new_view_within(start.first().as_byte(), view);
        }
        match byob.respond_with_view(scope, view) {
            Ok(()) => {},
            Err(error) => {
                return Err(error);
            },
        }
        proof {
            lemma_second_after(start, readable_world(*byob, *scope), Some(view.buffer), copy);
        }
    }
    match copy {
        Some(copy) => other.enqueue_bytes(scope, copy),
        None => Ok(()),
    }
}

/// Closes both branches, but for those that are canceled.
fn close_both(
    scope: &mut Scope,
    first: &mut ReadableStream,
    canceled1: bool,
    second: &mut ReadableStream,
    canceled2: bool,
) -> (result: Result<(), Value>)
    requires
        sound_pair(branches_world(*old(first), *old(second), *old(scope))),
    ensures
        (branches_world(*final(first), *final(second), *final(scope)), result) == branches_world(
            *old(first),
            *old(second),
            *old(scope),
        ).close_both(canceled1, canceled2),
        sound_pair(branches_world(*final(first), *final(second), *final(scope))),
        final(scope)@.heap == old(scope)@.heap,
        result is Ok ==> final(first)@.controller->Byte_0.pending == old(
            first,
        )@.controller->Byte_0.pending,
        forall|b: usize|
            apart(readable_world(*old(first), *old(scope)).as_byte(), b) ==> #[trigger] apart(
                readable_world(*final(first), *final(scope)).as_byte(),
                b,
            ),
        forall|b: usize|
            apart(readable_world(*old(second), *old(scope)).as_byte(), b) ==> #[trigger] apart(
                readable_world(*final(second), *final(scope)).as_byte(),
                b,
            ),
{
    let ghost start = branches_world(*first, *second, *scope);
    if !canceled1 {
        proof {
            law_byte_close(start.first().as_byte());
        }
        match first.close_bytes(scope) {
            Ok(()) => {},
            Err(error) => {
                proof {
                    lemma_closed_pair(start, readable_world(*first, *scope));
                }
                return Err(error);
            },
        }
        proof {
            lemma_closed_pair(start, readable_world(*first, *scope));
        }
    }
    let ghost middle = branches_world(*first, *second, *scope);
    if !canceled2 {
        proof {
            law_byte_close(middle.second().as_byte());
            lemma_swap(middle);
        }
        match second.close_bytes(scope) {
            Ok(()) => {},
            Err(error) => {
                proof {
                    lemma_closed_pair(middle.swapped(), readable_world(*second, *scope));
                    lemma_swap(middle.swapped().then_first(readable_world(*second, *scope)));
                }
                return Err(error);
            },
        }
        proof {
            lemma_closed_pair(middle.swapped(), readable_world(*second, *scope));
            lemma_swap(middle.swapped().then_first(readable_world(*second, *scope)));
        }
    }
    Ok(())
}

/// A pair is as sound in one order as in the other.
proof fn lemma_swap(w: BranchesWorld)
    requires
        sound_pair(w),
    ensures
        sound_pair(w.swapped()),
{
    let first = w.first().as_byte();
    let second = w.second().as_byte();
    assert(w.swapped().first() == w.second());
    assert(w.swapped().second() == w.first());
    assert forall|b: usize| #[trigger] apart(second, b) || apart(first, b) by {
        assert(apart(first, b) || apart(second, b));
    }
}

/// The close of the first of two streams leaves the pair sound.
proof fn lemma_closed_pair(w: BranchesWorld, closed: ReadableWorld)
    requires
        sound_pair(w),
        closed == w.first().close_bytes().0,
    ensures
        sound_pair(w.then_first(closed)),
        closed.scope.heap == w.scope.heap,
        forall|b: usize|
            apart(w.first().as_byte(), b) ==> #[trigger] apart(closed.as_byte(), b),
{
    let before = w.first().as_byte();
    let second = w.second().as_byte();
    law_byte_close(before);
    let after = w.then_first(closed);
    assert(after.first().as_byte() =~= closed.as_byte());
    assert forall|b: usize| apart(before, b) implies #[trigger] apart(closed.as_byte(), b) by {}
    assert(within(before, closed.as_byte(), None));
    law_other_stream_sound(second, before, closed.as_byte(), None);
    assert(after.second().as_byte() =~= second.with_scope(closed.scope));
    assert forall|b: usize| #[trigger] apart(after.first().as_byte(), b) || apart(
        after.second().as_byte(),
        b,
    ) by {
        assert(apart(before, b) || apart(second, b));
    }
}

/// Tells a branch that nothing more was written, where it waits for that.
fn respond_none(scope: &mut Scope, branch: &mut ReadableStream) -> (result: Result<(), Value>)
    requires
        old(branch)@.controller is Byte,
        readable_world(*old(branch), *old(scope)).as_byte().sound(),
    ensures
        (readable_world(*final(branch), *final(scope)), result) == ({
            let w = readable_world(*old(branch), *old(scope));
            if old(branch)@.controller->Byte_0.pending.len() == 0 {
                (w, Ok(()))
            } else {
                w.respond_bytes(0)
            }
        }),
{
    if branch.has_pending_pull_into() {
        branch.respond_bytes(scope, 0)
    } else {
        Ok(())
    }
}

impl ByteTeeState {
    /// Takes note that the source has closed under a default read: so do the branches that
    /// are left, with what they still wait for. Where one cannot, both fail and the source
    /// is canceled, and `promise` tells what comes of that.
    pub fn byte_tee_default_close_steps(
        &mut self,
        scope: &mut Scope,
        source: &mut ReadableStream,
        branch1: &mut ReadableStream,
        branch2: &mut ReadableStream,
        promise: u64,
    )
        requires
            sound_pair(branches_world(*old(branch1), *old(branch2), *old(scope))),
            old(scope)@.heap.len() + 2 <= usize::MAX,
        ensures
            *final(self) == (ByteTeeState { reading: false, ..*old(self) }),
            ({
                let (w, outcome) = branches_world(
                    *old(branch1),
                    *old(branch2),
                    *old(scope),
                ).end_both(old(self).canceled1, old(self).canceled2);
                let after = branches_world(*final(branch1), *final(branch2), *final(scope));
                match outcome {
                    Err(error) => (readable_world(*final(source), *final(scope)), after)
                        == tee_failed(old(self).id, old(source)@, w, error, promise),
                    Ok(()) => {
                        &&& final(source)@ == old(source)@
                        &&& after == w.with_scope(old(self).settle_cancel(w.scope))
                    },
                }
            }),
    {
        self.reading = false;
        match self.end_both(scope, branch1, branch2) {
            Ok(()) => {
                self.settle_cancel_promise(scope);
            },
            Err(error) => {
                self.byte_tee_error_both_branches_and_cancel(
                    scope,
                    source,
                    branch1,
                    branch2,
                    error,
                    promise,
                );
            },
        }
    }

    /// Closes both branches at the end of the source, with what they still wait for.
    fn end_both(
        &self,
        scope: &mut Scope,
        branch1: &mut ReadableStream,
        branch2: &mut ReadableStream,
    ) -> (result: Result<(), Value>)
        requires
            sound_pair(branches_world(*old(branch1), *old(branch2), *old(scope))),
            old(scope)@.heap.len() + 2 <= usize::MAX,
        ensures
            (branches_world(*final(branch1), *final(branch2), *final(scope)), result)
                == branches_world(*old(branch1), *old(branch2), *old(scope)).end_both(
                self.canceled1,
                self.canceled2,
            ),
    {
        match close_both(scope, branch1, self.canceled1, branch2, self.canceled2) {
            Ok(()) => {},
            Err(error) => {
                return Err(error);
            },
        }
        let ghost closed = branches_world(*branch1, *branch2, *scope);
        proof {
            if closed.branch1.controller->Byte_0.pending.len() > 0 {
                law_respond_within(closed.first().as_byte(), 0);
            }
        }
        match respond_none(scope, branch1) {
            Ok(()) => {},
            Err(error) => {
                return Err(error);
            },
        }
        proof {
            if closed.branch1.controller->Byte_0.pending.len() > 0 {
                lemma_second_after(closed, readable_world(*branch1, *scope), None, None);
            }
        }
        respond_none(scope, branch2)
    }

    /// Takes note that the source has closed under a read into a view, which it may hand
    /// back: the branches that are left close too. Where one cannot, both fail and the
    /// source is canceled, and `promise` tells what comes of that.
    pub fn byte_tee_byob_close_steps(
        &mut self,
        scope: &mut Scope,
        source: &mut ReadableStream,
        branch1: &mut ReadableStream,
        branch2: &mut ReadableStream,
        for_branch2: bool,
        chunk: Option<ArrayBufferView>,
        promise: u64,
    )
        requires
            sound_pair(branches_world(*old(branch1), *old(branch2), *old(scope))),
            chunk matches Some(view) ==> {
                let w = branches_world(*old(branch1), *old(branch2), *old(scope));
                &&& chunk_ok(w, view)
                &&& !old(self).is_canceled(target(for_branch2)) ==> w.ordered(
                    for_branch2,
                ).branch1.controller->Byte_0.pending.len() > 0
            },
            old(scope)@.heap.len() + 2 <= usize::MAX,
        ensures
            *final(self) == (ByteTeeState { reading: false, ..*old(self) }),
            ({
                let (w, outcome) = branches_world(
                    *old(branch1),
                    *old(branch2),
                    *old(scope),
                ).ordered(for_branch2).end_with_view(
                    old(self).is_canceled(target(for_branch2)),
                    old(self).is_canceled(target(!for_branch2)),
                    chunk,
                );
                let after = branches_world(*final(branch1), *final(branch2), *final(scope));
                match outcome {
                    Err(error) => (readable_world(*final(source), *final(scope)), after)
                        == tee_failed(
                        old(self).id,
                        old(source)@,
                        w.ordered(for_branch2),
                        error,
                        promise,
                    ),
                    Ok(()) => {
                        &&& final(source)@ == old(source)@
                        &&& after == w.ordered(for_branch2).with_scope(
                            old(self).settle_cancel(w.scope),
                        )
                    },
                }
            }),
    {
        self.reading = false;
        let ghost start = branches_world(*branch1, *branch2, *scope);
        let result: Result<(), Value> = if for_branch2 {
            proof {
                lemma_swap(start);
            }
            end_with_view(scope, branch2, self.canceled2, branch1, self.canceled1, chunk)
        } else {
            end_with_view(scope, branch1, self.canceled1, branch2, self.canceled2, chunk)
        };
        match result {
            Ok(()) => {
                self.settle_cancel_promise(scope);
            },
            Err(error) => {
                self.byte_tee_error_both_branches_and_cancel(
                    scope,
                    source,
                    branch1,
                    branch2,
                    error,
                    promise,
                );
            },
        }
    }
}

/// The branch that a chunk was read for.
pub open spec fn target(for_branch2: bool) -> Branch {
    if for_branch2 {
        Branch::Two
    } else {
        Branch::One
    }
}

/// Closes both branches at the end of the source, which may hand back the view of the first.
fn end_with_view(
    scope: &mut Scope,
    byob: &mut ReadableStream,
    byob_canceled: bool,
    other: &mut ReadableStream,
    other_canceled: bool,
    chunk: Option<ArrayBufferView>,
) -> (result: Result<(), Value>)
    requires
        sound_pair(branches_world(*old(byob), *old(other), *old(scope))),
        chunk matches Some(view) ==> {
            &&& chunk_ok(branches_world(*old(byob), *old(other), *old(scope)), view)
            &&& !byob_canceled ==> old(byob)@.controller->Byte_0.pending.len() > 0
        },
        old(scope)@.heap.len() + 2 <= usize::MAX,
    ensures
        (branches_world(*final(byob), *final(other), *final(scope)), result) == branches_world(
            *old(byob),
            *old(other),
            *old(scope),
        ).end_with_view(byob_canceled, other_canceled, chunk),
{
    match close_both(scope, byob, byob_canceled, other, other_canceled) {
        Ok(()) => {},
        Err(error) => {
            return Err(error);
        },
    }
    match chunk {
        Some(view) => {
            proof {
                let closed = branches_world(*byob, *other, *scope);
                assert(apart(closed.first().as_byte(), view.buffer));
                assert(apart(closed.second().as_byte(), view.buffer));
                assert(chunk_ok(closed, view));
            }
            hand_back(scope, byob, byob_canceled, other, other_canceled, view)
        },
        None => Ok(()),
    }
}

/// Hands the view that the source gives back to its branch, once both have closed, and tells
/// the other that nothing more was written.
fn hand_back(
    scope: &mut Scope,
    byob: &mut ReadableStream,
    byob_canceled: bool,
    other: &mut ReadableStream,
    other_canceled: bool,
    view: ArrayBufferView,
) -> (result: Result<(), Value>)
    requires
        sound_pair(branches_world(*old(byob), *old(other), *old(scope))),
        chunk_ok(branches_world(*old(byob), *old(other), *old(scope)), view),
        !byob_canceled ==> old(byob)@.controller->Byte_0.pending.len() > 0,
        old(scope)@.heap.len() + 2 <= usize::MAX,
    ensures
        (branches_world(*final(byob), *final(other), *final(scope)), result) == ({
            let closed = branches_world(*old(byob), *old(other), *old(scope));
            let (first, outcome) = closed.respond_view_first(byob_canceled, view);
            if outcome is Err || other_canceled {
                (first, outcome)
            } else {
                let (after, outcome) = first.swapped().respond_none_first();
                (after.swapped(), outcome)
            }
        }),
{
    let ghost closed = branches_world(*byob, *other, *scope);
    if !byob_canceled {
        proof {
            law_respond_with_new_view_within(closed.first().as_byte(), view);
        }
        match byob.respond_with_view(scope, view) {
            Ok(()) => {},
            Err(error) => {
                return Err(error);
            },
        }
        proof {
            lemma_second_after(closed, readable_world(*byob, *scope), Some(view.buffer), None);
        }
    }
    if !other_canceled {
        respond_none(scope, other)
    } else {
        Ok(())
    }
}

impl ByteTeeState {
    /// Hands a view that the source has filled to the branch it was read for, and a copy of
    /// it to the other, as far as they are left. What the branches ask for on that account
    /// comes before [`ByteTeeState::byte_tee_chunk_done`]. Gives the error of a branch that
    /// does not take what it is handed.
    #[verifier::spinoff_prover]
    #[verifier::rlimit(40)]
    pub fn byte_tee_byob_microtask(
        &mut self,
        scope: &mut Scope,
        source: &mut ReadableStream,
        branch1: &mut ReadableStream,
        branch2: &mut ReadableStream,
        promise: u64,
    ) -> (result: Result<(), Value>)
        requires
            sound_pair(branches_world(*old(branch1), *old(branch2), *old(scope))),
            old(self).pending_chunk matches Value::Bytes(view) && view.byte_length > 0 && chunk_ok(
                branches_world(*old(branch1), *old(branch2), *old(scope)),
                view,
            ),
            !old(self).is_canceled(target(old(self).pending_for_branch2)) ==> branches_world(
                *old(branch1),
                *old(branch2),
                *old(scope),
            ).ordered(old(self).pending_for_branch2).branch1.controller->Byte_0.pending.len() > 0,
            old(scope)@.heap.len() + 4 <= usize::MAX,
        ensures
            *final(self) == old(self).taken_up(),
            ({
                let start = branches_world(*old(branch1), *old(branch2), *old(scope));
                let for_branch2 = old(self).pending_for_branch2;
                let view = old(self).pending_chunk->Bytes_0;
                let byob_canceled = old(self).is_canceled(target(for_branch2));
                let other_canceled = old(self).is_canceled(target(!for_branch2));
                let after = branches_world(*final(branch1), *final(branch2), *final(scope));
                if !other_canceled && !can_clone(
                    start.scope,
                    view.buffer,
                    view.byte_length as nat,
                ) {
                    &&& result is Ok
                    &&& (readable_world(*final(source), *final(scope)), after) == tee_failed(
                        old(self).id,
                        old(source)@,
                        start,
                        clone_error(start.scope, view.buffer),
                        promise,
                    )
                } else {
                    let (given, outcome) = start.ordered(for_branch2).give_filled(
                        byob_canceled,
                        other_canceled,
                        view,
                    );
                    let given = given.ordered(for_branch2);
                    &&& final(source)@ == old(source)@
                    &&& result == outcome
                    &&& after == if outcome is Ok {
                        given.with_scope(
                            given.scope.emit(Effect::ByteTeeChunkDone { tee: old(self).id }),
                        )
                    } else {
                        given
                    }
                }
            }),
    {
        let for_branch2: bool = self.pending_for_branch2;
        let chunk: Value = self.take_up_chunk();
        let view: ArrayBufferView = match chunk {
            Value::Bytes(view) => view,
            _ => {
                return Ok(());
            },
        };
        let other_canceled: bool = if for_branch2 {
            self.canceled1
        } else {
            self.canceled2
        };
        let ghost start = branches_world(*branch1, *branch2, *scope);
        let copy: Option<ArrayBufferView> = if other_canceled {
            None
        } else {
            match scope.clone_region(view.buffer, view.byte_offset, view.byte_length) {
                Ok(buffer) => {
                    proof {
                        lemma_copied(start, view);
                        assert(branches_world(*branch1, *branch2, *scope) =~= start.copied(view).0);
                    }
                    Some(
                        ArrayBufferView {
                            kind: ViewKind::Uint8,
                            buffer,
                            byte_offset: 0,
                            byte_length: view.byte_length,
                        },
                    )
                },
                Err(error) => {
                    self.byte_tee_error_both_branches_and_cancel(
                        scope,
                        source,
                        branch1,
                        branch2,
                        error,
                        promise,
                    );
                    return Ok(());
                },
            }
        };
        let result: Result<(), Value> = if for_branch2 {
            proof {
                lemma_swap(branches_world(*branch1, *branch2, *scope));
            }
            give_filled(scope, branch2, self.canceled2, view, branch1, copy)
        } else {
            give_filled(scope, branch1, self.canceled1, view, branch2, copy)
        };
        match result {
            Ok(()) => {},
            Err(error) => {
                return Err(error);
            },
        }
        scope.emit(Effect::ByteTeeChunkDone { tee: self.id });
        Ok(())
    }

    /// Ends the handing out of a chunk, and reads on for a branch that asked for more
    /// meanwhile, the first before the second.
    pub fn byte_tee_chunk_done(
        &mut self,
        scope: &mut Scope,
        source: &mut ReadableStream,
        branch1: &mut ReadableStream,
        branch2: &mut ReadableStream,
        new_reader: u64,
    )
        requires
            sound_pair(branches_world(*old(source), *old(branch1), *old(scope))),
            sound_pair(branches_world(*old(source), *old(branch2), *old(scope))),
            old(source)@.slots.locked(),
        ensures
            ({
                let free = ByteTeeState { reading: false, ..*old(self) };
                if free.read_again_for_branch1 {
                    let (state, w, asked) = pulled(
                        free,
                        old(source)@,
                        readable_world(*old(branch1), *old(scope)),
                        false,
                        new_reader,
                    );
                    &&& *final(self) == state
                    &&& readable_world(*final(source), *final(scope)) == w
                    &&& final(branch1)@ == asked
                    &&& final(branch2)@ == old(branch2)@
                } else if free.read_again_for_branch2 {
                    let (state, w, asked) = pulled(
                        free,
                        old(source)@,
                        readable_world(*old(branch2), *old(scope)),
                        true,
                        new_reader,
                    );
                    &&& *final(self) == state
                    &&& readable_world(*final(source), *final(scope)) == w
                    &&& final(branch1)@ == old(branch1)@
                    &&& final(branch2)@ == asked
                } else {
                    &&& *final(self) == free
                    &&& readable_world(*final(source), *final(scope)) == readable_world(
                        *old(source),
                        *old(scope),
                    )
                    &&& final(branch1)@ == old(branch1)@
                    &&& final(branch2)@ == old(branch2)@
                }
            }),
    {
        self.reading = false;
        if self.read_again_for_branch1 {
            self.byte_tee_pull(scope, source, branch1, false, new_reader);
        } else if self.read_again_for_branch2 {
            self.byte_tee_pull(scope, source, branch2, true, new_reader);
        }
    }
}

/// Makes the two branches of a byte stream, which it locks. `reader` is the name of the
/// reader that is made for it.
pub fn readable_byte_stream_tee(
    scope: &mut Scope,
    stream: &mut ReadableStream,
    id: u64,
    branch_ids: (u64, u64),
    reader: u64,
) -> (result: Result<(ByteTeeState, ReadableStream, ReadableStream), Value>)
    ensures
        ({
            let (locked, acquired) = readable_world(
                *old(stream),
                *old(scope),
            ).acquire_default_reader();
            &&& final(stream)@ == locked.stream
            &&& match acquired {
                Err(error) => {
                    &&& result == Err::<(ByteTeeState, ReadableStream, ReadableStream), Value>(
                        error,
                    )
                    &&& final(scope)@ == locked.scope
                },
                Ok(()) => {
                    &&& result matches Ok((state, branch1, branch2)) && {
                        &&& state == new_byte_tee(id, reader)
                        &&& branch1@ == byte_tee_branch(id, branch_ids.0, Branch::One)
                        &&& branch2@ == byte_tee_branch(id, branch_ids.1, Branch::Two)
                    }
                    &&& final(scope)@ == locked.scope.emit(
                        Effect::NewPromise(PromiseRef::TeeCancel(id)),
                    ).emit(
                        start_effect(branch_ids.0, Algorithm::Undefined, Value::Undefined),
                    ).emit(
                        start_effect(branch_ids.1, Algorithm::Undefined, Value::Undefined),
                    ).emit(forward_effect(id, reader, old(stream)@.slots.id))
                },
            }
        }),
{
    match stream.set_up_readable_stream_default_reader(scope) {
        Ok(()) => {},
        Err(error) => {
            return Err(error);
        },
    }
    let state: ByteTeeState = ByteTeeState::new(scope, id, reader);
    let branch1: ReadableStream = create_readable_byte_stream(
        scope,
        branch_ids.0,
        Algorithm::Undefined,
        Algorithm::ByteTeePull(id, Branch::One),
        Algorithm::ByteTeeCancel(id, Branch::One),
    );
    let branch2: ReadableStream = create_readable_byte_stream(
        scope,
        branch_ids.1,
        Algorithm::Undefined,
        Algorithm::ByteTeePull(id, Branch::Two),
        Algorithm::ByteTeeCancel(id, Branch::Two),
    );
    state.byte_tee_forward_reader_error(scope, stream.slots.id);
    Ok((state, branch1, branch2))
}

/// The bytes of a copy are those of the chunk, and its buffer is another.
pub proof fn law_byte_tee_copy(w: BranchesWorld, view: ArrayBufferView)
    requires
        live(w.scope.heap, view.buffer),
        view_ok(w.scope.heap, view),
        w.scope.heap.len() < usize::MAX,
    ensures
        ({
            let (after, copy) = w.copied(view);
            &&& copy.buffer != view.buffer
            &&& view_bytes(after.scope.heap, copy) == view_bytes(w.scope.heap, view)
            &&& view_bytes(after.scope.heap, view) == view_bytes(w.scope.heap, view)
        }),
{
    let (after, copy) = w.copied(view);
    assert(view_bytes(after.scope.heap, copy) =~= view_bytes(w.scope.heap, view));
}

/// What has reached a stream stays with it while others do what they do elsewhere.
proof fn lemma_got_bytes_stays(
    before: ByteWorld,
    after: ByteWorld,
    later: ScopeModel,
    place: int,
    bytes: Seq<u8>,
)
    requires
        got_bytes(before, after, place, bytes),
        0 <= place,
        before.idle() || before.slots.requests().len() > 0 || before.controller.pending.len() > 0,
        after.memory_ok(),
        after.scope.effects.is_prefix_of(later.effects),
        after.scope.heap.len() <= later.heap.len(),
        forall|b: usize|
            b < after.scope.heap.len() && (!apart(after, b) || before.scope.heap.len() <= b)
                ==> later.heap[b as int] == #[trigger] after.scope.heap[b as int],
    ensures
        got_bytes(before, after.with_scope(later), place, bytes),
{
    let end = after.with_scope(later);
    let queue = after.controller.queue;
    assert forall|i: int| 0 <= i < queue.len() implies later.heap[(
    #[trigger] queue[i]).buffer as int].data
        == after.scope.heap[queue[i].buffer as int].data by {
        let b = queue[i].buffer;
        assert(entry_ok(after.scope.heap, queue[i]));
        assert(!apart(after, b));
        assert(later.heap[b as int] == after.scope.heap[b as int]);
    }
    lemma_bytes_frame(after.scope.heap, later.heap, queue);
    if before.idle() {
    } else if before.slots.requests().len() > 0 {
        let view = choose|view: ArrayBufferView|
            after.scope.effects[place] == #[trigger] chunk_effect(
                before.slots.requests()[0],
                Value::Bytes(view),
            ) && holds_anew(before, after, view, bytes);
        assert(after.scope.heap[view.buffer as int] == later.heap[view.buffer as int]);
        assert(holds_anew(before, end, view, bytes));
        assert(end.scope.effects[place] == chunk_effect(
            before.slots.requests()[0],
            Value::Bytes(view),
        ));
    } else {
        let head = before.controller.pending[0];
        let total = bytes.len() as u128;
        let held = held_bytes(before.scope.heap, head);
        if fill_ready(total, head) {
            let shown = held + bytes.take(fill_count(total, head) as int);
            let view = choose|view: ArrayBufferView|
                after.scope.effects[place] == #[trigger] into_chunk_effect(
                    before.slots.into_requests()[0],
                    Value::Bytes(view),
                ) && holds_anew(before, after, view, shown);
            assert(after.scope.heap[view.buffer as int] == later.heap[view.buffer as int]);
            assert(holds_anew(before, end, view, shown));
            assert(end.scope.effects[place] == into_chunk_effect(
                before.slots.into_requests()[0],
                Value::Bytes(view),
            ));
        } else {
            let b = after.controller.pending[0].buffer;
            assert(descriptor_ok(after.scope.heap, after.controller.pending[0]));
            assert(!apart(after, b));
            assert(later.heap[b as int] == after.scope.heap[b as int]);
        }
    }
}

/// What reaches a stream is the same whether it is counted from a moment or from an earlier
/// one at which the stream was the same.
proof fn lemma_got_bytes_since(
    earlier: ByteWorld,
    before: ByteWorld,
    after: ByteWorld,
    place: int,
    bytes: Seq<u8>,
)
    requires
        got_bytes(before, after, place, bytes),
        earlier.sound(),
        before.slots == earlier.slots,
        before.controller == earlier.controller,
        earlier.scope.heap.len() <= before.scope.heap.len(),
        forall|b: usize|
            b < earlier.scope.heap.len() && !apart(earlier, b) ==> before.scope.heap[b as int]
                == #[trigger] earlier.scope.heap[b as int],
        earlier.idle() || earlier.slots.requests().len() > 0 || earlier.controller.pending.len() > 0,
    ensures
        got_bytes(earlier, after, place, bytes),
{
    let queue = earlier.controller.queue;
    let pending = earlier.controller.pending;
    assert forall|i: int| 0 <= i < queue.len() implies before.scope.heap[(
    #[trigger] queue[i]).buffer as int].data
        == earlier.scope.heap[queue[i].buffer as int].data by {
        let b = queue[i].buffer;
        assert(entry_ok(earlier.scope.heap, queue[i]));
        assert(!apart(earlier, b));
        assert(before.scope.heap[b as int] == earlier.scope.heap[b as int]);
    }
    lemma_bytes_frame(earlier.scope.heap, before.scope.heap, queue);
    if before.idle() {
    } else if before.slots.requests().len() > 0 {
        let view = choose|view: ArrayBufferView|
            after.scope.effects[place] == #[trigger] chunk_effect(
                before.slots.requests()[0],
                Value::Bytes(view),
            ) && holds_anew(before, after, view, bytes);
        assert(holds_anew(earlier, after, view, bytes));
    } else {
        let head = pending[0];
        let total = bytes.len() as u128;
        assert(descriptor_ok(earlier.scope.heap, head));
        assert(!apart(earlier, head.buffer));
        assert(before.scope.heap[head.buffer as int] == earlier.scope.heap[head.buffer as int]);
        let held = held_bytes(before.scope.heap, head);
        assert(held == held_bytes(earlier.scope.heap, head));
        if fill_ready(total, head) {
            let shown = held + bytes.take(fill_count(total, head) as int);
            let view = choose|view: ArrayBufferView|
                after.scope.effects[place] == #[trigger] into_chunk_effect(
                    before.slots.into_requests()[0],
                    Value::Bytes(view),
                ) && holds_anew(before, after, view, shown);
            assert(holds_anew(earlier, after, view, shown));
        }
    }
}

/// Both branches of a tee get the same bytes, each in buffers of its own: in each the read or
/// the read into a view that waits first is handed the bytes of the chunk, or as many of them
/// as it has room for, and where nobody waits they come last in its queue.
pub proof fn law_byte_tee_same_bytes(w: BranchesWorld, view: ArrayBufferView)
    requires
        sound_pair(w),
        chunk_ok(w, view),
        view.byte_length > 0,
        can_transfer(w.scope.heap, view.buffer),
        ready_for_bytes(w.first().as_byte()),
        ready_for_bytes(w.second().as_byte()),
        w.scope.heap.len() + w.branch1.controller->Byte_0.pending.len() + 8 <= usize::MAX,
        w.branch1.controller->Byte_0.total + 2 * usize::MAX <= u128::MAX,
        w.branch2.controller->Byte_0.total + 2 * usize::MAX <= u128::MAX,
    ensures
        ({
            let (copied, copy) = w.copied(view);
            let middle = copied.then_first(copied.first().enqueue_bytes(view).0);
            let (after, result) = copied.enqueue_both(false, view, false, copy);
            let bytes = view_bytes(w.scope.heap, view);
            &&& result is Ok
            &&& got_bytes(
                w.first().as_byte(),
                after.first().as_byte(),
                w.first().as_byte().invalidated().scope.effects.len() as int,
                bytes,
            )
            &&& got_bytes(
                w.second().as_byte(),
                after.second().as_byte(),
                middle.second().as_byte().invalidated().scope.effects.len() as int,
                bytes,
            )
        }),
{
    let (copied, copy) = w.copied(view);
    let bytes = view_bytes(w.scope.heap, view);
    lemma_copied(w, view);
    law_byte_tee_copy(w, view);
    let first = copied.first().as_byte();
    let second = copied.second().as_byte();
    let place1 = first.invalidated().scope.effects.len() as int;
    assert(ready_for_bytes(first));
    law_enqueue_reaches(first, view);
    law_enqueue_within(first, view);
    law_byte_enqueue(first, view);
    let after1 = copied.first().enqueue_bytes(view).0;
    let got1 = after1.as_byte();
    assert(got1 == first.enqueue(view).0);
    lemma_second_after(copied, after1, Some(view.buffer), Some(copy));
    law_streams_stay_apart(second, first, got1, Some(view.buffer));
    let middle = copied.then_first(after1);
    let second_now = middle.second().as_byte();
    assert(second_now =~= second.with_scope(got1.scope));
    lemma_enqueue_grows(first, view);
    assert forall|b: usize|
        b < second.scope.heap.len() && !apart(second, b) implies second_now.scope.heap[b as int]
        == #[trigger] second.scope.heap[b as int] by {
        assert(apart(first, b));
        assert(first.scope.heap[b as int] == copied.scope.heap[b as int]);
    }
    assert(apart(first, copy.buffer));
    assert(first.scope.heap[copy.buffer as int] == copied.scope.heap[copy.buffer as int]);
    assert(view_bytes(middle.scope.heap, copy) == bytes);
    assert(can_transfer(middle.scope.heap, copy.buffer));
    lemma_still_ready(second, second_now);
    let place2 = second_now.invalidated().scope.effects.len() as int;
    law_enqueue_reaches(second_now, copy);
    law_enqueue_within(second_now, copy);
    lemma_enqueue_grows(second_now, copy);
    let got2 = second_now.enqueue(copy).0;
    let after = copied.enqueue_both(false, view, false, copy).0;
    assert(after.second().as_byte() == got2);
    assert(after.first().as_byte() == got1.with_scope(got2.scope));
    assert forall|b: usize|
        b < got1.scope.heap.len() && (!apart(got1, b) || first.scope.heap.len() <= b) implies
            got2.scope.heap[b as int] == #[trigger] got1.scope.heap[b as int] by {
        assert(apart(second, b)) by {
            if apart(got1, b) {
                lemma_own_within_store(second, b);
            }
        }
        assert(apart(second_now, b));
        assert(b != copy.buffer) by {
            assert(apart(got1, copy.buffer));
        }
        assert(second_now.scope.heap[b as int] == got1.scope.heap[b as int]);
    }
    lemma_got_bytes_stays(first, got1, got2.scope, place1, bytes);
    lemma_got_bytes_since(w.first().as_byte(), first, after.first().as_byte(), place1, bytes);
    lemma_got_bytes_since(second, second_now, got2, place2, bytes);
    lemma_got_bytes_since(w.second().as_byte(), second, got2, place2, bytes);
}

/// The buffers that a stream keeps are in the store.
proof fn lemma_own_within_store(w: ByteWorld, b: usize)
    requires
        w.memory_ok(),
        w.scope.heap.len() <= b,
    ensures
        apart(w, b),
{
    assert forall|i: int| 0 <= i < w.controller.queue.len() implies (
    #[trigger] w.controller.queue[i]).buffer != b by {
        assert(entry_ok(w.scope.heap, w.controller.queue[i]));
    }
    assert forall|i: int| 0 <= i < w.controller.pending.len() implies (
    #[trigger] w.controller.pending[i]).buffer != b by {
        assert(descriptor_ok(w.scope.heap, w.controller.pending[i]));
    }
}

/// A stream that is ready for a chunk stays so while others do what they do elsewhere.
proof fn lemma_still_ready(before: ByteWorld, after: ByteWorld)
    requires
        before.memory_ok(),
        ready_for_bytes(before),
        after.slots == before.slots,
        after.controller == before.controller,
        before.scope.heap.len() <= after.scope.heap.len(),
        forall|b: usize|
            b < before.scope.heap.len() && !apart(before, b) ==> after.scope.heap[b as int]
                == #[trigger] before.scope.heap[b as int],
    ensures
        ready_for_bytes(after),
{
    if before.controller.pending.len() > 0 {
        let b = before.controller.pending[0].buffer;
        assert(descriptor_ok(before.scope.heap, before.controller.pending[0]));
        assert(!apart(before, b));
        assert(after.scope.heap[b as int] == before.scope.heap[b as int]);
    }
}

} // verus!
