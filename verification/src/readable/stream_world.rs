//! What the operations on a readable stream as a whole come to, whichever its controller.

use vstd::prelude::*;

use crate::buffer::{byte_length_of, view_length_of, ArrayBufferView};
use crate::number::Number;
use crate::readable::byte_stream_controller::{ByteControllerModel, ByteWorld};
use crate::readable::default_controller::{DefaultControllerModel, DefaultWorld};
use crate::readable::read_request::{
    close_effect, error_effect, into_error_effect, ReadIntoRequest, ReadRequest,
};
use crate::readable::readable_stream::ReadableStreamState;
use crate::readable::set_up::addressable;
use crate::readable::slots::{into_close_effects, ReaderModel, SlotsModel};
use crate::scope::{Effect, PromiseRef, ScopeModel};
use crate::value::{Message, Value};

verus! {

/// What there is to know of the controller of a readable stream.
#[verifier::ext_equal]
pub enum ControllerModel {
    Default(DefaultControllerModel),
    Byte(ByteControllerModel),
}

/// What there is to know of a readable stream.
#[verifier::ext_equal]
pub struct ReadableModel {
    pub slots: SlotsModel,
    pub controller: ControllerModel,
}

/// A readable stream together with the scope in which it is used.
#[verifier::ext_equal]
pub struct ReadableWorld {
    pub stream: ReadableModel,
    pub scope: ScopeModel,
}

/// A stream in a scope.
pub open spec fn in_scope(stream: ReadableModel, scope: ScopeModel) -> ReadableWorld {
    ReadableWorld { stream, scope }
}

impl ReadableModel {
    /// Whether this is a stream of values that counts its chunks.
    pub open spec fn counts_chunks(self) -> bool {
        self.controller matches ControllerModel::Default(controller) && (
        controller.size_algorithm is Undefined || controller.size_algorithm is One)
    }
}

impl ReadableWorld {
    pub open spec fn from_default(w: DefaultWorld) -> ReadableWorld {
        ReadableWorld {
            stream: ReadableModel {
                slots: w.slots,
                controller: ControllerModel::Default(w.controller),
            },
            scope: w.scope,
        }
    }

    pub open spec fn from_byte(w: ByteWorld) -> ReadableWorld {
        ReadableWorld {
            stream: ReadableModel {
                slots: w.slots,
                controller: ControllerModel::Byte(w.controller),
            },
            scope: w.scope,
        }
    }

    /// The world of a stream of values.
    pub open spec fn as_default(self) -> DefaultWorld {
        DefaultWorld {
            slots: self.stream.slots,
            controller: self.stream.controller->Default_0,
            scope: self.scope,
        }
    }

    /// The world of a byte stream.
    pub open spec fn as_byte(self) -> ByteWorld {
        ByteWorld {
            slots: self.stream.slots,
            controller: self.stream.controller->Byte_0,
            scope: self.scope,
        }
    }

    /// What holds of a readable stream between two operations.
    pub open spec fn wf(self) -> bool {
        match self.stream.controller {
            ControllerModel::Default(_) => self.as_default().wf(),
            ControllerModel::Byte(_) => self.as_byte().wf(),
        }
    }

    pub open spec fn with_slots(self, slots: SlotsModel) -> ReadableWorld {
        ReadableWorld { stream: ReadableModel { slots, ..self.stream }, ..self }
    }

    pub open spec fn emit(self, effect: Effect) -> ReadableWorld {
        ReadableWorld { scope: self.scope.emit(effect), ..self }
    }

    pub open spec fn emit_all(self, effects: Seq<Effect>) -> ReadableWorld {
        ReadableWorld { scope: self.scope.emit_all(effects), ..self }
    }

    pub open spec fn disturbed(self) -> ReadableWorld {
        self.with_slots(SlotsModel { disturbed: true, ..self.stream.slots })
    }

    /// What the controller does when the stream is canceled.
    pub open spec fn cancel_steps(self, reason: Value, result: PromiseRef) -> ReadableWorld {
        match self.stream.controller {
            ControllerModel::Default(_) => ReadableWorld::from_default(
                self.as_default().cancel_steps(reason, result),
            ),
            ControllerModel::Byte(_) => ReadableWorld::from_byte(
                self.as_byte().cancel_steps(reason, result),
            ),
        }
    }

    /// The stream closed, and all its requests with it.
    pub open spec fn closed_by_cancel(self) -> ReadableWorld {
        let slots = self.stream.slots.closed();
        self.with_slots(
            SlotsModel {
                reader: match slots.reader {
                    ReaderModel::Byob(_) => ReaderModel::Byob(Seq::empty()),
                    other => other,
                },
                ..slots
            },
        ).emit_all(self.stream.slots.on_close()).emit_all(
            into_close_effects(self.stream.slots.into_requests(), Value::Undefined),
        )
    }

    /// The stream canceled; `result` settles with the outcome.
    pub open spec fn cancel(self, reason: Value, result: PromiseRef) -> ReadableWorld {
        let w = self.disturbed();
        match self.stream.slots.state {
            ReadableStreamState::Closed => w.emit(Effect::Resolve(result, Value::Undefined)),
            ReadableStreamState::Errored => w.emit(
                Effect::Reject(result, self.stream.slots.stored_error),
            ),
            ReadableStreamState::Readable => w.closed_by_cancel().cancel_steps(reason, result),
        }
    }

    /// The stream failed with `error`, unless it is past that.
    pub open spec fn errored(self, error: Value) -> ReadableWorld {
        match self.stream.controller {
            ControllerModel::Default(_) => ReadableWorld::from_default(
                self.as_default().errored(error),
            ),
            ControllerModel::Byte(_) => ReadableWorld::from_byte(self.as_byte().errored(error)),
        }
    }

    /// A chunk enqueued into a stream of values that counts its chunks.
    pub open spec fn enqueue_chunk(self, chunk: Value) -> ReadableWorld {
        ReadableWorld::from_default(self.as_default().enqueue(chunk).0)
    }

    /// A stream of values closed by its controller.
    pub open spec fn close_values(self) -> ReadableWorld {
        ReadableWorld::from_default(self.as_default().close())
    }

    /// A chunk enqueued into a byte stream.
    pub open spec fn enqueue_bytes(self, view: ArrayBufferView) -> (
        ReadableWorld,
        Result<(), Value>,
    ) {
        let (w, result) = self.as_byte().enqueue(view);
        (ReadableWorld::from_byte(w), result)
    }

    /// What was left for later of a chunk for a byte stream.
    pub open spec fn enqueue_rest(self, chunk: ArrayBufferView) -> ReadableWorld {
        ReadableWorld::from_byte(self.as_byte().enqueue_rest(chunk))
    }

    /// A byte stream closed by its controller.
    pub open spec fn close_bytes(self) -> (ReadableWorld, Result<(), Value>) {
        let (w, result) = self.as_byte().close();
        (ReadableWorld::from_byte(w), result)
    }

    /// The answer of a byte source that it wrote `count` bytes.
    pub open spec fn respond_bytes(self, count: u64) -> (ReadableWorld, Result<(), Value>) {
        let (w, result) = self.as_byte().respond(count);
        (ReadableWorld::from_byte(w), result)
    }

    /// The answer of a byte source with a view onto what it wrote.
    pub open spec fn respond_with_view(self, view: ArrayBufferView) -> (
        ReadableWorld,
        Result<(), Value>,
    ) {
        let (w, result) = self.as_byte().respond_with_new_view(view);
        (ReadableWorld::from_byte(w), result)
    }

    /// A read by the default reader of the stream.
    pub open spec fn read(self, request: ReadRequest) -> ReadableWorld {
        let w = self.disturbed();
        match self.stream.slots.state {
            ReadableStreamState::Closed => w.emit(close_effect(request)),
            ReadableStreamState::Errored => w.emit(
                error_effect(request, self.stream.slots.stored_error),
            ),
            ReadableStreamState::Readable => match self.stream.controller {
                ControllerModel::Default(_) => ReadableWorld::from_default(
                    w.as_default().pull_steps(request),
                ),
                ControllerModel::Byte(_) => ReadableWorld::from_byte(
                    w.as_byte().pull_steps(request),
                ),
            },
        }
    }

    /// A read into a view by the BYOB reader of the stream.
    pub open spec fn read_into(
        self,
        view: ArrayBufferView,
        min: usize,
        request: ReadIntoRequest,
    ) -> ReadableWorld {
        let w = self.disturbed();
        if self.stream.slots.state is Errored {
            w.emit(into_error_effect(request, self.stream.slots.stored_error))
        } else {
            ReadableWorld::from_byte(w.as_byte().pull_into(view, min, request))
        }
    }

    /// What the controller does when the reader of the stream is released.
    pub open spec fn release_steps(self) -> ReadableWorld {
        match self.stream.controller {
            ControllerModel::Default(_) => self,
            ControllerModel::Byte(controller) => ReadableWorld {
                stream: ReadableModel {
                    controller: ControllerModel::Byte(controller.released()),
                    ..self.stream
                },
                ..self
            },
        }
    }

    /// The stream released from its reader, whose requests fail.
    pub open spec fn release(self) -> ReadableWorld {
        self.emit_all(self.stream.slots.on_release()).release_steps().with_slots(
            self.stream.slots.unlocked(),
        ).emit_all(self.stream.slots.on_release_requests())
    }

    /// The stream locked to a new reader.
    pub open spec fn lock(self, reader: ReaderModel) -> ReadableWorld {
        self.with_slots(SlotsModel { reader, ..self.stream.slots }).emit_all(
            self.stream.slots.on_initialize(),
        )
    }

    /// A new default reader for the stream, which has to be unlocked.
    pub open spec fn acquire_default_reader(self) -> (ReadableWorld, Result<(), Value>) {
        if self.stream.slots.locked() {
            (self, Err(Value::TypeError(Message::ReaderLocked)))
        } else {
            (self.lock(ReaderModel::Default(Seq::empty())), Ok(()))
        }
    }

    /// A new BYOB reader for the stream, which has to be an unlocked byte stream.
    pub open spec fn acquire_byob_reader(self) -> (ReadableWorld, Result<(), Value>) {
        if self.stream.slots.locked() {
            (self, Err(Value::TypeError(Message::ReaderLocked)))
        } else if self.stream.controller is Default {
            (self, Err(Value::TypeError(Message::ByobOnNonByteStream)))
        } else {
            (self.lock(ReaderModel::Byob(Seq::empty())), Ok(()))
        }
    }

    /// The source has started.
    pub open spec fn start_fulfilled(self) -> ReadableWorld {
        match self.stream.controller {
            ControllerModel::Default(_) => ReadableWorld::from_default(
                self.as_default().start_fulfilled(),
            ),
            ControllerModel::Byte(_) => ReadableWorld::from_byte(
                self.as_byte().start_fulfilled(),
            ),
        }
    }

    /// A pull has come to its end.
    pub open spec fn pull_fulfilled(self) -> ReadableWorld {
        match self.stream.controller {
            ControllerModel::Default(_) => ReadableWorld::from_default(
                self.as_default().pull_fulfilled(),
            ),
            ControllerModel::Byte(_) => ReadableWorld::from_byte(self.as_byte().pull_fulfilled()),
        }
    }
}

/// What keeps `read(view)` from reading, if anything does, and otherwise the number of
/// elements to wait for.
pub open spec fn read_view_check(
    scope: ScopeModel,
    attached: bool,
    view: Option<ArrayBufferView>,
    min: Number,
) -> Result<usize, Value> {
    match view {
        None => Err(Value::TypeError(Message::ReadNotView)),
        Some(view) => {
            let min_count = addressable(min.whole());
            if !min.in_range() {
                Err(Value::TypeError(Message::ReadMinOutOfRange))
            } else if view_length_of(scope.heap, view) == 0 {
                Err(Value::TypeError(Message::ReadEmptyView))
            } else if byte_length_of(scope.heap, view.buffer) == 0 {
                Err(Value::TypeError(Message::ReadEmptyBuffer))
            } else if min_count == 0 {
                Err(Value::TypeError(Message::ReadMinZero))
            } else if min_count * view.kind.size() > view.byte_length {
                if view.kind is DataView {
                    Err(Value::RangeError(Message::ReadMinExceedsByteLength))
                } else {
                    Err(Value::RangeError(Message::ReadMinExceedsLength))
                }
            } else if !attached {
                Err(Value::TypeError(Message::ByobReadWithoutStream))
            } else {
                Ok(min_count)
            }
        },
    }
}

} // verus!
