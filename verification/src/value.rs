//! The values that streams carry: chunks, error reasons and the errors that
//! the streams raise themselves.

use vstd::prelude::*;

use crate::buffer::ArrayBufferView;

verus! {

/// The messages of the errors that the streams raise.
#[derive(Clone, Copy, Debug, PartialEq, Eq, Structural)]
pub enum Message {
    SizeMustBeFunction,
    HighWaterMarkNegative,
    SizeOutOfRange,
    SourceStartNotFunction,
    SourcePullNotFunction,
    SourceCancelNotFunction,
    SinkStartNotFunction,
    SinkWriteNotFunction,
    SinkCloseNotFunction,
    SinkAbortNotFunction,
    TransformerStartNotFunction,
    TransformerTransformNotFunction,
    TransformerFlushNotFunction,
    TransformerCancelNotFunction,
    SourceNotObject,
    SinkNotObject,
    TransformerNotObject,
    InvalidSource,
    InvalidSink,
    InvalidTransformer,
    InvalidSinkType,
    InvalidReadableType,
    InvalidWritableType,
    ByteStreamWithSize,
    ReaderLocked,
    ByobOnNonByteStream,
    ReaderReleased,
    ReaderReleasedClosed,
    ReadWithoutStream,
    ByobReadWithoutStream,
    CancelWithoutStream,
    ByobCancelWithoutStream,
    CancelLocked,
    PipeFromLocked,
    PipeToLocked,
    PipeDestinationClosed,
    CloseNotPermitted,
    EnqueueNotPermitted,
    ByteCloseRequested,
    ByteCloseNotReadable,
    EnqueueNotView,
    EnqueueEmptyView,
    EnqueueEmptyBuffer,
    EnqueueCloseRequested,
    EnqueueNotReadable,
    EnqueueDetached,
    PendingPullIntoDetached,
    InsufficientBytesPending,
    InsufficientBytesRequested,
    BytesWrittenNonZeroClosed,
    BytesWrittenZeroReadable,
    BytesWrittenTooLarge,
    ViewNonEmptyClosed,
    ViewEmptyReadable,
    ViewOffsetMismatch,
    ViewBufferLengthMismatch,
    ViewTooLong,
    AutoAllocateOutOfRange,
    AutoAllocateZero,
    RespondOutOfRange,
    RespondInvalidated,
    RespondDetached,
    RespondNewViewNotView,
    RespondNewViewInvalidated,
    RespondNewViewDetached,
    ReadNotView,
    ReadMinOutOfRange,
    ReadEmptyView,
    ReadEmptyBuffer,
    ReadDetached,
    ReadMinZero,
    ReadMinExceedsLength,
    ReadMinExceedsByteLength,
    ChunkNotUint8Array,
    WriterLocked,
    WriterReleasedClosed,
    WriteReleased,
    CloseReleased,
    AbortReleased,
    DesiredSizeWithoutStream,
    WriteClosing,
    CloseNotWritable,
    CloseAlreadyClosing,
    AbortLocked,
    CloseLocked,
    InvalidWritableState,
    TransformEnqueueNotPermitted,
    TransformTerminated,
    BufferDetached,
    BufferNotDetachable,
    BufferTooLong,
}

impl Message {
    /// The text that the message stands for.
    pub open spec fn spec_text(self) -> Seq<char> {
        match self {
            Message::SizeMustBeFunction => "queuing strategy size must be a function"@,
            Message::HighWaterMarkNegative => "highWaterMark must be a non-negative number"@,
            Message::SizeOutOfRange => "Size must be a finite, non-negative number"@,
            Message::SourceStartNotFunction => "underlying source start must be a function"@,
            Message::SourcePullNotFunction => "underlying source pull must be a function"@,
            Message::SourceCancelNotFunction => "underlying source cancel must be a function"@,
            Message::SinkStartNotFunction => "underlying sink start must be a function"@,
            Message::SinkWriteNotFunction => "underlying sink write must be a function"@,
            Message::SinkCloseNotFunction => "underlying sink close must be a function"@,
            Message::SinkAbortNotFunction => "underlying sink abort must be a function"@,
            Message::TransformerStartNotFunction => "transformer start must be a function"@,
            Message::TransformerTransformNotFunction => "transformer transform must be a function"@,
            Message::TransformerFlushNotFunction => "transformer flush must be a function"@,
            Message::TransformerCancelNotFunction => "transformer cancel must be a function"@,
            Message::SourceNotObject => "ReadableStream constructor: underlyingSource must be an object"@,
            Message::SinkNotObject => "WritableStream constructor: underlyingSink must be an object"@,
            Message::TransformerNotObject => "TransformStream constructor: transformer must be an object"@,
            Message::InvalidSource => "Invalid underlying source"@,
            Message::InvalidSink => "Invalid underlying sink"@,
            Message::InvalidTransformer => "Invalid transformer"@,
            Message::InvalidSinkType => "Invalid type is specified"@,
            Message::InvalidReadableType => "Invalid readableType specified"@,
            Message::InvalidWritableType => "Invalid writableType specified"@,
            Message::ByteStreamWithSize => "a byte stream's queuing strategy must not have a size function"@,
            Message::ReaderLocked => "This stream has already been locked for exclusive reading by another reader"@,
            Message::ByobOnNonByteStream => "Cannot use a BYOB reader with a non-byte stream"@,
            Message::ReaderReleased => "Reader was released"@,
            Message::ReaderReleasedClosed => "Reader was released and can no longer be used to monitor the stream's closedness"@,
            Message::ReadWithoutStream => "Cannot read from a reader that does not have an owner stream"@,
            Message::ByobReadWithoutStream => "Cannot read from a reader that is not attached to a stream"@,
            Message::CancelWithoutStream => "Cannot cancel a reader that does not have an owner stream"@,
            Message::ByobCancelWithoutStream => "Cannot cancel a reader that has no stream"@,
            Message::CancelLocked => "Cannot cancel a stream that already has a reader"@,
            Message::PipeFromLocked => "cannot pipe from a locked ReadableStream"@,
            Message::PipeToLocked => "cannot pipe to a locked WritableStream"@,
            Message::PipeDestinationClosed => "the destination writable stream closed before all data could be piped to it"@,
            Message::CloseNotPermitted => "The stream is not in a state that permits close"@,
            Message::EnqueueNotPermitted => "The stream is not in a state that permits enqueue"@,
            Message::ByteCloseRequested => "close() called on a controller that already requested close"@,
            Message::ByteCloseNotReadable => "close() called on a controller whose stream is not readable"@,
            Message::EnqueueNotView => "enqueue() argument is not an ArrayBufferView"@,
            Message::EnqueueEmptyView => "enqueue() view has a byte length of 0"@,
            Message::EnqueueEmptyBuffer => "enqueue() view's buffer has a byte length of 0"@,
            Message::EnqueueCloseRequested => "enqueue() called on a controller that requested close"@,
            Message::EnqueueNotReadable => "enqueue() called on a controller whose stream is not readable"@,
            Message::EnqueueDetached => "enqueue() view's buffer is detached"@,
            Message::PendingPullIntoDetached => "the pending pull-into's buffer is detached"@,
            Message::InsufficientBytesPending => "Insufficient bytes to fill the pending pull-into"@,
            Message::InsufficientBytesRequested => "Insufficient bytes to fill the requested view"@,
            Message::BytesWrittenNonZeroClosed => "bytesWritten must be 0 for a closed stream"@,
            Message::BytesWrittenZeroReadable => "bytesWritten must not be 0 for a readable stream"@,
            Message::BytesWrittenTooLarge => "bytesWritten exceeds the requested view's length"@,
            Message::ViewNonEmptyClosed => "view byte length must be 0 for a closed stream"@,
            Message::ViewEmptyReadable => "view byte length must not be 0 for a readable stream"@,
            Message::ViewOffsetMismatch => "the view's byte offset does not match the pending pull-into"@,
            Message::ViewBufferLengthMismatch => "the view's buffer byte length does not match the pending pull-into"@,
            Message::ViewTooLong => "the view's byte length exceeds the pending pull-into"@,
            Message::AutoAllocateOutOfRange => "autoAllocateChunkSize is out of range"@,
            Message::AutoAllocateZero => "autoAllocateChunkSize cannot be 0"@,
            Message::RespondOutOfRange => "respond() bytesWritten is out of range"@,
            Message::RespondInvalidated => "respond() called on an invalidated BYOB request"@,
            Message::RespondDetached => "respond() called with a detached view buffer"@,
            Message::RespondNewViewNotView => "respondWithNewView() argument is not an ArrayBufferView"@,
            Message::RespondNewViewInvalidated => "respondWithNewView() called on an invalidated BYOB request"@,
            Message::RespondNewViewDetached => "respondWithNewView() called with a detached view buffer"@,
            Message::ReadNotView => "read() argument is not an ArrayBufferView"@,
            Message::ReadMinOutOfRange => "read() option min is out of range"@,
            Message::ReadEmptyView => "read() view has a byte length of 0"@,
            Message::ReadEmptyBuffer => "read() view's buffer has a byte length of 0"@,
            Message::ReadDetached => "read() view's buffer is detached"@,
            Message::ReadMinZero => "read() option min cannot be 0"@,
            Message::ReadMinExceedsLength => "read() option min exceeds the view's length"@,
            Message::ReadMinExceedsByteLength => "read() option min exceeds the view's byte length"@,
            Message::ChunkNotUint8Array => "a body stream chunk must be a Uint8Array"@,
            Message::WriterLocked => "This stream has already been locked for exclusive writing by another writer"@,
            Message::WriterReleasedClosed => "Writer was released and can no longer be used to monitor the stream's closedness"@,
            Message::WriteReleased => "Cannot write to a stream using a released writer"@,
            Message::CloseReleased => "Cannot close a stream using a released writer"@,
            Message::AbortReleased => "Cannot abort a stream using a released writer"@,
            Message::DesiredSizeWithoutStream => "Cannot read desiredSize of a writer that does not have an owner stream"@,
            Message::WriteClosing => "The stream is closing or closed and cannot be written to"@,
            Message::CloseNotWritable => "The stream (in closed or errored state) is not in the writable state and cannot be closed"@,
            Message::CloseAlreadyClosing => "Cannot close an already-closing stream"@,
            Message::AbortLocked => "Cannot abort a stream that already has a writer"@,
            Message::CloseLocked => "Cannot close a stream that already has a writer"@,
            Message::InvalidWritableState => "invalid value for WritableStreamState"@,
            Message::TransformEnqueueNotPermitted => "Readable side is not in a state that permits enqueue"@,
            Message::TransformTerminated => "The stream has been terminated"@,
            Message::BufferDetached => "the array buffer is detached"@,
            Message::BufferNotDetachable => "the array buffer cannot be detached"@,
            Message::BufferTooLong => "the array buffer is too long to allocate"@,
        }
    }

    /// The text of the message, as it is shown to the author of a program.
    pub fn text(self) -> (text: &'static str)
        ensures
            text@ == self.spec_text(),
    {
        match self {
            Message::SizeMustBeFunction => "queuing strategy size must be a function",
            Message::HighWaterMarkNegative => "highWaterMark must be a non-negative number",
            Message::SizeOutOfRange => "Size must be a finite, non-negative number",
            Message::SourceStartNotFunction => "underlying source start must be a function",
            Message::SourcePullNotFunction => "underlying source pull must be a function",
            Message::SourceCancelNotFunction => "underlying source cancel must be a function",
            Message::SinkStartNotFunction => "underlying sink start must be a function",
            Message::SinkWriteNotFunction => "underlying sink write must be a function",
            Message::SinkCloseNotFunction => "underlying sink close must be a function",
            Message::SinkAbortNotFunction => "underlying sink abort must be a function",
            Message::TransformerStartNotFunction => "transformer start must be a function",
            Message::TransformerTransformNotFunction => "transformer transform must be a function",
            Message::TransformerFlushNotFunction => "transformer flush must be a function",
            Message::TransformerCancelNotFunction => "transformer cancel must be a function",
            Message::SourceNotObject => "ReadableStream constructor: underlyingSource must be an object",
            Message::SinkNotObject => "WritableStream constructor: underlyingSink must be an object",
            Message::TransformerNotObject => "TransformStream constructor: transformer must be an object",
            Message::InvalidSource => "Invalid underlying source",
            Message::InvalidSink => "Invalid underlying sink",
            Message::InvalidTransformer => "Invalid transformer",
            Message::InvalidSinkType => "Invalid type is specified",
            Message::InvalidReadableType => "Invalid readableType specified",
            Message::InvalidWritableType => "Invalid writableType specified",
            Message::ByteStreamWithSize => "a byte stream's queuing strategy must not have a size function",
            Message::ReaderLocked => "This stream has already been locked for exclusive reading by another reader",
            Message::ByobOnNonByteStream => "Cannot use a BYOB reader with a non-byte stream",
            Message::ReaderReleased => "Reader was released",
            Message::ReaderReleasedClosed => "Reader was released and can no longer be used to monitor the stream's closedness",
            Message::ReadWithoutStream => "Cannot read from a reader that does not have an owner stream",
            Message::ByobReadWithoutStream => "Cannot read from a reader that is not attached to a stream",
            Message::CancelWithoutStream => "Cannot cancel a reader that does not have an owner stream",
            Message::ByobCancelWithoutStream => "Cannot cancel a reader that has no stream",
            Message::CancelLocked => "Cannot cancel a stream that already has a reader",
            Message::PipeFromLocked => "cannot pipe from a locked ReadableStream",
            Message::PipeToLocked => "cannot pipe to a locked WritableStream",
            Message::PipeDestinationClosed => "the destination writable stream closed before all data could be piped to it",
            Message::CloseNotPermitted => "The stream is not in a state that permits close",
            Message::EnqueueNotPermitted => "The stream is not in a state that permits enqueue",
            Message::ByteCloseRequested => "close() called on a controller that already requested close",
            Message::ByteCloseNotReadable => "close() called on a controller whose stream is not readable",
            Message::EnqueueNotView => "enqueue() argument is not an ArrayBufferView",
            Message::EnqueueEmptyView => "enqueue() view has a byte length of 0",
            Message::EnqueueEmptyBuffer => "enqueue() view's buffer has a byte length of 0",
            Message::EnqueueCloseRequested => "enqueue() called on a controller that requested close",
            Message::EnqueueNotReadable => "enqueue() called on a controller whose stream is not readable",
            Message::EnqueueDetached => "enqueue() view's buffer is detached",
            Message::PendingPullIntoDetached => "the pending pull-into's buffer is detached",
            Message::InsufficientBytesPending => "Insufficient bytes to fill the pending pull-into",
            Message::InsufficientBytesRequested => "Insufficient bytes to fill the requested view",
            Message::BytesWrittenNonZeroClosed => "bytesWritten must be 0 for a closed stream",
            Message::BytesWrittenZeroReadable => "bytesWritten must not be 0 for a readable stream",
            Message::BytesWrittenTooLarge => "bytesWritten exceeds the requested view's length",
            Message::ViewNonEmptyClosed => "view byte length must be 0 for a closed stream",
            Message::ViewEmptyReadable => "view byte length must not be 0 for a readable stream",
            Message::ViewOffsetMismatch => "the view's byte offset does not match the pending pull-into",
            Message::ViewBufferLengthMismatch => "the view's buffer byte length does not match the pending pull-into",
            Message::ViewTooLong => "the view's byte length exceeds the pending pull-into",
            Message::AutoAllocateOutOfRange => "autoAllocateChunkSize is out of range",
            Message::AutoAllocateZero => "autoAllocateChunkSize cannot be 0",
            Message::RespondOutOfRange => "respond() bytesWritten is out of range",
            Message::RespondInvalidated => "respond() called on an invalidated BYOB request",
            Message::RespondDetached => "respond() called with a detached view buffer",
            Message::RespondNewViewNotView => "respondWithNewView() argument is not an ArrayBufferView",
            Message::RespondNewViewInvalidated => "respondWithNewView() called on an invalidated BYOB request",
            Message::RespondNewViewDetached => "respondWithNewView() called with a detached view buffer",
            Message::ReadNotView => "read() argument is not an ArrayBufferView",
            Message::ReadMinOutOfRange => "read() option min is out of range",
            Message::ReadEmptyView => "read() view has a byte length of 0",
            Message::ReadEmptyBuffer => "read() view's buffer has a byte length of 0",
            Message::ReadDetached => "read() view's buffer is detached",
            Message::ReadMinZero => "read() option min cannot be 0",
            Message::ReadMinExceedsLength => "read() option min exceeds the view's length",
            Message::ReadMinExceedsByteLength => "read() option min exceeds the view's byte length",
            Message::ChunkNotUint8Array => "a body stream chunk must be a Uint8Array",
            Message::WriterLocked => "This stream has already been locked for exclusive writing by another writer",
            Message::WriterReleasedClosed => "Writer was released and can no longer be used to monitor the stream's closedness",
            Message::WriteReleased => "Cannot write to a stream using a released writer",
            Message::CloseReleased => "Cannot close a stream using a released writer",
            Message::AbortReleased => "Cannot abort a stream using a released writer",
            Message::DesiredSizeWithoutStream => "Cannot read desiredSize of a writer that does not have an owner stream",
            Message::WriteClosing => "The stream is closing or closed and cannot be written to",
            Message::CloseNotWritable => "The stream (in closed or errored state) is not in the writable state and cannot be closed",
            Message::CloseAlreadyClosing => "Cannot close an already-closing stream",
            Message::AbortLocked => "Cannot abort a stream that already has a writer",
            Message::CloseLocked => "Cannot close a stream that already has a writer",
            Message::InvalidWritableState => "invalid value for WritableStreamState",
            Message::TransformEnqueueNotPermitted => "Readable side is not in a state that permits enqueue",
            Message::TransformTerminated => "The stream has been terminated",
            Message::BufferDetached => "the array buffer is detached",
            Message::BufferNotDetachable => "the array buffer cannot be detached",
            Message::BufferTooLong => "the array buffer is too long to allocate",
        }
    }
}

/// A value that a stream is given or hands out.
///
/// Values that belong to the embedding runtime are named by a handle; the
/// others are the ones that the streams make or look into.
#[derive(Debug, PartialEq, Eq)]
pub enum Value {
    /// The value `undefined`.
    Undefined,
    /// A value of the runtime.
    Handle(u64),
    /// A `TypeError` raised by a stream.
    TypeError(Message),
    /// A `RangeError` raised by a stream.
    RangeError(Message),
    /// An array of two values.
    Pair(Box<Value>, Box<Value>),
    /// A view onto an array buffer.
    Bytes(ArrayBufferView),
    /// The result of one step of an iteration: the value, and whether the
    /// iteration is over.
    IterResult(Box<Value>, bool),
    /// The mark by which an iterator tells the end of its stream from a chunk.
    EndOfIteration,
}

impl Clone for Value {
    fn clone(&self) -> (copy: Self)
        ensures
            copy == *self,
        decreases self,
    {
        match self {
            Value::Undefined => Value::Undefined,
            Value::Handle(handle) => Value::Handle(*handle),
            Value::TypeError(message) => Value::TypeError(*message),
            Value::RangeError(message) => Value::RangeError(*message),
            Value::Pair(first, second) => {
                let first_copy: Value = (&**first).clone();
                let second_copy: Value = (&**second).clone();
                Value::Pair(Box::new(first_copy), Box::new(second_copy))
            },
            Value::Bytes(view) => Value::Bytes(*view),
            Value::IterResult(value, done) => {
                let value_copy: Value = (&**value).clone();
                Value::IterResult(Box::new(value_copy), *done)
            },
            Value::EndOfIteration => Value::EndOfIteration,
        }
    }
}

/// The result object of one step of an iteration.
pub open spec fn iter_result(value: Value, done: bool) -> Value {
    Value::IterResult(Box::new(value), done)
}

/// The array of the two reasons with which the branches of a tee were canceled.
pub open spec fn pair_of(first: Value, second: Value) -> Value {
    Value::Pair(Box::new(first), Box::new(second))
}

} // verus!
