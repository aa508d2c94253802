//! The options of the methods of readable streams.

use vstd::prelude::*;

use crate::number::{Number, ONE};

verus! {

/// The kind of reader that a caller asks for.
#[derive(Clone, Copy, Debug, PartialEq, Eq, Structural)]
pub enum ReaderMode {
    Byob,
}

/// The kind of stream that an underlying source asks for.
#[derive(Clone, Copy, Debug, PartialEq, Eq, Structural)]
pub enum ReadableStreamType {
    Bytes,
}

/// The options of a read into a view.
#[derive(Clone, Copy, Debug, PartialEq, Eq, Structural)]
pub struct BYOBReaderReadOptions {
    /// The least number of elements to fill in.
    pub min: Number,
}

impl Default for BYOBReaderReadOptions {
    fn default() -> (options: BYOBReaderReadOptions)
        ensures
            options.min == (Number { bits: ONE }),
    {
        BYOBReaderReadOptions { min: Number { bits: ONE } }
    }
}

/// The options with which a reader is asked for.
#[derive(Clone, Copy, Debug, PartialEq, Eq, Structural)]
pub struct ReadableStreamGetReaderOptions {
    pub mode: Option<ReaderMode>,
}

/// The options of an iteration over a stream.
#[derive(Clone, Copy, Debug, PartialEq, Eq, Structural)]
pub struct ReadableStreamIteratorOptions {
    pub prevent_cancel: bool,
}

impl Default for ReadableStreamIteratorOptions {
    fn default() -> (options: ReadableStreamIteratorOptions)
        ensures
            !options.prevent_cancel,
    {
        ReadableStreamIteratorOptions { prevent_cancel: false }
    }
}

/// The options of a pipe.
#[derive(Clone, Copy, Debug, PartialEq, Eq, Structural)]
pub struct StreamPipeOptions {
    pub prevent_close: bool,
    pub prevent_abort: bool,
    pub prevent_cancel: bool,
    /// The signal that can abort the pipe, by its handle.
    pub signal: Option<u64>,
}

impl Default for StreamPipeOptions {
    fn default() -> (options: StreamPipeOptions)
        ensures
            !options.prevent_close,
            !options.prevent_abort,
            !options.prevent_cancel,
            options.signal is None,
    {
        StreamPipeOptions {
            prevent_close: false,
            prevent_abort: false,
            prevent_cancel: false,
            signal: None,
        }
    }
}

} // verus!
