//! The state machines of readable, writable and transform streams.
pub mod algorithms;
pub mod buffer;
pub mod construction_laws;
pub mod number;
pub mod queuing;
pub mod readable;
pub mod scope;
pub mod support;
pub mod transform;
pub mod value;
pub mod writable;
