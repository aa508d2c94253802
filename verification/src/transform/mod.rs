//! Transform streams.

pub mod algorithms;
pub mod laws;
pub mod outcome_laws;
pub mod readable_writable_pair;
pub mod transform_stream;
pub mod transform_stream_default_controller;
pub mod transformer;
pub mod world;
