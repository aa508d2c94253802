//! Writable streams.
pub mod algorithms;
pub mod default_controller;
pub mod default_writer;
pub mod laws;
pub mod outcome_laws;
pub mod underlying_sink;
pub mod world;
pub mod writable_stream;
