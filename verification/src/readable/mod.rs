//! Readable streams.
pub mod async_iterator;
pub mod byob_reader;
pub mod byob_request;
pub mod byte_algorithms;
pub mod byte_answer_laws;
pub mod byte_attention_laws;
pub mod byte_content_laws;
pub mod byte_flow_laws;
pub mod byte_frame;
pub mod byte_laws;
pub mod byte_memory;
pub mod byte_queue;
pub mod byte_respond;
pub mod byte_stream_controller;
pub mod byte_tee;
pub mod controller_methods;
pub mod default_algorithms;
pub mod default_controller;
pub mod default_laws;
pub mod default_reader;
pub mod entry_laws;
pub mod from_iterable;
pub mod iterator_laws;
pub mod native_read;
pub mod options;
pub mod pipe;
pub mod pipe_end_laws;
pub mod pipe_flow_laws;
pub mod pipe_laws;
pub mod read_all_bytes;
pub mod read_request;
pub mod read_result;
pub mod readable_stream;
pub mod reader_algorithms;
pub mod set_up;
pub mod slots;
pub mod stream_laws;
pub mod stream_world;
pub mod tee;
pub mod tee_laws;
pub mod underlying_source;
pub mod value_laws;
