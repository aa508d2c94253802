# web_streams

The state machines behind readable, writable and transform streams, written in Rust and proved
with Verus.

The library runs no code but its own. Whatever else has to happen on account of an operation,
such as settling a promise, calling a function of the author or queueing a microtask, is noted
in a `Scope` as an effect. A runtime carries the effects out in order and reports what comes of
them by calling the operation that each effect names.

- `src/` holds the library. Each kind of stream has a mathematical model (`readable/stream_world.rs`,
  `readable/byte_stream_controller.rs`, `writable/world.rs`, `transform/world.rs`) in which every
  operation is a function from one state to the next; the contracts say that the code does just
  that. The files whose names end in `laws` state what holds of all streams: what every
  operation keeps, in which order chunks come out, how failures spread.
- `src/number.rs` holds the numbers of a script, by which marks and sizes are given: floating-point
  numbers of double precision, held as their bits and added by integer arithmetic. What a sum is
  rounded to is proved, so that fractions, infinities and numbers below zero are what a script
  has for them. The bytes in the queue of a byte stream are counted exactly; only the room below
  its mark is such a number.
- `app/` holds a runtime for a script engine: it carries out the effects, and hands the numbers of
  the engine over as their bits.
- `tests/` holds the tests.
